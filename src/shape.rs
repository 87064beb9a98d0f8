use vstd::prelude::*;

use crate::point::Point;
use crate::rectangle::Rectangle;

verus! {

/// A shape that can be placed on the plane: it has a center, a bounding box
/// and a containment test.
pub trait Shape {
    /// The condition under which the shape's derived values are representable.
    spec fn valid(&self) -> bool;

    /// The center of the shape.
    spec fn center_spec(&self) -> Point;

    /// A tight axis-aligned box around the shape, if it has any extent.
    spec fn bounding_box_spec(&self) -> Option<Rectangle>;

    /// Whether the shape contains the point.
    spec fn contains_spec(&self, point: Point) -> bool;

    /// Center point of this shape.
    fn center(&self) -> (r: Point)
        requires
            self.valid(),
        ensures
            r == self.center_spec(),
    ;

    /// A tight bounding box around the shape.
    fn bounding_box(&self) -> (r: Option<Rectangle>)
        requires
            self.valid(),
        ensures
            r == self.bounding_box_spec(),
    ;

    /// True if the shape contains `point`.
    fn contains(&self, point: &Point) -> (r: bool)
        requires
            self.valid(),
        ensures
            r == self.contains_spec(*point),
    ;
}

} // verus!
