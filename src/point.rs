use vstd::prelude::*;

use crate::rectangle::Rectangle;
use crate::shape::Shape;

verus! {

/// A point on the integer plane: `(x, y)`, with `y` growing downwards.
#[derive(Clone, Copy, Debug, PartialEq, Eq, Structural)]
pub struct Point(pub i32, pub i32);

/// Squared Euclidean distance between two points.
pub open spec fn dist_sq(a: Point, b: Point) -> int {
    (a.0 - b.0) * (a.0 - b.0) + (a.1 - b.1) * (a.1 - b.1)
}

impl Point {
    /// Squared Euclidean distance to `other`.
    pub fn distance_squared(&self, other: &Point) -> (r: u128)
        ensures
            r as int == dist_sq(*self, *other),
    {
        let dx: i128 = self.0 as i128 - other.0 as i128;
        let dy: i128 = self.1 as i128 - other.1 as i128;
        assert(0 <= dx * dx <= 0x1_0000_0000_0000_0000) by (nonlinear_arith)
            requires
                -0x1_0000_0000 <= dx <= 0x1_0000_0000,
        ;
        assert(0 <= dy * dy <= 0x1_0000_0000_0000_0000) by (nonlinear_arith)
            requires
                -0x1_0000_0000 <= dy <= 0x1_0000_0000,
        ;
        (dx * dx + dy * dy) as u128
    }

    /// Whether `other` lies strictly closer than `max_distance` to this point.
    pub fn is_within(&self, other: &Point, max_distance: u64) -> (r: bool)
        ensures
            r == (dist_sq(*self, *other) < max_distance * max_distance),
    {
        let d: u128 = max_distance as u128;
        assert(d * d <= 0xffff_ffff_ffff_ffff * 0xffff_ffff_ffff_ffff) by (nonlinear_arith)
            requires
                d <= 0xffff_ffff_ffff_ffff,
        ;
        self.distance_squared(other) < d * d
    }
}

impl Shape for Point {
    open spec fn valid(&self) -> bool {
        true
    }

    open spec fn center_spec(&self) -> Point {
        *self
    }

    /// The zero-sized box at the point.
    open spec fn bounding_box_spec(&self) -> Option<Rectangle> {
        Some(Rectangle { position: *self, width: 0, height: 0 })
    }

    /// A point contains only itself.
    open spec fn contains_spec(&self, point: Point) -> bool {
        *self == point
    }

    fn center(&self) -> (r: Point) {
        *self
    }

    fn bounding_box(&self) -> (r: Option<Rectangle>) {
        Some(Rectangle { position: *self, width: 0, height: 0 })
    }

    fn contains(&self, point: &Point) -> (r: bool) {
        self.0 == point.0 && self.1 == point.1
    }
}

} // verus!
