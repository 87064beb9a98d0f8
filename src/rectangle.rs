use vstd::prelude::*;

use crate::path::Path;
use crate::point::Point;
use crate::shape::Shape;

verus! {

/// The direction of the cut made by [`Rectangle::subdivide`].
#[derive(Clone, Copy, Debug, PartialEq, Eq, Structural)]
pub enum SplitDirection {
    /// Cut by a vertical line, giving a left and a right part.
    Horizontally,
    /// Cut by a horizontal line, giving a top and a bottom part.
    Vertically,
}

/// An axis-aligned rectangle: its upper left corner and its extent.
///
/// It covers the half-open ranges `[x, x + width)` and `[y, y + height)`;
/// a zero-sized rectangle covers nothing.
#[derive(Clone, Copy, Debug, PartialEq, Eq, Structural)]
pub struct Rectangle {
    /// Upper left corner of the rectangle.
    pub position: Point,
    /// Width of the rectangle.
    pub width: u32,
    /// Height of the rectangle.
    pub height: u32,
}

/// Halving with Rust's rounding toward zero.
pub open spec fn half(s: int) -> int {
    if s >= 0 {
        s / 2
    } else {
        -((-s) / 2)
    }
}

fn halve(s: i64) -> (r: i64)
    ensures
        r as int == half(s as int),
{
    if s >= 0 {
        s / 2
    } else {
        let m: i128 = -(s as i128);
        -((m / 2) as i64)
    }
}

/// The value of the x coordinate at the right edge (exclusive).
pub open spec fn right(r: Rectangle) -> int {
    r.position.0 + r.width
}

/// The value of the y coordinate at the bottom edge (exclusive).
pub open spec fn bottom(r: Rectangle) -> int {
    r.position.1 + r.height
}

/// Half-open containment: `x` in `[left, right)` and `y` in `[top, bottom)`.
pub open spec fn rect_contains(r: Rectangle, p: Point) -> bool {
    &&& r.position.0 <= p.0 < right(r)
    &&& r.position.1 <= p.1 < bottom(r)
}

/// Closed containment, edges included.
pub open spec fn rect_covers(r: Rectangle, p: Point) -> bool {
    &&& r.position.0 <= p.0 <= right(r)
    &&& r.position.1 <= p.1 <= bottom(r)
}

/// A rectangle whose right and bottom edges are representable coordinates.
pub open spec fn rect_valid(r: Rectangle) -> bool {
    right(r) <= i32::MAX && bottom(r) <= i32::MAX
}

/// The center: the sum of the corner coordinate and the extent, halved.
pub open spec fn rect_center(r: Rectangle) -> Point {
    Point(half(right(r)) as i32, half(bottom(r)) as i32)
}

/// The extent after scaling by `percent` percent, rounded down.
pub open spec fn scaled(extent: int, percent: int) -> int {
    extent * percent / 100
}

/// Containment follows the half-open rule: a point inside is contained, a
/// point on the right or bottom edge is not.
pub proof fn lemma_contains_half_open(r: Rectangle, p: Point)
    ensures
        (r.position.0 <= p.0 < right(r) && r.position.1 <= p.1 < bottom(r)) ==> r.contains_spec(p),
        (p.0 == right(r) || p.1 == bottom(r)) ==> !r.contains_spec(p),
{
}

/// Half-open containment, for any rectangle.
pub(crate) fn in_rect(r: &Rectangle, p: &Point) -> (b: bool)
    ensures
        b == rect_contains(*r, *p),
{
    let x = p.0 as i64;
    let y = p.1 as i64;
    r.position.0 as i64 <= x && x < r.position.0 as i64 + r.width as i64 && r.position.1 as i64 <= y
        && y < r.position.1 as i64 + r.height as i64
}

impl Rectangle {
    /// Create a new rectangle whose top-left corner is at `position`.
    pub fn new(position: Point, width: u32, height: u32) -> (r: Rectangle)
        ensures
            r.position == position,
            r.width == width,
            r.height == height,
    {
        Rectangle { position, width, height }
    }

    /// Scale the rectangle to `percent` percent of its size, keeping the
    /// middle of its extent in place (the shift is rounded toward zero).
    pub fn scale(&self, percent: u32) -> (r: Rectangle)
        requires
            scaled(self.width as int, percent as int) <= u32::MAX,
            scaled(self.height as int, percent as int) <= u32::MAX,
            i32::MIN <= self.position.0 - half(scaled(self.width as int, percent as int) - self.width) <= i32::MAX,
            i32::MIN <= self.position.1 - half(scaled(self.height as int, percent as int) - self.height) <= i32::MAX,
        ensures
            r.width == scaled(self.width as int, percent as int),
            r.height == scaled(self.height as int, percent as int),
            r.position.0 == self.position.0 - half(r.width - self.width),
            r.position.1 == self.position.1 - half(r.height - self.height),
    {
        assert(self.width * percent <= u32::MAX * u32::MAX) by (nonlinear_arith);
        assert(self.height * percent <= u32::MAX * u32::MAX) by (nonlinear_arith);
        let width: u64 = self.width as u64 * percent as u64 / 100;
        let height: u64 = self.height as u64 * percent as u64 / 100;
        let dx = halve(width as i64 - self.width as i64);
        let dy = halve(height as i64 - self.height as i64);
        let x: i64 = self.position.0 as i64 - dx;
        let y: i64 = self.position.1 as i64 - dy;
        Rectangle { position: Point(x as i32, y as i32), width: width as u32, height: height as u32 }
    }

    /// Surface area of the rectangle.
    pub fn area(&self) -> (r: u64)
        ensures
            r == self.width * self.height,
    {
        assert(self.width * self.height <= u32::MAX * u32::MAX) by (nonlinear_arith);
        self.width as u64 * self.height as u64
    }

    /// The horizontal range covered: from the left edge up to the right edge.
    pub fn x_range(&self) -> (r: std::ops::Range<i64>)
        ensures
            r.start == self.position.0,
            r.end == right(*self),
    {
        (self.position.0 as i64)..(self.position.0 as i64 + self.width as i64)
    }

    /// The vertical range covered: from the top edge down to the bottom edge.
    pub fn y_range(&self) -> (r: std::ops::Range<i64>)
        ensures
            r.start == self.position.1,
            r.end == bottom(*self),
    {
        (self.position.1 as i64)..(self.position.1 as i64 + self.height as i64)
    }

    /// The outline as a closed path: the four corners clockwise from the
    /// top-left one, and the top-left one again.
    pub fn to_path(&self) -> (r: Path)
        requires
            rect_valid(*self),
        ensures
            r.points@ == seq![
                self.position,
                Point(right(*self) as i32, self.position.1),
                Point(right(*self) as i32, bottom(*self) as i32),
                Point(self.position.0, bottom(*self) as i32),
                self.position,
            ],
            r.rotation.is_none(),
    {
        let r = (self.position.0 as i64 + self.width as i64) as i32;
        let b = (self.position.1 as i64 + self.height as i64) as i32;
        let points = vec![
            self.position,
            Point(r, self.position.1),
            Point(r, b),
            Point(self.position.0, b),
            self.position,
        ];
        Path::new(points)
    }

    /// Cut the rectangle in two at `split_point`, leaving a gap of `padding`
    /// (zero if none) on each side of the cut.
    pub fn subdivide(&self, split_point: &Point, split_direction: SplitDirection, padding: Option<u32>) -> (r: (
        Rectangle,
        Rectangle,
    ))
        requires
            rect_valid(*self),
            split_direction == SplitDirection::Horizontally ==> self.position.0 + padding.unwrap_or(0)
                <= split_point.0 && split_point.0 + padding.unwrap_or(0) <= right(*self),
            split_direction == SplitDirection::Vertically ==> self.position.1 + padding.unwrap_or(0)
                <= split_point.1 && split_point.1 + padding.unwrap_or(0) <= bottom(*self),
        ensures
            ({
                let pad = padding.unwrap_or(0) as int;
                match split_direction {
                    SplitDirection::Horizontally => {
                        &&& r.0 == Rectangle {
                            position: self.position,
                            width: (split_point.0 - pad - self.position.0) as u32,
                            height: self.height,
                        }
                        &&& r.1 == Rectangle {
                            position: Point((split_point.0 + pad) as i32, self.position.1),
                            width: (right(*self) - split_point.0 - pad) as u32,
                            height: self.height,
                        }
                    },
                    SplitDirection::Vertically => {
                        &&& r.0 == Rectangle {
                            position: self.position,
                            width: self.width,
                            height: (split_point.1 - pad - self.position.1) as u32,
                        }
                        &&& r.1 == Rectangle {
                            position: Point(self.position.0, (split_point.1 + pad) as i32),
                            width: self.width,
                            height: (bottom(*self) - split_point.1 - pad) as u32,
                        }
                    },
                }
            }),
    {
        let pad: i64 = match padding {
            Some(p) => p as i64,
            None => 0,
        };
        match split_direction {
            SplitDirection::Horizontally => Rectangle::split_horizontally(self, split_point, pad),
            SplitDirection::Vertically => Rectangle::split_vertically(self, split_point, pad),
        }
    }

    fn split_horizontally(rect: &Rectangle, split_point: &Point, padding: i64) -> (r: (Rectangle, Rectangle))
        requires
            rect_valid(*rect),
            0 <= padding <= u32::MAX,
            rect.position.0 + padding <= split_point.0,
            split_point.0 + padding <= right(*rect),
        ensures
            r.0 == Rectangle::new_spec(rect.position, (split_point.0 - padding - rect.position.0) as u32, rect.height),
            r.1 == Rectangle::new_spec(
                Point((split_point.0 + padding) as i32, rect.position.1),
                (right(*rect) - split_point.0 - padding) as u32,
                rect.height,
            ),
    {
        let x = split_point.0 as i64;
        let left_width = (x - padding - rect.position.0 as i64) as u32;
        let right_width = (rect.position.0 as i64 + rect.width as i64 - x - padding) as u32;
        (
            Rectangle::new(rect.position, left_width, rect.height),
            Rectangle::new(Point((x + padding) as i32, rect.position.1), right_width, rect.height),
        )
    }

    fn split_vertically(rect: &Rectangle, split_point: &Point, padding: i64) -> (r: (Rectangle, Rectangle))
        requires
            rect_valid(*rect),
            0 <= padding <= u32::MAX,
            rect.position.1 + padding <= split_point.1,
            split_point.1 + padding <= bottom(*rect),
        ensures
            r.0 == Rectangle::new_spec(rect.position, rect.width, (split_point.1 - padding - rect.position.1) as u32),
            r.1 == Rectangle::new_spec(
                Point(rect.position.0, (split_point.1 + padding) as i32),
                rect.width,
                (bottom(*rect) - split_point.1 - padding) as u32,
            ),
    {
        let y = split_point.1 as i64;
        let top_height = (y - padding - rect.position.1 as i64) as u32;
        let bottom_height = (rect.position.1 as i64 + rect.height as i64 - y - padding) as u32;
        (
            Rectangle::new(rect.position, rect.width, top_height),
            Rectangle::new(Point(rect.position.0, (y + padding) as i32), rect.width, bottom_height),
        )
    }

    /// The rectangle with the given corner and extent.
    pub open spec fn new_spec(position: Point, width: u32, height: u32) -> Rectangle {
        Rectangle { position, width, height }
    }
}

impl Shape for Rectangle {
    open spec fn valid(&self) -> bool {
        rect_valid(*self)
    }

    open spec fn center_spec(&self) -> Point {
        rect_center(*self)
    }

    open spec fn bounding_box_spec(&self) -> Option<Rectangle> {
        Some(*self)
    }

    open spec fn contains_spec(&self, point: Point) -> bool {
        rect_contains(*self, point)
    }

    fn center(&self) -> (r: Point) {
        let cx = halve(self.position.0 as i64 + self.width as i64);
        let cy = halve(self.position.1 as i64 + self.height as i64);
        Point(cx as i32, cy as i32)
    }

    fn bounding_box(&self) -> (r: Option<Rectangle>) {
        Some(*self)
    }

    fn contains(&self, point: &Point) -> (r: bool) {
        in_rect(self, point)
    }
}

} // verus!
