use vstd::prelude::*;

use crate::point::{dist_sq, Point};
use crate::rectangle::{rect_center, rect_contains, rect_covers, rect_valid, right, bottom, Rectangle};
use crate::shape::Shape;

verus! {

/// A polyline: an ordered sequence of points, consecutive ones joined by a
/// segment, with an optional rotation kept for whoever draws it.
#[derive(Clone, Debug)]
pub struct Path {
    /// The points that make up the path, in order.
    pub points: Vec<Point>,
    /// Rotation in degrees; it does not move the stored points.
    pub rotation: Option<i32>,
    /// The point the rotation turns around.
    pub rotation_center: Option<Point>,
}


/// One coordinate of a point: `y` when `vertical`, else `x`.
pub open spec fn coord(p: Point, vertical: bool) -> int {
    if vertical {
        p.1 as int
    } else {
        p.0 as int
    }
}

/// The least coordinate along one axis over a non-empty sequence.
pub open spec fn min_coord(s: Seq<Point>, vertical: bool) -> int
    decreases s.len(),
{
    if s.len() <= 1 {
        coord(s[0], vertical)
    } else {
        let m = min_coord(s.drop_last(), vertical);
        let c = coord(s.last(), vertical);
        if c < m {
            c
        } else {
            m
        }
    }
}

/// The greatest coordinate along one axis over a non-empty sequence.
pub open spec fn max_coord(s: Seq<Point>, vertical: bool) -> int
    decreases s.len(),
{
    if s.len() <= 1 {
        coord(s[0], vertical)
    } else {
        let m = max_coord(s.drop_last(), vertical);
        let c = coord(s.last(), vertical);
        if c > m {
            c
        } else {
            m
        }
    }
}

/// The tightest axis-aligned box around the points; none for no points.
pub open spec fn bounding_box_of(s: Seq<Point>) -> Option<Rectangle> {
    if s.len() == 0 {
        None
    } else {
        Some(
            Rectangle {
                position: Point(min_coord(s, false) as i32, min_coord(s, true) as i32),
                width: (max_coord(s, false) - min_coord(s, false)) as u32,
                height: (max_coord(s, true) - min_coord(s, true)) as u32,
            },
        )
    }
}

/// Which side of the line through `s0` and `s1` the point `q` lies on, as
/// the sign of a cross product (zero on the line).
pub open spec fn side(s0: Point, s1: Point, q: Point) -> int {
    (s1.1 - s0.1) * (s1.0 - q.0) - (s1.0 - s0.0) * (s1.1 - q.1)
}

/// Whether two segments cross or touch: the ends of each lie on opposite
/// sides of the other's line, or on it.
pub open spec fn segments_cross(a: (Point, Point), b: (Point, Point)) -> bool {
    &&& side(b.0, b.1, a.0) * side(b.0, b.1, a.1) <= 0
    &&& side(a.0, a.1, b.0) * side(a.0, a.1, b.1) <= 0
}

/// How many of the polyline's segments meet the ray.
pub open spec fn crossings(s: Seq<Point>, ray: (Point, Point)) -> int
    decreases s.len(),
{
    if s.len() < 2 {
        0
    } else {
        crossings(s.drop_last(), ray) + if segments_cross((s[s.len() - 2], s[s.len() - 1]), ray) {
            1int
        } else {
            0int
        }
    }
}

/// The four rays from `p` to the edges of `b`: up, down, right and left.
pub open spec fn search_rays(p: Point, b: Rectangle) -> Seq<(Point, Point)> {
    seq![
        (p, Point(p.0, b.position.1)),
        (p, Point(p.0, bottom(b) as i32)),
        (p, Point(right(b) as i32, p.1)),
        (p, Point(b.position.0, p.1)),
    ]
}

/// Ray-casting containment: the point lies in the bounding box of the
/// points, and each of the four rays from it to the box's edges meets the
/// polyline an odd number of times.
pub open spec fn polyline_contains(s: Seq<Point>, p: Point) -> bool {
    match bounding_box_of(s) {
        None => false,
        Some(b) => {
            &&& rect_contains(b, p)
            &&& forall|k: int| 0 <= k < 4 ==> #[trigger] crossings(s, search_rays(p, b)[k]) % 2 == 1
        },
    }
}

/// The squared length of each segment, in order.
pub open spec fn segment_lengths_sq(s: Seq<Point>) -> Seq<int> {
    Seq::new(if s.len() == 0 { 0 } else { (s.len() - 1) as nat }, |i: int| dist_sq(s[i], s[i + 1]))
}

/// Over a non-empty sequence every coordinate lies between the least and
/// the greatest, both of which are coordinates of some point.
pub proof fn lemma_min_max(s: Seq<Point>, vertical: bool)
    requires
        s.len() > 0,
    ensures
        forall|i: int| 0 <= i < s.len() ==> min_coord(s, vertical) <= #[trigger] coord(s[i], vertical) <= max_coord(s, vertical),
        exists|i: int| 0 <= i < s.len() && min_coord(s, vertical) == coord(s[i], vertical),
        exists|i: int| 0 <= i < s.len() && max_coord(s, vertical) == coord(s[i], vertical),
    decreases s.len(),
{
    if s.len() > 1 {
        let t = s.drop_last();
        lemma_min_max(t, vertical);
        assert forall|i: int| 0 <= i < s.len() implies min_coord(s, vertical) <= #[trigger] coord(s[i], vertical) <= max_coord(s, vertical) by {
            if i < t.len() {
                assert(s[i] == t[i]);
            }
        }
        let j = choose|j: int| 0 <= j < t.len() && min_coord(t, vertical) == coord(t[j], vertical);
        let k = choose|k: int| 0 <= k < t.len() && max_coord(t, vertical) == coord(t[k], vertical);
        assert(s[j] == t[j] && s[k] == t[k]);
        assert(coord(s.last(), vertical) == coord(s[s.len() - 1], vertical));
    } else {
        assert(coord(s[0], vertical) == min_coord(s, vertical));
    }
}

/// The bounding box of a non-empty polyline is valid and covers every one
/// of its points, edges included.
pub proof fn lemma_bounding_box_covers(s: Seq<Point>)
    requires
        s.len() > 0,
    ensures
        bounding_box_of(s) is Some,
        rect_valid(bounding_box_of(s).unwrap()),
        forall|i: int| 0 <= i < s.len() ==> rect_covers(bounding_box_of(s).unwrap(), #[trigger] s[i]),
{
    lemma_min_max(s, false);
    lemma_min_max(s, true);
    let b = bounding_box_of(s).unwrap();
    let i = choose|i: int| 0 <= i < s.len() && min_coord(s, false) == coord(s[i], false);
    let j = choose|j: int| 0 <= j < s.len() && max_coord(s, false) == coord(s[j], false);
    let k = choose|k: int| 0 <= k < s.len() && min_coord(s, true) == coord(s[k], true);
    let l = choose|l: int| 0 <= l < s.len() && max_coord(s, true) == coord(s[l], true);
    assert(i32::MIN <= min_coord(s, false) <= max_coord(s, false) <= i32::MAX);
    assert(i32::MIN <= min_coord(s, true) <= max_coord(s, true) <= i32::MAX);
    assert forall|i: int| 0 <= i < s.len() implies rect_covers(b, #[trigger] s[i]) by {
        assert(coord(s[i], false) == s[i].0 && coord(s[i], true) == s[i].1);
    }
}

/// The bounding box of no points is none, and that of one point is the
/// zero-sized box at it.
pub proof fn lemma_bounding_box_small(p: Point)
    ensures
        bounding_box_of(Seq::<Point>::empty()) is None,
        bounding_box_of(seq![p]) == Some(Rectangle { position: p, width: 0, height: 0 }),
{
}


fn side_of(s0: Point, s1: Point, q: Point) -> (r: i128)
    ensures
        r == side(s0, s1, q),
        -0x4_0000_0000_0000_0000 <= r <= 0x4_0000_0000_0000_0000,
{
    let a: i128 = s1.1 as i128 - s0.1 as i128;
    let b: i128 = s1.0 as i128 - q.0 as i128;
    let c: i128 = s1.0 as i128 - s0.0 as i128;
    let d: i128 = s1.1 as i128 - q.1 as i128;
    assert(-0x1_0000_0000_0000_0000 <= a * b <= 0x1_0000_0000_0000_0000) by (nonlinear_arith)
        requires
            -0x1_0000_0000 <= a <= 0x1_0000_0000,
            -0x1_0000_0000 <= b <= 0x1_0000_0000,
    ;
    assert(-0x1_0000_0000_0000_0000 <= c * d <= 0x1_0000_0000_0000_0000) by (nonlinear_arith)
        requires
            -0x1_0000_0000 <= c <= 0x1_0000_0000,
            -0x1_0000_0000 <= d <= 0x1_0000_0000,
    ;
    a * b - c * d
}

fn opposite_or_zero(p: i128, q: i128) -> (r: bool)
    ensures
        r == ((p <= 0 && q >= 0) || (p >= 0 && q <= 0)),
{
    (p <= 0 && q >= 0) || (p >= 0 && q <= 0)
}

proof fn lemma_sign_product(p: int, q: int)
    ensures
        (p * q <= 0) == ((p <= 0 && q >= 0) || (p >= 0 && q <= 0)),
{
    if p > 0 && q > 0 {
        assert(p * q > 0) by (nonlinear_arith)
            requires
                p > 0,
                q > 0,
        ;
    } else if p < 0 && q < 0 {
        assert(p * q > 0) by (nonlinear_arith)
            requires
                p < 0,
                q < 0,
        ;
    } else if p <= 0 && q >= 0 {
        assert(p * q <= 0) by (nonlinear_arith)
            requires
                p <= 0,
                q >= 0,
        ;
    } else {
        assert(p * q <= 0) by (nonlinear_arith)
            requires
                p >= 0,
                q <= 0,
        ;
    }
}

impl Path {
    /// Create a path through the given points, without rotation.
    pub fn new(points: Vec<Point>) -> (r: Path)
        ensures
            r.points@ == points@,
            r.rotation.is_none(),
            r.rotation_center.is_none(),
    {
        Path { points, rotation: None, rotation_center: None }
    }

    /// Append a point at the end of the path.
    pub fn add_point(&mut self, point: Point)
        ensures
            final(self).points@ == old(self).points@.push(point),
            final(self).rotation == old(self).rotation,
            final(self).rotation_center == old(self).rotation_center,
    {
        self.points.push(point);
    }

    /// The squared length of each segment of the path, in order: one fewer
    /// than the points, or none for an empty path. The length of the path
    /// is the sum of their square roots.
    pub fn segment_lengths_squared(&self) -> (r: Vec<u128>)
        ensures
            r@.len() == segment_lengths_sq(self.points@).len(),
            forall|i: int| 0 <= i < r@.len() ==> r@[i] as int == #[trigger] segment_lengths_sq(self.points@)[i],
    {
        let mut r: Vec<u128> = Vec::new();
        let n = self.points.len();
        if n == 0 {
            return r;
        }
        let mut i: usize = 1;
        while i < n
            invariant
                1 <= i <= n,
                n == self.points@.len(),
                r@.len() == i - 1,
                forall|j: int| 0 <= j < r@.len() ==> r@[j] as int == #[trigger] segment_lengths_sq(self.points@)[j],
            decreases n - i,
        {
            let d = self.points[i - 1].distance_squared(&self.points[i]);
            r.push(d);
            i = i + 1;
        }
        r
    }

    /// Whether the segments `a` and `b` cross or touch. Collinear segments
    /// that overlap, and ends that touch, count as meeting.
    pub fn intersects(a: (Point, Point), b: (Point, Point)) -> (r: bool)
        ensures
            r == segments_cross(a, b),
    {
        let p0 = side_of(b.0, b.1, a.0);
        let p1 = side_of(b.0, b.1, a.1);
        let p2 = side_of(a.0, a.1, b.0);
        let p3 = side_of(a.0, a.1, b.1);
        proof {
            lemma_sign_product(p0 as int, p1 as int);
            lemma_sign_product(p2 as int, p3 as int);
        }
        opposite_or_zero(p0, p1) && opposite_or_zero(p2, p3)
    }

    /// How many segments of the path meet `ray`.
    fn count_crossings(&self, ray: (Point, Point)) -> (r: u64)
        ensures
            r == crossings(self.points@, ray),
    {
        let n = self.points.len();
        if n == 0 {
            return 0;
        }
        let mut count: u64 = 0;
        let mut i: usize = 0;
        assert(self.points@.take(1).len() == 1);
        while i + 1 < n
            invariant
                n == self.points@.len(),
                i + 1 <= n,
                count == crossings(self.points@.take(i as int + 1), ray),
                count <= i,
            decreases n - i,
        {
            assert(self.points@.take(i as int + 2).drop_last() =~= self.points@.take(i as int + 1));
            if Path::intersects((self.points[i], self.points[i + 1]), ray) {
                count = count + 1;
            }
            i = i + 1;
        }
        assert(self.points@.take(i as int + 1) =~= self.points@);
        count
    }

    /// Record a rotation by `angle` degrees around `center`.
    pub fn rotate(&mut self, angle: i32, center: Point) -> (r: &Path)
        ensures
            final(self).points@ == old(self).points@,
            final(self).rotation == Some(angle),
            final(self).rotation_center == Some(center),
            *r == *final(self),
    {
        self.rotation = Some(angle);
        self.rotation_center = Some(center);
        self
    }
}

proof fn lemma_dist_sq_symmetric(a: Point, b: Point)
    ensures
        dist_sq(a, b) == dist_sq(b, a),
{
    assert((a.0 - b.0) * (a.0 - b.0) == (b.0 - a.0) * (b.0 - a.0)) by (nonlinear_arith);
    assert((a.1 - b.1) * (a.1 - b.1) == (b.1 - a.1) * (b.1 - a.1)) by (nonlinear_arith);
}

/// Squared segment lengths: none for no points or one point, the squared
/// distance for two points, and reversing the points reverses them.
pub proof fn lemma_segment_lengths(p: Point, q: Point, s: Seq<Point>)
    ensures
        segment_lengths_sq(Seq::<Point>::empty()).len() == 0,
        segment_lengths_sq(seq![p]).len() == 0,
        segment_lengths_sq(seq![p, q]) == seq![dist_sq(p, q)],
        segment_lengths_sq(s.reverse()) == segment_lengths_sq(s).reverse(),
{
    assert(segment_lengths_sq(seq![p, q]) =~= seq![dist_sq(p, q)]);
    let r = s.reverse();
    let n = s.len();
    if n > 0 {
        assert forall|i: int| 0 <= i < n - 1 implies #[trigger] segment_lengths_sq(r)[i] == segment_lengths_sq(s).reverse()[i] by {
            assert(r[i] == s[n - 1 - i]);
            assert(r[i + 1] == s[n - 2 - i]);
            lemma_dist_sq_symmetric(s[n - 1 - i], s[n - 2 - i]);
        }
    }
    assert(segment_lengths_sq(r) =~= segment_lengths_sq(s).reverse());
}

impl Shape for Path {
    open spec fn valid(&self) -> bool {
        true
    }

    /// The center of the bounding box, or the origin for an empty path.
    open spec fn center_spec(&self) -> Point {
        match bounding_box_of(self.points@) {
            None => Point(0, 0),
            Some(b) => rect_center(b),
        }
    }

    open spec fn bounding_box_spec(&self) -> Option<Rectangle> {
        bounding_box_of(self.points@)
    }

    open spec fn contains_spec(&self, point: Point) -> bool {
        polyline_contains(self.points@, point)
    }

    fn center(&self) -> (r: Point) {
        match self.bounding_box() {
            None => Point(0, 0),
            Some(b) => {
                proof {
                    lemma_bounding_box_covers(self.points@);
                }
                b.center()
            },
        }
    }

    fn bounding_box(&self) -> (r: Option<Rectangle>) {
        let n = self.points.len();
        if n == 0 {
            return None;
        }
        let p = self.points[0];
        let mut min_x = p.0;
        let mut min_y = p.1;
        let mut max_x = p.0;
        let mut max_y = p.1;
        let mut i: usize = 1;
        assert(self.points@.take(1)[0] == p);
        while i < n
            invariant
                1 <= i <= n,
                n == self.points@.len(),
                min_x == min_coord(self.points@.take(i as int), false),
                min_y == min_coord(self.points@.take(i as int), true),
                max_x == max_coord(self.points@.take(i as int), false),
                max_y == max_coord(self.points@.take(i as int), true),
            decreases n - i,
        {
            let q = self.points[i];
            assert(self.points@.take(i as int + 1).drop_last() =~= self.points@.take(i as int));
            assert(self.points@.take(i as int + 1).last() == q);
            if q.0 < min_x {
                min_x = q.0;
            }
            if q.1 < min_y {
                min_y = q.1;
            }
            if q.0 > max_x {
                max_x = q.0;
            }
            if q.1 > max_y {
                max_y = q.1;
            }
            i = i + 1;
        }
        assert(self.points@.take(n as int) =~= self.points@);
        proof {
            lemma_bounding_box_covers(self.points@);
        }
        Some(
            Rectangle {
                position: Point(min_x, min_y),
                width: (max_x as i64 - min_x as i64) as u32,
                height: (max_y as i64 - min_y as i64) as u32,
            },
        )
    }

    /// Ray casting from the point to the four edges of the bounding box;
    /// the point is inside only if every ray meets the path an odd number
    /// of times. The points are taken as an open polyline: close the ring
    /// by repeating the first point at the end.
    fn contains(&self, point: &Point) -> (r: bool) {
        let bounds = match self.bounding_box() {
            Some(b) => b,
            None => return false,
        };
        proof {
            lemma_bounding_box_covers(self.points@);
        }
        if !bounds.contains(point) {
            return false;
        }
        let p = *point;
        let bottom_edge = (bounds.position.1 as i64 + bounds.height as i64) as i32;
        let right_edge = (bounds.position.0 as i64 + bounds.width as i64) as i32;
        let rays = vec![
            (p, Point(p.0, bounds.position.1)),
            (p, Point(p.0, bottom_edge)),
            (p, Point(right_edge, p.1)),
            (p, Point(bounds.position.0, p.1)),
        ];
        assert(rays@ =~= search_rays(p, bounds));
        let mut k: usize = 0;
        while k < 4
            invariant
                0 <= k <= 4,
                rays@ == search_rays(p, bounds),
                bounding_box_of(self.points@) == Some(bounds),
                rect_contains(bounds, p),
                p == *point,
                forall|j: int| 0 <= j < k ==> #[trigger] crossings(self.points@, search_rays(p, bounds)[j]) % 2 == 1,
            decreases 4 - k,
        {
            let intersections = self.count_crossings(rays[k]);
            if intersections % 2 == 0 {
                assert(rays@[k as int] == search_rays(p, bounds)[k as int]);
                assert(crossings(self.points@, search_rays(p, bounds)[k as int]) % 2 != 1);
                return false;
            }
            k = k + 1;
        }
        true
    }
}

} // verus!
