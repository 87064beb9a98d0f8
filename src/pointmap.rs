use vstd::prelude::*;

use crate::point::{dist_sq, Point};
use crate::rectangle::{in_rect, rect_contains, Rectangle};
use crate::shape::Shape;

verus! {

/// Why a shape was not taken into a [`Pointmap`].
#[derive(Clone, Copy, Debug, PartialEq, Eq, Structural)]
pub enum PointmapError {
    /// The shape's center lies outside the bounds of the map.
    OutOfBounds,
}

/// The grid column (or row) of coordinate `p` on an axis that starts at
/// `origin`, spans `extent` and is cut into `n` cells; coordinates before
/// the axis fall in the first cell and those past it in the last.
pub open spec fn axis_cell(p: int, origin: int, extent: int, n: int) -> int {
    if extent <= 0 || p < origin {
        0
    } else if p >= origin + extent {
        n - 1
    } else {
        (p - origin) * n / extent
    }
}

/// The `(column, row)` of the grid cell of point `p`.
pub open spec fn cell_of(bounds: Rectangle, n: int, p: Point) -> (int, int) {
    (
        axis_cell(p.0 as int, bounds.position.0 as int, bounds.width as int, n),
        axis_cell(p.1 as int, bounds.position.1 as int, bounds.height as int, n),
    )
}

/// The position of a cell in the row-major list of buckets.
pub open spec fn linear_index(c: (int, int), n: int) -> int {
    c.1 * n + c.0
}

/// The `k`-th cell of the 3x3 block around `c`, row by row from the upper
/// left one.
pub open spec fn block_cell(c: (int, int), k: int) -> (int, int) {
    (c.0 + k % 3 - 1, c.1 + k / 3 - 1)
}

/// Whether a cell lies inside an `n` by `n` grid.
pub open spec fn in_grid(c: (int, int), n: int) -> bool {
    0 <= c.0 < n && 0 <= c.1 < n
}

/// The shapes in the first `k` cells of the block around `c` that lie inside
/// the grid, bucket after bucket.
pub open spec fn block_items<T>(buckets: Seq<Seq<T>>, n: int, c: (int, int), k: int) -> Seq<T>
    decreases k,
{
    if k <= 0 {
        Seq::empty()
    } else {
        let q = block_cell(c, k - 1);
        block_items(buckets, n, c, k - 1) + if in_grid(q, n) {
            buckets[linear_index(q, n)]
        } else {
            Seq::empty()
        }
    }
}

/// Whether `x`'s center is strictly closer than `max_distance` to `center`
/// (always, when there is no limit).
pub open spec fn within<T: Shape>(x: T, center: Point, max_distance: Option<u64>) -> bool {
    match max_distance {
        None => true,
        Some(d) => dist_sq(x.center_spec(), center) < d * d,
    }
}

/// [`within`] as a predicate on shapes.
pub open spec fn near<T: Shape>(center: Point, max_distance: Option<u64>) -> spec_fn(T) -> bool {
    |x: T| within(x, center, max_distance)
}

/// The shapes that a sequence of references points to.
pub open spec fn targets<T>(s: Seq<&T>) -> Seq<T> {
    s.map_values(|x: &T| *x)
}

/// A uniform grid over a rectangular domain that holds shapes by the cell
/// of their center and answers which shapes lie near a given one.
///
/// The domain is cut into `resolution` columns and as many rows; a point's
/// column is `floor((x - left) * resolution / width)`, measured from the
/// domain's own corner, and its row likewise. Each cell owns one bucket,
/// addressed by `(column, row)`, so a neighbor search looks at exactly the
/// eight cells around a cell and never wraps from one row into the next.
pub struct Pointmap<T: Shape> {
    bounds: Rectangle,
    resolution: usize,
    points: Vec<Vec<T>>,
}


fn axis(p: i32, origin: i32, extent: u32, n: usize) -> (r: usize)
    requires
        0 < n,
    ensures
        r == axis_cell(p as int, origin as int, extent as int, n as int),
        r < n,
{
    let p = p as i64;
    let o = origin as i64;
    let e = extent as i64;
    if e <= 0 || p < o {
        0
    } else if p >= o + e {
        n - 1
    } else {
        let d: u128 = (p - o) as u128;
        let m: u128 = n as u128;
        let ee: u128 = e as u128;
        assert(d * m < ee * m) by (nonlinear_arith)
            requires
                d < ee,
                0 < m,
        ;
        assert(d * m <= 0x1_0000_0000 * 0x1_0000_0000_0000_0000) by (nonlinear_arith)
            requires
                d <= 0x1_0000_0000,
                m <= 0x1_0000_0000_0000_0000,
        ;
        let q = d * m / ee;
        assert(q < m) by (nonlinear_arith)
            requires
                d * m < ee * m,
                q as int == (d * m) as int / (ee as int),
                0 < ee,
        ;
        q as usize
    }
}

proof fn lemma_linear_in_range(cx: int, cy: int, n: int)
    requires
        0 <= cx < n,
        0 <= cy < n,
    ensures
        0 <= cy * n + cx < n * n,
{
    assert(cy * n <= (n - 1) * n) by (nonlinear_arith)
        requires
            0 <= cy <= n - 1,
            0 < n,
    ;
    assert((n - 1) * n + n == n * n) by (nonlinear_arith);
    assert(0 <= cy * n) by (nonlinear_arith)
        requires
            0 <= cy,
            0 < n,
    ;
}

impl<T: Shape> Pointmap<T> {
    /// The domain that every stored shape's center lies in.
    pub closed spec fn bounds_spec(&self) -> Rectangle {
        self.bounds
    }

    /// The number of grid cells along each axis.
    pub closed spec fn resolution_spec(&self) -> int {
        self.resolution as int
    }

    /// The contents of each cell, in row-major order.
    pub closed spec fn buckets(&self) -> Seq<Seq<T>> {
        Seq::new(self.points@.len(), |i: int| self.points@[i]@)
    }

    /// The bucket that a point falls in.
    pub open spec fn index_of(&self, p: Point) -> int {
        linear_index(cell_of(self.bounds_spec(), self.resolution_spec(), p), self.resolution_spec())
    }

    /// An `n` by `n` grid in which every shape is valid, has its center in
    /// the bounds, and sits in the bucket of its center's cell.
    pub open spec fn wf(&self) -> bool {
        let n = self.resolution_spec();
        &&& 0 < n
        &&& n * n <= usize::MAX
        &&& self.buckets().len() == n * n
        &&& forall|i: int, j: int|
            0 <= i < self.buckets().len() && 0 <= j < self.buckets()[i].len() ==> {
                let x = #[trigger] self.buckets()[i][j];
                &&& x.valid()
                &&& rect_contains(self.bounds_spec(), x.center_spec())
                &&& self.index_of(x.center_spec()) == i
            }
    }

    /// The shapes returned by [`Pointmap::get_neighbors`]: those in the 3x3
    /// block of cells around the cell of `shape`'s center, filtered by
    /// distance between centers.
    pub open spec fn neighbors_spec(&self, shape: T, max_distance: Option<u64>) -> Seq<T> {
        let c = shape.center_spec();
        let n = self.resolution_spec();
        block_items(self.buckets(), n, cell_of(self.bounds_spec(), n, c), 9).filter(
            near::<T>(c, max_distance),
        )
    }

    /// Every stored shape, bucket after bucket.
    pub open spec fn all_spec(&self) -> Seq<T> {
        self.buckets().flatten()
    }
}

proof fn lemma_axis_cell_in_range(p: int, origin: int, extent: int, n: int)
    requires
        0 < n,
    ensures
        0 <= axis_cell(p, origin, extent, n) < n,
{
    if extent > 0 && origin <= p < origin + extent {
        let d = p - origin;
        assert(0 <= d * n / extent < n) by (nonlinear_arith)
            requires
                0 <= d < extent,
                0 < n,
        ;
    }
}

proof fn lemma_block_prefix<T>(buckets: Seq<Seq<T>>, n: int, c: (int, int), k1: int, k2: int)
    requires
        0 <= k1 <= k2,
    ensures
        block_items(buckets, n, c, k1).len() <= block_items(buckets, n, c, k2).len(),
        forall|i: int|
            0 <= i < block_items(buckets, n, c, k1).len() ==> #[trigger] block_items(buckets, n, c, k2)[i]
                == block_items(buckets, n, c, k1)[i],
    decreases k2 - k1,
{
    if k1 < k2 {
        lemma_block_prefix(buckets, n, c, k1, k2 - 1);
    }
}

/// Every stored shape is among its own neighbors when no distance limit is
/// given: it sits in the bucket of its own center's cell.
pub proof fn lemma_stored_shape_is_own_neighbor<T: Shape>(m: Pointmap<T>, i: int, j: int)
    requires
        m.wf(),
        0 <= i < m.buckets().len(),
        0 <= j < m.buckets()[i].len(),
    ensures
        m.neighbors_spec(m.buckets()[i][j], None).contains(m.buckets()[i][j]),
{
    let x = m.buckets()[i][j];
    let n = m.resolution_spec();
    let b = m.bounds_spec();
    let c = x.center_spec();
    let cell = cell_of(b, n, c);
    lemma_axis_cell_in_range(c.0 as int, b.position.0 as int, b.width as int, n);
    lemma_axis_cell_in_range(c.1 as int, b.position.1 as int, b.height as int, n);
    assert(block_cell(cell, 4) == cell);
    assert(linear_index(cell, n) == i);
    let pre = block_items(m.buckets(), n, cell, 4);
    let five = block_items(m.buckets(), n, cell, 5);
    assert(five == pre + m.buckets()[i]);
    assert(five[pre.len() + j] == x);
    lemma_block_prefix(m.buckets(), n, cell, 5, 9);
    let all = block_items(m.buckets(), n, cell, 9);
    assert(all[pre.len() + j] == x);
    let pred = near::<T>(c, None);
    assert(pred(x));
    all.lemma_filter_contains(pred, pre.len() + j);
}

/// A shape that [`Pointmap::add_point`] has just taken in is among its own
/// neighbors when no distance limit is given.
pub proof fn lemma_inserted_is_own_neighbor<T: Shape>(before: Pointmap<T>, after: Pointmap<T>, shape: T)
    requires
        before.wf(),
        after.wf(),
        shape.valid(),
        rect_contains(before.bounds_spec(), shape.center_spec()),
        after.bounds_spec() == before.bounds_spec(),
        after.resolution_spec() == before.resolution_spec(),
        after.buckets() == before.buckets().update(
            before.index_of(shape.center_spec()),
            before.buckets()[before.index_of(shape.center_spec())].push(shape),
        ),
    ensures
        after.neighbors_spec(shape, None).contains(shape),
{
    let c = shape.center_spec();
    let n = before.resolution_spec();
    let b = before.bounds_spec();
    lemma_axis_cell_in_range(c.0 as int, b.position.0 as int, b.width as int, n);
    lemma_axis_cell_in_range(c.1 as int, b.position.1 as int, b.height as int, n);
    let cell = cell_of(b, n, c);
    lemma_linear_in_range(cell.0, cell.1, n);
    let i = before.index_of(c);
    let j = before.buckets()[i].len() as int;
    assert(after.buckets()[i][j] == shape);
    lemma_stored_shape_is_own_neighbor(after, i, j);
}

/// With a limit `d`, no neighbor's center lies at distance `d` or more from
/// the query shape's center.
pub proof fn lemma_neighbors_closer_than<T: Shape>(m: Pointmap<T>, shape: T, d: u64)
    ensures
        forall|k: int|
            0 <= k < m.neighbors_spec(shape, Some(d)).len() ==> dist_sq(
                (#[trigger] m.neighbors_spec(shape, Some(d))[k]).center_spec(),
                shape.center_spec(),
            ) < d * d,
{
    let c = shape.center_spec();
    let n = m.resolution_spec();
    let all = block_items(m.buckets(), n, cell_of(m.bounds_spec(), n, c), 9);
    let pred = near::<T>(c, Some(d));
    assert forall|k: int| 0 <= k < m.neighbors_spec(shape, Some(d)).len() implies dist_sq(
        (#[trigger] m.neighbors_spec(shape, Some(d))[k]).center_spec(),
        c,
    ) < d * d by {
        all.lemma_filter_pred(pred, k);
    }
}

impl<T: Shape> Pointmap<T> {
    /// An empty map over `bounds`, cut into `resolution` by `resolution`
    /// cells.
    pub fn new(bounds: Rectangle, resolution: usize) -> (r: Pointmap<T>)
        requires
            0 < resolution,
            resolution * resolution <= usize::MAX,
        ensures
            r.wf(),
            r.bounds_spec() == bounds,
            r.resolution_spec() == resolution,
            forall|i: int| 0 <= i < r.buckets().len() ==> (#[trigger] r.buckets()[i]).len() == 0,
    {
        let cells = resolution * resolution;
        let mut points: Vec<Vec<T>> = Vec::new();
        let mut i: usize = 0;
        while i < cells
            invariant
                i <= cells,
                points@.len() == i,
                forall|k: int| 0 <= k < i ==> (#[trigger] points@[k])@.len() == 0,
            decreases cells - i,
        {
            points.push(Vec::new());
            i = i + 1;
        }
        let r = Pointmap { bounds, resolution, points };
        assert(r.buckets().len() == cells);
        r
    }

    /// The bucket of point `p`.
    fn get_index(&self, p: Point) -> (r: usize)
        requires
            self.wf(),
        ensures
            r == self.index_of(p),
            r < self.buckets().len(),
    {
        let n = self.resolution;
        let cx = axis(p.0, self.bounds.position.0, self.bounds.width, n);
        let cy = axis(p.1, self.bounds.position.1, self.bounds.height, n);
        proof {
            lemma_linear_in_range(cx as int, cy as int, n as int);
        }
        cy * n + cx
    }

    /// Store `shape` in the bucket of its center, or refuse it when its
    /// center lies outside the bounds.
    pub fn add_point(&mut self, shape: T) -> (r: Result<(), PointmapError>)
        requires
            old(self).wf(),
            shape.valid(),
        ensures
            final(self).wf(),
            final(self).bounds_spec() == old(self).bounds_spec(),
            final(self).resolution_spec() == old(self).resolution_spec(),
            rect_contains(old(self).bounds_spec(), shape.center_spec()) ==> {
                &&& r is Ok
                &&& final(self).buckets() == old(self).buckets().update(
                    old(self).index_of(shape.center_spec()),
                    old(self).buckets()[old(self).index_of(shape.center_spec())].push(shape),
                )
            },
            !rect_contains(old(self).bounds_spec(), shape.center_spec()) ==> {
                &&& r == Err::<(), PointmapError>(PointmapError::OutOfBounds)
                &&& final(self).buckets() == old(self).buckets()
            },
    {
        let center = shape.center();
        if !in_rect(&self.bounds, &center) {
            return Err(PointmapError::OutOfBounds);
        }
        let index = self.get_index(center);
        let ghost before = self.buckets();
        self.points[index].push(shape);
        proof {
            let expected = before.update(index as int, before[index as int].push(shape));
            assert(self.buckets() =~= expected);
            assert forall|i: int, j: int|
                0 <= i < self.buckets().len() && 0 <= j < self.buckets()[i].len() implies {
                    let x = #[trigger] self.buckets()[i][j];
                    &&& x.valid()
                    &&& rect_contains(self.bounds_spec(), x.center_spec())
                    &&& self.index_of(x.center_spec()) == i
                } by {
                if i == index && j == before[i].len() {
                    assert(self.buckets()[i][j] == shape);
                } else {
                    assert(self.buckets()[i][j] == before[i][j]);
                }
            }
        }
        Ok(())
    }
    /// The shapes near `shape`: those in its center's cell and the eight
    /// cells around it, and, when `max_distance` is given, only those whose
    /// center lies strictly closer than it to `shape`'s center.
    pub fn get_neighbors(&self, shape: &T, max_distance: Option<u64>) -> (r: Vec<&T>)
        requires
            self.wf(),
            shape.valid(),
        ensures
            targets(r@) == self.neighbors_spec(*shape, max_distance),
    {
        let c = shape.center();
        let n = self.resolution;
        let cx = axis(c.0, self.bounds.position.0, self.bounds.width, n);
        let cy = axis(c.1, self.bounds.position.1, self.bounds.height, n);
        let ghost cell = (cx as int, cy as int);
        let ghost pred = near::<T>(c, max_distance);
        let ghost buckets = self.buckets();
        assert(cell == cell_of(self.bounds_spec(), n as int, c));
        let mut r: Vec<&T> = Vec::new();
        let mut k: usize = 0;
        while k < 9
            invariant
                k <= 9,
                self.wf(),
                buckets == self.buckets(),
                n == self.resolution_spec(),
                cx < n,
                cy < n,
                cell == (cx as int, cy as int),
                pred == near::<T>(c, max_distance),
                targets(r@) == block_items(buckets, n as int, cell, k as int).filter(pred),
            decreases 9 - k,
        {
            let qx: i128 = cx as i128 + (k % 3) as i128 - 1;
            let qy: i128 = cy as i128 + (k / 3) as i128 - 1;
            assert((qx as int, qy as int) == block_cell(cell, k as int));
            if 0 <= qx && qx < n as i128 && 0 <= qy && qy < n as i128 {
                proof {
                    lemma_linear_in_range(qx as int, qy as int, n as int);
                }
                let index = (qy as usize) * n + (qx as usize);
                let bucket = &self.points[index];
                assert(bucket@ == buckets[linear_index((qx as int, qy as int), n as int)]);
                let mut j: usize = 0;
                while j < bucket.len()
                    invariant
                        j <= bucket@.len(),
                        self.wf(),
                        buckets == self.buckets(),
                        bucket@ == buckets[index as int],
                        0 <= index < buckets.len(),
                        pred == near::<T>(c, max_distance),
                        targets(r@) == block_items(buckets, n as int, cell, k as int).filter(pred) + bucket@.take(
                            j as int,
                        ).filter(pred),
                    decreases bucket@.len() - j,
                {
                    let item = &bucket[j];
                    assert(item == buckets[index as int][j as int]);
                    let keep = match max_distance {
                        None => true,
                        Some(d) => item.center().is_within(&c, d),
                    };
                    assert(bucket@.take(j as int + 1).drop_last() =~= bucket@.take(j as int));
                    assert(bucket@.take(j as int + 1).last() == *item);
                    assert(keep == pred(*item));
                    let ghost before = r@;
                    proof {
                        reveal(Seq::filter);
                        let head = block_items(buckets, n as int, cell, k as int).filter(pred);
                        let done = bucket@.take(j as int).filter(pred);
                        assert(bucket@.take(j as int + 1).filter(pred) == if pred(*item) {
                            done.push(*item)
                        } else {
                            done
                        });
                        assert(head + done.push(*item) =~= (head + done).push(*item));
                    }
                    if keep {
                        r.push(item);
                        assert(targets(r@) =~= targets(before).push(*item));
                    }
                    j = j + 1;
                }
                proof {
                    assert(bucket@.take(j as int) =~= bucket@);
                    Seq::filter_distributes_over_add(
                        block_items(buckets, n as int, cell, k as int),
                        bucket@,
                        pred,
                    );
                }
            } else {
                assert(block_items(buckets, n as int, cell, k as int + 1) =~= block_items(
                    buckets,
                    n as int,
                    cell,
                    k as int,
                ));
            }
            k = k + 1;
        }
        r
    }

    /// Every stored shape, bucket after bucket, each bucket in the order of
    /// insertion.
    pub fn points(&self) -> (r: Vec<&T>)
        ensures
            targets(r@) == self.all_spec(),
    {
        let mut r: Vec<&T> = Vec::new();
        let mut i: usize = 0;
        while i < self.points.len()
            invariant
                i <= self.points@.len(),
                targets(r@) == self.buckets().take(i as int).flatten(),
            decreases self.points@.len() - i,
        {
            let bucket = &self.points[i];
            let mut j: usize = 0;
            while j < bucket.len()
                invariant
                    j <= bucket@.len(),
                    i < self.points@.len(),
                    bucket@ == self.buckets()[i as int],
                    targets(r@) == self.buckets().take(i as int).flatten() + bucket@.take(j as int),
                decreases bucket@.len() - j,
            {
                let ghost before = r@;
                r.push(&bucket[j]);
                assert(targets(r@) =~= targets(before).push(bucket@[j as int]));
                assert(bucket@.take(j as int + 1) =~= bucket@.take(j as int).push(bucket@[j as int]));
                j = j + 1;
            }
            proof {
                assert(bucket@.take(j as int) =~= bucket@);
                assert(self.buckets().take(i as int + 1) =~= self.buckets().take(i as int).push(bucket@));
                self.buckets().take(i as int).lemma_flatten_push(bucket@);
            }
            i = i + 1;
        }
        assert(self.buckets().take(i as int) =~= self.buckets());
        r
    }
}

} // verus!
