//! The stroke expander, sub-path by sub-path: the ring of a closed sub-path,
//! the caps and joins of an open one, and the number of vertices that the
//! mesh can take at most.

use vstd::prelude::*;
use crate::cache::{paths_fit, PathBuilder, PathCache, PathVertexRef, Point};
use crate::joins::{
    count_joins, joined_path, joined_point, lemma_count_joins_bounds, needs_join, JoinMeasure,
};
use crate::stroke::{
    butt_cap_end, butt_cap_start, curve_divs, curve_divs_spec, end_cap_verts, fades, join_verts,
    left_fade, right_fade, round_cap_end, round_cap_start, start_cap_verts, stroke_join, Vertex,
};
use crate::style::{LineCap, LineJoin};

verus! {

/// Index of the point before point `j` of a sub-path of `count` points from
/// `first` on; before the first point comes the last.
pub open spec fn ring_prev(first: int, count: int, j: int) -> int {
    if j == 0 {
        first + count - 1
    } else {
        first + j - 1
    }
}

/// The vertices of the joins at points `lo` up to `hi` of a sub-path, in
/// order.
pub open spec fn ring_verts<S>(
    points: Seq<Point<S>>,
    measures: Seq<JoinMeasure<S>>,
    first: int,
    count: int,
    lo: int,
    hi: int,
    line_join: LineJoin,
    ncap: usize,
    anti_alias: bool,
) -> Seq<Vertex>
    decreases hi - lo,
{
    if hi <= lo {
        Seq::empty()
    } else {
        ring_verts(points, measures, first, count, lo, hi - 1, line_join, ncap, anti_alias)
            + join_verts(
            ring_prev(first, count, hi - 1) as usize,
            (first + hi - 1) as usize,
            points[first + hi - 1].flags,
            line_join,
            measures[first + hi - 1].arc,
            ncap,
            anti_alias,
        )
    }
}

/// The two vertices that close a ring: its first two, once more.
pub open spec fn loop_verts(ring: Seq<Vertex>, anti_alias: bool) -> Seq<Vertex> {
    seq![
        Vertex { u: left_fade(anti_alias), core: true, ..ring[0] },
        Vertex { u: right_fade(anti_alias), core: true, ..ring[1] },
    ]
}

/// The mesh of one sub-path. A sub-path of fewer than two points has none.
/// A closed one is the ring of all its joins, closed by its own first two
/// vertices. An open one is a start cap at its first point, the joins at
/// its inner points, and an end cap at its last.
pub open spec fn path_verts<S>(
    points: Seq<Point<S>>,
    measures: Seq<JoinMeasure<S>>,
    path: PathBuilder,
    line_cap: LineCap,
    line_join: LineJoin,
    ncap: usize,
    anti_alias: bool,
) -> Seq<Vertex> {
    let first = path.first as int;
    let count = path.count as int;
    if count < 2 {
        Seq::empty()
    } else if path.closed {
        let ring = ring_verts(points, measures, first, count, 0, count, line_join, ncap, anti_alias);
        ring + loop_verts(ring, anti_alias)
    } else {
        start_cap_verts(path.first, line_cap, ncap, anti_alias) + ring_verts(
            points,
            measures,
            first,
            count,
            1,
            count - 1,
            line_join,
            ncap,
            anti_alias,
        ) + end_cap_verts(
            (first + count - 2) as usize,
            (first + count - 1) as usize,
            line_cap,
            ncap,
            anti_alias,
        )
    }
}

/// The mesh of the first `n` sub-paths, one after the other.
pub open spec fn stroke_verts<S>(
    points: Seq<Point<S>>,
    measures: Seq<JoinMeasure<S>>,
    paths: Seq<PathBuilder>,
    n: int,
    line_cap: LineCap,
    line_join: LineJoin,
    ncap: usize,
    anti_alias: bool,
) -> Seq<Vertex>
    decreases n,
{
    if n <= 0 {
        Seq::empty()
    } else {
        stroke_verts(points, measures, paths, n - 1, line_cap, line_join, ncap, anti_alias)
            + path_verts(points, measures, paths[n - 1], line_cap, line_join, ncap, anti_alias)
    }
}

/// Vertex pairs set aside for one join that needs more than one pair.
pub open spec fn join_allowance(line_join: LineJoin, ncap: usize) -> int {
    if line_join == LineJoin::Round {
        ncap + 2
    } else {
        5
    }
}

/// Vertices set aside for the two caps of an open sub-path: two fans and
/// two pairs where the caps are round, six pairs where they are not.
pub open spec fn cap_allowance(line_cap: LineCap, ncap: usize) -> int {
    if line_cap == LineCap::Round {
        (ncap * 2 + 2) * 2
    } else {
        12
    }
}

/// Vertices set aside for one sub-path: a pair for every point, the join
/// allowance for every point counted in `nbevel`, a pair to close the ring,
/// and the cap allowance where the sub-path is open.
pub open spec fn path_reserve(
    path: PathBuilder,
    line_cap: LineCap,
    line_join: LineJoin,
    ncap: usize,
) -> int {
    (path.count + path.nbevel * join_allowance(line_join, ncap) + 1) * 2 + if path.closed {
        0
    } else {
        cap_allowance(line_cap, ncap)
    }
}

/// Vertices set aside for the first `n` sub-paths.
pub open spec fn stroke_reserve(
    paths: Seq<PathBuilder>,
    n: int,
    line_cap: LineCap,
    line_join: LineJoin,
    ncap: usize,
) -> int
    decreases n,
{
    if n <= 0 {
        0
    } else {
        stroke_reserve(paths, n - 1, line_cap, line_join, ncap) + path_reserve(
            paths[n - 1],
            line_cap,
            line_join,
            ncap,
        )
    }
}

/// The sub-path record once its mesh lies at `first` in the vertex buffer
/// and holds `count` vertices.
pub open spec fn stroked_path(path: PathBuilder, first: int, count: int) -> PathBuilder {
    PathBuilder {
        stroke: Some(PathVertexRef { first: first as usize, count: count as usize }),
        ..path
    }
}

/// A product of two numbers that are not negative is not negative, and is
/// at least the second where the first is at least one.
pub proof fn lemma_product_bounds(a: int, b: int)
    requires
        a >= 0,
        b >= 0,
    ensures
        a * b >= 0,
        a >= 1 ==> a * b >= b,
        (a + 1) * b == a * b + b,
{
    assert(a * b >= 0 && (a >= 1 ==> a * b >= b) && (a + 1) * b == a * b + b)
        by (nonlinear_arith)
        requires
            a >= 0,
            b >= 0,
    ;
}

/// A product grows with its first factor.
pub proof fn lemma_product_grows(a: int, b: int, k: int)
    requires
        0 <= a <= b,
        k >= 0,
    ensures
        a * k <= b * k,
{
    assert(a * k <= b * k) by (nonlinear_arith)
        requires
            0 <= a <= b,
            k >= 0,
    ;
}

/// A join takes one vertex pair where it needs no more, and no more than
/// its allowance where it does.
pub proof fn lemma_join_len(
    prev: usize,
    point: usize,
    flags: u32,
    line_join: LineJoin,
    arc: usize,
    ncap: usize,
    anti_alias: bool,
)
    requires
        ncap >= 2,
    ensures
        join_verts(prev, point, flags, line_join, arc, ncap, anti_alias).len() >= 2,
        !needs_join(flags) ==> join_verts(
            prev,
            point,
            flags,
            line_join,
            arc,
            ncap,
            anti_alias,
        ).len() == 2,
        needs_join(flags) ==> join_verts(prev, point, flags, line_join, arc, ncap, anti_alias).len()
            <= 2 * join_allowance(line_join, ncap),
{
}

/// The joins of a range of points take a pair for every point and, beyond
/// that, no more than the allowance for every join that needs it.
pub proof fn lemma_ring_len<S>(
    points: Seq<Point<S>>,
    measures: Seq<JoinMeasure<S>>,
    first: int,
    count: int,
    lo: int,
    hi: int,
    line_join: LineJoin,
    ncap: usize,
    anti_alias: bool,
)
    requires
        ncap >= 2,
        lo <= hi,
    ensures
        ring_verts(points, measures, first, count, lo, hi, line_join, ncap, anti_alias).len() >= 2
            * (hi - lo),
        ring_verts(points, measures, first, count, lo, hi, line_join, ncap, anti_alias).len() <= 2
            * (hi - lo) + 2 * (count_joins(points, first + lo, hi - lo) * join_allowance(
            line_join,
            ncap,
        )),
    decreases hi - lo,
{
    let k = join_allowance(line_join, ncap);
    if hi > lo {
        lemma_ring_len(points, measures, first, count, lo, hi - 1, line_join, ncap, anti_alias);
        lemma_join_len(
            ring_prev(first, count, hi - 1) as usize,
            (first + hi - 1) as usize,
            points[first + hi - 1].flags,
            line_join,
            measures[first + hi - 1].arc,
            ncap,
            anti_alias,
        );
        let before = count_joins(points, first + lo, hi - 1 - lo);
        lemma_count_joins_bounds(points, first + lo, hi - 1 - lo);
        lemma_product_bounds(before, k);
        assert(first + lo + (hi - lo) - 1 == first + hi - 1);
    } else {
        assert(count_joins(points, first + lo, hi - lo) == 0);
        assert(0 * k == 0);
    }
}

/// Leaving out the first point of a range leaves no more joins to count.
pub proof fn lemma_count_joins_tail<S>(points: Seq<Point<S>>, first: int, count: int)
    requires
        count >= 1,
    ensures
        count_joins(points, first + 1, count - 1) <= count_joins(points, first, count),
    decreases count,
{
    if count > 1 {
        lemma_count_joins_tail(points, first, count - 1);
        assert(first + 1 + (count - 1) - 1 == first + count - 1);
    } else {
        lemma_count_joins_bounds(points, first, count);
    }
}

/// No sub-path takes more vertices than are set aside for it, as long as it
/// counts in `nbevel` every point whose join needs more than one pair.
pub proof fn lemma_path_len<S>(
    points: Seq<Point<S>>,
    measures: Seq<JoinMeasure<S>>,
    path: PathBuilder,
    line_cap: LineCap,
    line_join: LineJoin,
    ncap: usize,
    anti_alias: bool,
)
    requires
        ncap >= 2,
        path.count >= 2 ==> path.nbevel >= count_joins(
            points,
            path.first as int,
            path.count as int,
        ),
    ensures
        path_verts(points, measures, path, line_cap, line_join, ncap, anti_alias).len()
            <= path_reserve(path, line_cap, line_join, ncap),
        0 <= path_reserve(path, line_cap, line_join, ncap),
{
    let first = path.first as int;
    let count = path.count as int;
    let k = join_allowance(line_join, ncap);
    lemma_product_bounds(path.nbevel as int, k);
    if count >= 2 {
        if path.closed {
            lemma_ring_len(points, measures, first, count, 0, count, line_join, ncap, anti_alias);
            lemma_count_joins_bounds(points, first, count);
            lemma_product_grows(count_joins(points, first, count), path.nbevel as int, k);
        } else {
            lemma_ring_len(
                points,
                measures,
                first,
                count,
                1,
                count - 1,
                line_join,
                ncap,
                anti_alias,
            );
            lemma_count_joins_tail(points, first, count);
            lemma_count_joins_bounds(points, first + 1, count - 2);
            assert(count_joins(points, first + 1, count - 2) <= count_joins(
                points,
                first + 1,
                count - 1,
            ));
            lemma_product_grows(count_joins(points, first + 1, count - 2), path.nbevel as int, k);
        }
    }
}

/// What is set aside for a number of sub-paths is not negative, and not
/// less than what is set aside for fewer of them.
pub proof fn lemma_stroke_reserve_grows(
    paths: Seq<PathBuilder>,
    m: int,
    n: int,
    line_cap: LineCap,
    line_join: LineJoin,
    ncap: usize,
)
    requires
        0 <= m <= n,
    ensures
        0 <= stroke_reserve(paths, m, line_cap, line_join, ncap) <= stroke_reserve(
            paths,
            n,
            line_cap,
            line_join,
            ncap,
        ),
    decreases n,
{
    if n > 0 {
        lemma_product_bounds(
            paths[n - 1].nbevel as int,
            join_allowance(line_join, ncap),
        );
        if m < n {
            lemma_stroke_reserve_grows(paths, m, n - 1, line_cap, line_join, ncap);
        } else {
            lemma_stroke_reserve_grows(paths, m - 1, n - 1, line_cap, line_join, ncap);
        }
    }
}

/// The mesh, and what is set aside for it, depend on where each sub-path
/// lies, whether it is closed and what it counts, and on nothing else in its
/// record.
pub proof fn lemma_same_geometry<S>(
    points: Seq<Point<S>>,
    measures: Seq<JoinMeasure<S>>,
    a: Seq<PathBuilder>,
    b: Seq<PathBuilder>,
    n: int,
    line_cap: LineCap,
    line_join: LineJoin,
    ncap: usize,
    anti_alias: bool,
)
    requires
        forall|i: int|
            0 <= i < n ==> (#[trigger] a[i]).first == b[i].first && a[i].count == b[i].count
                && a[i].closed == b[i].closed && a[i].nbevel == b[i].nbevel,
    ensures
        stroke_verts(points, measures, a, n, line_cap, line_join, ncap, anti_alias) == stroke_verts(
            points,
            measures,
            b,
            n,
            line_cap,
            line_join,
            ncap,
            anti_alias,
        ),
        stroke_reserve(a, n, line_cap, line_join, ncap) == stroke_reserve(
            b,
            n,
            line_cap,
            line_join,
            ncap,
        ),
    decreases n,
{
    if n > 0 {
        lemma_same_geometry(points, measures, a, b, n - 1, line_cap, line_join, ncap, anti_alias);
        assert(a[n - 1].first == b[n - 1].first);
    }
}

/// The whole mesh takes no more vertices than are set aside for it.
pub proof fn lemma_stroke_len<S>(
    points: Seq<Point<S>>,
    measures: Seq<JoinMeasure<S>>,
    paths: Seq<PathBuilder>,
    n: int,
    line_cap: LineCap,
    line_join: LineJoin,
    ncap: usize,
    anti_alias: bool,
)
    requires
        ncap >= 2,
        forall|i: int|
            0 <= i < n ==> (#[trigger] paths[i]).count >= 2 ==> paths[i].nbevel >= count_joins(
                points,
                paths[i].first as int,
                paths[i].count as int,
            ),
    ensures
        stroke_verts(points, measures, paths, n, line_cap, line_join, ncap, anti_alias).len()
            <= stroke_reserve(paths, n, line_cap, line_join, ncap),
    decreases n,
{
    if n > 0 {
        lemma_stroke_len(points, measures, paths, n - 1, line_cap, line_join, ncap, anti_alias);
        assert(paths[n - 1].count >= 2 ==> paths[n - 1].nbevel >= count_joins(
            points,
            paths[n - 1].first as int,
            paths[n - 1].count as int,
        ));
        lemma_path_len(points, measures, paths[n - 1], line_cap, line_join, ncap, anti_alias);
    }
}

/// Vertices to set aside for one sub-path, where that number can be held.
pub fn path_vertex_reserve(
    path: &PathBuilder,
    line_cap: LineCap,
    line_join: LineJoin,
    ncap: usize,
) -> (reserve: Option<usize>)
    ensures
        reserve == (if path_reserve(*path, line_cap, line_join, ncap) <= usize::MAX {
            Some(path_reserve(*path, line_cap, line_join, ncap) as usize)
        } else {
            None
        }),
{
    proof {
        lemma_product_bounds(path.nbevel as int, join_allowance(line_join, ncap));
    }
    let mut joins: usize = 0;
    if path.nbevel > 0 {
        let allowance: usize = if line_join == LineJoin::Round {
            match ncap.checked_add(2) {
                Some(k) => k,
                None => {
                    return None;
                },
            }
        } else {
            5
        };
        match path.nbevel.checked_mul(allowance) {
            Some(product) => {
                joins = product;
            },
            None => {
                return None;
            },
        }
    } else {
        assert(path.nbevel * join_allowance(line_join, ncap) == 0) by (nonlinear_arith)
            requires
                path.nbevel == 0,
        ;
    }
    let pairs: usize = match path.count.checked_add(joins) {
        Some(sum) => match sum.checked_add(1) {
            Some(more) => more,
            None => {
                return None;
            },
        },
        None => {
            return None;
        },
    };
    let ring: usize = match pairs.checked_mul(2) {
        Some(doubled) => doubled,
        None => {
            return None;
        },
    };
    if path.closed {
        return Some(ring);
    }
    let caps: usize = if line_cap == LineCap::Round {
        let fan: usize = match ncap.checked_mul(2) {
            Some(doubled) => match doubled.checked_add(2) {
                Some(more) => more,
                None => {
                    return None;
                },
            },
            None => {
                return None;
            },
        };
        match fan.checked_mul(2) {
            Some(doubled) => doubled,
            None => {
                return None;
            },
        }
    } else {
        12
    };
    ring.checked_add(caps)
}

/// Appends the joins at points `lo` up to `hi` of a sub-path.
fn expand_ring<S: Copy>(
    verts: &mut Vec<Vertex>,
    points: &Vec<Point<S>>,
    measures: &Vec<JoinMeasure<S>>,
    path: &PathBuilder,
    lo: usize,
    hi: usize,
    line_join: LineJoin,
    ncap: usize,
    anti_alias: bool,
)
    requires
        path.first + path.count <= points@.len(),
        measures@.len() == points@.len(),
        lo <= hi <= path.count,
    ensures
        final(verts)@ == old(verts)@ + ring_verts(
            points@,
            measures@,
            path.first as int,
            path.count as int,
            lo as int,
            hi as int,
            line_join,
            ncap,
            anti_alias,
        ),
{
    let npoints: usize = points.len();
    let mut j: usize = lo;
    while j < hi
        invariant
            lo <= j <= hi,
            hi <= path.count,
            path.first + path.count <= points@.len(),
            npoints == points@.len(),
            measures@.len() == points@.len(),
            verts@ == old(verts)@ + ring_verts(
                points@,
                measures@,
                path.first as int,
                path.count as int,
                lo as int,
                j as int,
                line_join,
                ncap,
                anti_alias,
            ),
        decreases hi - j,
    {
        let prev: usize = if j == 0 {
            path.first + path.count - 1
        } else {
            path.first + j - 1
        };
        let index: usize = path.first + j;
        stroke_join(
            verts,
            prev,
            index,
            points[index].flags,
            line_join,
            measures[index].arc,
            ncap,
            anti_alias,
        );
        j = j + 1;
        assert(verts@ =~= old(verts)@ + ring_verts(
            points@,
            measures@,
            path.first as int,
            path.count as int,
            lo as int,
            j as int,
            line_join,
            ncap,
            anti_alias,
        ));
    }
}

/// Appending in turn is appending at once.
pub proof fn lemma_append_twice<A>(a: Seq<A>, b: Seq<A>, c: Seq<A>)
    ensures
        (a + b) + c == a + (b + c),
{
    assert((a + b) + c =~= a + (b + c));
}

/// Appends the cap at the start of an open sub-path.
fn start_cap(
    verts: &mut Vec<Vertex>,
    point: usize,
    line_cap: LineCap,
    ncap: usize,
    anti_alias: bool,
)
    ensures
        final(verts)@ == old(verts)@ + start_cap_verts(point, line_cap, ncap, anti_alias),
{
    match line_cap {
        LineCap::Butt => butt_cap_start(verts, point, false, anti_alias),
        LineCap::Square => butt_cap_start(verts, point, true, anti_alias),
        LineCap::Round => round_cap_start(verts, point, ncap, anti_alias),
    }
}

/// Appends the cap at the end of an open sub-path.
fn end_cap(
    verts: &mut Vec<Vertex>,
    prev: usize,
    point: usize,
    line_cap: LineCap,
    ncap: usize,
    anti_alias: bool,
)
    ensures
        final(verts)@ == old(verts)@ + end_cap_verts(prev, point, line_cap, ncap, anti_alias),
{
    match line_cap {
        LineCap::Butt => butt_cap_end(verts, prev, point, false, anti_alias),
        LineCap::Square => butt_cap_end(verts, prev, point, true, anti_alias),
        LineCap::Round => round_cap_end(verts, prev, point, ncap, anti_alias),
    }
}

/// Appends the two vertices that close a ring which starts at `first_vert`.
fn close_ring(verts: &mut Vec<Vertex>, first_vert: usize, anti_alias: bool)
    requires
        first_vert + 2 <= old(verts)@.len(),
    ensures
        final(verts)@ == old(verts)@ + loop_verts(
            old(verts)@.subrange(first_vert as int, old(verts)@.len() as int),
            anti_alias,
        ),
{
    // Reading a length tells the verifier that it fits a `usize`.
    let _ = verts.len();
    let (lu, ru) = fades(anti_alias);
    let a = verts[first_vert];
    let b = verts[first_vert + 1];
    verts.push(Vertex { u: lu, core: true, ..a });
    verts.push(Vertex { u: ru, core: true, ..b });
    assert(verts@ =~= old(verts)@ + loop_verts(
        old(verts)@.subrange(first_vert as int, old(verts)@.len() as int),
        anti_alias,
    ));
}

/// Appends the mesh of one sub-path.
fn expand_path<S: Copy>(
    verts: &mut Vec<Vertex>,
    points: &Vec<Point<S>>,
    measures: &Vec<JoinMeasure<S>>,
    path: &PathBuilder,
    line_cap: LineCap,
    line_join: LineJoin,
    ncap: usize,
    anti_alias: bool,
)
    requires
        path.first + path.count <= points@.len(),
        measures@.len() == points@.len(),
        ncap >= 2,
    ensures
        final(verts)@ == old(verts)@ + path_verts(
            points@,
            measures@,
            *path,
            line_cap,
            line_join,
            ncap,
            anti_alias,
        ),
{
    // Reading a length tells the verifier that it fits a `usize`.
    let _ = points.len();
    if path.count < 2 {
        assert(verts@ =~= old(verts)@ + Seq::<Vertex>::empty());
        return ;
    }
    if path.closed {
        let first_vert: usize = verts.len();
        expand_ring(verts, points, measures, path, 0, path.count, line_join, ncap, anti_alias);
        let ghost ring = ring_verts(
            points@,
            measures@,
            path.first as int,
            path.count as int,
            0,
            path.count as int,
            line_join,
            ncap,
            anti_alias,
        );
        proof {
            lemma_ring_len(
                points@,
                measures@,
                path.first as int,
                path.count as int,
                0,
                path.count as int,
                line_join,
                ncap,
                anti_alias,
            );
            assert(verts@.subrange(first_vert as int, verts@.len() as int) =~= ring);
        }
        close_ring(verts, first_vert, anti_alias);
        proof {
            lemma_append_twice(old(verts)@, ring, loop_verts(ring, anti_alias));
        }
    } else {
        let ghost start = start_cap_verts(path.first, line_cap, ncap, anti_alias);
        let ghost ring = ring_verts(
            points@,
            measures@,
            path.first as int,
            path.count as int,
            1,
            path.count - 1,
            line_join,
            ncap,
            anti_alias,
        );
        let ghost end = end_cap_verts(
            (path.first + path.count - 2) as usize,
            (path.first + path.count - 1) as usize,
            line_cap,
            ncap,
            anti_alias,
        );
        start_cap(verts, path.first, line_cap, ncap, anti_alias);
        expand_ring(verts, points, measures, path, 1, path.count - 1, line_join, ncap, anti_alias);
        let prev: usize = path.first + path.count - 2;
        let last: usize = path.first + path.count - 1;
        end_cap(verts, prev, last, line_cap, ncap, anti_alias);
        proof {
            lemma_append_twice(old(verts)@, start, ring);
            lemma_append_twice(old(verts)@, start + ring, end);
        }
    }
}

impl<S: Copy> PathCache<S> {
    /// Vertices to set aside for the mesh of all sub-paths, where that
    /// number can be held.
    pub fn vertex_reserve(&self, line_cap: LineCap, line_join: LineJoin, ncap: usize) -> (reserve:
        Option<usize>)
        ensures
            reserve == (if stroke_reserve(
                self.paths@,
                self.paths@.len() as int,
                line_cap,
                line_join,
                ncap,
            ) <= usize::MAX {
                Some(
                    stroke_reserve(
                        self.paths@,
                        self.paths@.len() as int,
                        line_cap,
                        line_join,
                        ncap,
                    ) as usize,
                )
            } else {
                None
            }),
    {
        let npaths: usize = self.paths.len();
        let mut total: usize = 0;
        let mut i: usize = 0;
        while i < npaths
            invariant
                0 <= i <= npaths,
                npaths == self.paths@.len(),
                total == stroke_reserve(self.paths@, i as int, line_cap, line_join, ncap),
            decreases npaths - i,
        {
            proof {
                lemma_stroke_reserve_grows(
                    self.paths@,
                    i as int,
                    i + 1,
                    line_cap,
                    line_join,
                    ncap,
                );
                lemma_stroke_reserve_grows(
                    self.paths@,
                    i + 1,
                    npaths as int,
                    line_cap,
                    line_join,
                    ncap,
                );
            }
            let next = match path_vertex_reserve(&self.paths[i], line_cap, line_join, ncap) {
                Some(part) => total.checked_add(part),
                None => None,
            };
            match next {
                Some(sum) => {
                    total = sum;
                },
                None => {
                    return None;
                },
            }
            i = i + 1;
        }
        Some(total)
    }

    /// The cache holds what `before` holds.
    pub open spec fn unchanged_from(&self, before: &Self) -> bool {
        &&& self.points@ == before.points@
        &&& self.paths@ == before.paths@
        &&& self.verts@ == before.verts@
        &&& self.zero == before.zero
    }

    /// The cache holds the stroke of what `before` holds: every point is
    /// classified, every sub-path counts its joins and records where its
    /// mesh lies, the vertex buffer holds the mesh of each sub-path in turn,
    /// and no mesh takes more vertices than are set aside for it.
    pub open spec fn stroked_from(
        &self,
        before: &Self,
        line_cap: LineCap,
        line_join: LineJoin,
        ncap: usize,
        anti_alias: bool,
        measures: Seq<JoinMeasure<S>>,
    ) -> bool {
        let divs = curve_divs_spec(ncap);
        &&& self.zero == before.zero
        &&& self.points@.len() == before.points@.len()
        &&& self.paths@.len() == before.paths@.len()
        &&& forall|k: int|
            0 <= k < before.points@.len() ==> #[trigger] self.points@[k] == joined_point(
                before.paths@,
                before.points@,
                measures,
                line_join,
                k,
            )
        &&& forall|i: int|
            0 <= i < before.paths@.len() ==> #[trigger] self.paths@[i] == stroked_path(
                joined_path(before.paths@[i], self.points@, measures),
                stroke_verts(
                    self.points@,
                    measures,
                    self.paths@,
                    i,
                    line_cap,
                    line_join,
                    divs,
                    anti_alias,
                ).len() as int,
                path_verts(
                    self.points@,
                    measures,
                    self.paths@[i],
                    line_cap,
                    line_join,
                    divs,
                    anti_alias,
                ).len() as int,
            )
        &&& self.verts@ == stroke_verts(
            self.points@,
            measures,
            self.paths@,
            self.paths@.len() as int,
            line_cap,
            line_join,
            divs,
            anti_alias,
        )
        &&& forall|i: int|
            0 <= i < self.paths@.len() ==> path_verts(
                self.points@,
                measures,
                #[trigger] self.paths@[i],
                line_cap,
                line_join,
                divs,
                anti_alias,
            ).len() <= path_reserve(self.paths@[i], line_cap, line_join, divs)
        &&& self.verts@.len() <= stroke_reserve(
            self.paths@,
            self.paths@.len() as int,
            line_cap,
            line_join,
            divs,
        )
    }

    /// Builds the stroke mesh of every sub-path, from one measure per stored
    /// point. Returns `false`, and changes nothing, where the measures are
    /// not one per point.
    ///
    /// The points are classified first, with `calculate_joins`. The vertex
    /// buffer is then emptied and filled with the mesh of each sub-path in
    /// turn, and each sub-path records where its own mesh lies. The
    /// divisions of a half circle are `ncap`, or two where `ncap` is less.
    /// No sub-path takes more vertices than `path_reserve` sets aside for
    /// it, so the whole mesh takes no more than `stroke_reserve`. By
    /// `lemma_stroke_is_sound` every vertex names points of its own
    /// sub-path.
    pub fn expand_stroke(
        &mut self,
        line_cap: LineCap,
        line_join: LineJoin,
        ncap: usize,
        anti_alias: bool,
        measures: &Vec<JoinMeasure<S>>,
    ) -> (ok: bool)
        requires
            old(self).wf(),
        ensures
            ok == (measures@.len() == old(self).points@.len()),
            final(self).wf(),
            !ok ==> final(self).unchanged_from(old(self)),
            ok ==> final(self).stroked_from(
                old(self),
                line_cap,
                line_join,
                ncap,
                anti_alias,
                measures@,
            ),
    {
        let ncap: usize = curve_divs(ncap);
        if !self.calculate_joins(line_join, measures) {
            return false;
        }
        self.verts.clear();
        match self.vertex_reserve(line_cap, line_join, ncap) {
            Some(reserve) => {
                // Room for the whole mesh, so that it is built without
                // moving the buffer. Without room the buffer grows as it
                // goes.
                let _ = self.verts.try_reserve(reserve);
            },
            None => {},
        }
        let ghost joined = self.paths@;
        let ghost points = self.points@;
        let npoints: usize = self.points.len();
        let npaths: usize = self.paths.len();
        let mut i: usize = 0;
        while i < npaths
            invariant
                0 <= i <= npaths,
                ncap >= 2,
                npaths == joined.len(),
                npaths == self.paths@.len(),
                self.points@ == points,
                self.zero == old(self).zero,
                npoints == points.len(),
                measures@.len() == points.len(),
                paths_fit(joined, points.len() as int),
                forall|j: int| i <= j < npaths ==> #[trigger] self.paths@[j] == joined[j],
                forall|j: int|
                    0 <= j < i ==> #[trigger] self.paths@[j] == stroked_path(
                        joined[j],
                        stroke_verts(
                            points,
                            measures@,
                            joined,
                            j,
                            line_cap,
                            line_join,
                            ncap,
                            anti_alias,
                        ).len() as int,
                        path_verts(
                            points,
                            measures@,
                            joined[j],
                            line_cap,
                            line_join,
                            ncap,
                            anti_alias,
                        ).len() as int,
                    ),
                forall|j: int|
                    0 <= j < i ==> match (#[trigger] self.paths@[j]).stroke {
                        Some(r) => r.first + r.count <= self.verts@.len(),
                        None => true,
                    },
                self.verts@ == stroke_verts(
                    points,
                    measures@,
                    joined,
                    i as int,
                    line_cap,
                    line_join,
                    ncap,
                    anti_alias,
                ),
            decreases npaths - i,
        {
            let path = self.paths[i];
            let first_vert: usize = self.verts.len();
            assert(path == joined[i as int]);
            assert(path.first + path.count <= points.len());
            expand_path(
                &mut self.verts,
                &self.points,
                measures,
                &path,
                line_cap,
                line_join,
                ncap,
                anti_alias,
            );
            let count: usize = self.verts.len() - first_vert;
            self.paths[i] = PathBuilder {
                stroke: Some(PathVertexRef { first: first_vert, count }),
                ..path
            };
            i = i + 1;
        }
        proof {
            let done = self.paths@;
            assert forall|j: int| 0 <= j < npaths implies (#[trigger] joined[j]).first
                == done[j].first && joined[j].count == done[j].count && joined[j].closed
                == done[j].closed && joined[j].nbevel == done[j].nbevel by {}
            assert forall|j: int| 0 <= j < npaths implies #[trigger] done[j] == stroked_path(
                joined_path(old(self).paths@[j], points, measures@),
                stroke_verts(
                    points,
                    measures@,
                    done,
                    j,
                    line_cap,
                    line_join,
                    ncap,
                    anti_alias,
                ).len() as int,
                path_verts(
                    points,
                    measures@,
                    done[j],
                    line_cap,
                    line_join,
                    ncap,
                    anti_alias,
                ).len() as int,
            ) by {
                lemma_same_geometry(
                    points,
                    measures@,
                    joined,
                    done,
                    j,
                    line_cap,
                    line_join,
                    ncap,
                    anti_alias,
                );
            }
            lemma_same_geometry(
                points,
                measures@,
                joined,
                done,
                npaths as int,
                line_cap,
                line_join,
                ncap,
                anti_alias,
            );
            assert forall|j: int| 0 <= j < npaths && (#[trigger] done[j]).count >= 2 implies done[j].nbevel
                >= count_joins(points, done[j].first as int, done[j].count as int) by {
                lemma_count_joins_bounds(
                    points,
                    old(self).paths@[j].first as int,
                    old(self).paths@[j].count as int,
                );
            }
            lemma_stroke_len(
                points,
                measures@,
                done,
                npaths as int,
                line_cap,
                line_join,
                ncap,
                anti_alias,
            );
            assert forall|j: int| 0 <= j < npaths implies path_verts(
                points,
                measures@,
                #[trigger] done[j],
                line_cap,
                line_join,
                ncap,
                anti_alias,
            ).len() <= path_reserve(done[j], line_cap, line_join, ncap) by {
                lemma_path_len(
                    points,
                    measures@,
                    done[j],
                    line_cap,
                    line_join,
                    ncap,
                    anti_alias,
                );
            }
        }
        true
    }
}

} // verus!
