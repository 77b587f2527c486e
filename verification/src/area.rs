//! The signed area of a polygon on exact coordinates, and why storing the
//! points of a sub-path in the opposite order gives it the opposite sign.
//!
//! The crate never measures an area: the sign reaches it as an `AreaSign`.
//! This module says what that sign is meant to be, and proves that the
//! closing pass then leaves every sub-path with the winding asked for.

use vstd::prelude::*;
use crate::cache::{PathBuilder, Point};
use crate::flatten::{
    finished_count, finished_source, reverses, winding_disagrees, AreaSign, PathShape,
};
use crate::style::Winding;

verus! {

/// The cross product of two vectors.
pub open spec fn cross(a: (int, int), b: (int, int)) -> int {
    a.0 * b.1 - a.1 * b.0
}

/// Twice the signed area of the triangle `a`, `b`, `c`.
pub open spec fn triangle_area2(a: (int, int), b: (int, int), c: (int, int)) -> int {
    (c.0 - a.0) * (b.1 - a.1) - (b.0 - a.0) * (c.1 - a.1)
}

/// Twice the signed area of the fan of triangles that the first `n` points
/// of a polygon make with its first point.
pub open spec fn fan_area2(points: Seq<(int, int)>, n: int) -> int
    decreases n,
{
    if n <= 2 {
        0
    } else {
        fan_area2(points, n - 1) + triangle_area2(points[0], points[n - 2], points[n - 1])
    }
}

/// Twice the signed area of a polygon.
pub open spec fn polygon_area2(points: Seq<(int, int)>) -> int {
    fan_area2(points, points.len() as int)
}

/// The sign of an area.
pub open spec fn area_sign(area: int) -> AreaSign {
    if area < 0 {
        AreaSign::Negative
    } else if area > 0 {
        AreaSign::Positive
    } else {
        AreaSign::Zero
    }
}

/// The sum of the cross products along the edges from point `lo` to point
/// `hi`.
pub open spec fn chain(points: Seq<(int, int)>, lo: int, hi: int) -> int
    decreases hi - lo,
{
    if hi <= lo {
        0
    } else {
        chain(points, lo, hi - 1) + cross(points[hi - 1], points[hi])
    }
}

/// The area of a triangle is the sum of the cross products along its three
/// edges, negated; and a cross product changes sign with the order of its
/// vectors.
pub proof fn lemma_triangle_is_cross_sum(a: (int, int), b: (int, int), c: (int, int))
    ensures
        triangle_area2(a, b, c) == -(cross(a, b) + cross(b, c) + cross(c, a)),
        cross(a, b) == -cross(b, a),
{
    let (ax, ay, bx, by, cx, cy) = (a.0, a.1, b.0, b.1, c.0, c.1);
    assert((cx - ax) * (by - ay) - (bx - ax) * (cy - ay) == -((ax * by - ay * bx) + (bx * cy - by
        * cx) + (cx * ay - cy * ax))) by (nonlinear_arith);
    assert(ax * by - ay * bx == -(bx * ay - by * ax)) by (nonlinear_arith);
}

/// The first edge can be taken off a chain as well as the last.
pub proof fn lemma_chain_front(points: Seq<(int, int)>, lo: int, hi: int)
    requires
        lo < hi,
    ensures
        chain(points, lo, hi) == cross(points[lo], points[lo + 1]) + chain(points, lo + 1, hi),
    decreases hi - lo,
{
    if hi > lo + 1 {
        lemma_chain_front(points, lo, hi - 1);
    } else {
        assert(chain(points, lo, hi - 1) == 0);
        assert(chain(points, lo + 1, hi) == 0);
    }
}

/// The fan over the first `n` points is the chain along them, closed by the
/// edge back to the first point, negated.
pub proof fn lemma_fan_is_chain(points: Seq<(int, int)>, n: int)
    requires
        2 <= n,
    ensures
        fan_area2(points, n) == -(chain(points, 0, n - 1) + cross(points[n - 1], points[0])),
    decreases n,
{
    if n == 2 {
        assert(chain(points, 0, 0) == 0);
        assert(chain(points, 0, 1) == cross(points[0], points[1]));
        lemma_triangle_is_cross_sum(points[0], points[1], points[1]);
    } else {
        lemma_fan_is_chain(points, n - 1);
        lemma_triangle_is_cross_sum(points[0], points[n - 2], points[n - 1]);
        lemma_triangle_is_cross_sum(points[n - 2], points[0], points[0]);
    }
}

/// A chain along the first edges of the reversed points is the chain along
/// the last edges of the points, negated.
pub proof fn lemma_chain_reversed(points: Seq<(int, int)>, k: int)
    requires
        0 <= k < points.len(),
    ensures
        chain(points.reverse(), 0, k) == -chain(points, points.len() - 1 - k, points.len() - 1),
    decreases k,
{
    let n = points.len() as int;
    let r = points.reverse();
    if k > 0 {
        lemma_chain_reversed(points, k - 1);
        lemma_chain_front(points, n - 1 - k, n - 1);
        assert(r[k - 1] == points[n - k]);
        assert(r[k] == points[n - 1 - k]);
        lemma_triangle_is_cross_sum(points[n - k], points[n - 1 - k], points[n - 1 - k]);
    }
}

/// Reversing the points of a polygon negates its area.
pub proof fn lemma_reverse_negates_area(points: Seq<(int, int)>)
    ensures
        polygon_area2(points.reverse()) == -polygon_area2(points),
{
    let n = points.len() as int;
    let r = points.reverse();
    if n >= 2 {
        assert(r.len() == n);
        lemma_fan_is_chain(points, n);
        lemma_fan_is_chain(r, n);
        lemma_chain_reversed(points, n - 1);
        assert(r[n - 1] == points[0]);
        assert(r[0] == points[n - 1]);
        lemma_triangle_is_cross_sum(points[0], points[n - 1], points[n - 1]);
    } else {
        assert(r.len() == n);
    }
}

/// The points of a polygon in the order that gives them the winding asked
/// for: reversed where the sign of their area disagrees with it.
pub open spec fn oriented(points: Seq<(int, int)>, winding: Winding) -> Seq<(int, int)> {
    if winding_disagrees(winding, area_sign(polygon_area2(points))) {
        points.reverse()
    } else {
        points
    }
}

/// Winding enforcement: once oriented, the area of a polygon never has the
/// sign that disagrees with the winding asked for.
pub proof fn lemma_oriented_agrees(points: Seq<(int, int)>, winding: Winding)
    ensures
        !winding_disagrees(winding, area_sign(polygon_area2(oriented(points, winding)))),
{
    lemma_reverse_negates_area(points);
}

/// Winding enforcement, for the closing pass: take a sub-path that keeps at
/// least three points, whose points after the pass stand where
/// `finish_paths` puts them, and whose shape holds the sign of the area of
/// the points that it keeps, read through `at`. Then the area of its points
/// after the pass does not disagree with the winding asked for.
pub proof fn lemma_finish_orients<S>(
    before: Seq<Point<S>>,
    after: Seq<Point<S>>,
    path: PathBuilder,
    shape: PathShape,
    at: spec_fn(Point<S>) -> (int, int),
)
    requires
        path.first + path.count <= before.len(),
        before.len() == after.len(),
        finished_count(path, shape) >= 3,
        forall|k: int|
            path.first <= k < path.first + finished_count(path, shape) ==> #[trigger] after[k]
                == before[finished_source(
                path.first as int,
                finished_count(path, shape),
                reverses(path, shape),
                k,
            )],
        shape.area == area_sign(
            polygon_area2(
                before.subrange(
                    path.first as int,
                    path.first + finished_count(path, shape),
                ).map_values(at),
            ),
        ),
    ensures
        !winding_disagrees(
            path.winding,
            area_sign(
                polygon_area2(
                    after.subrange(
                        path.first as int,
                        path.first + finished_count(path, shape),
                    ).map_values(at),
                ),
            ),
        ),
{
    let first = path.first as int;
    let kept = finished_count(path, shape);
    let was = before.subrange(first, first + kept).map_values(at);
    let is = after.subrange(first, first + kept).map_values(at);
    if reverses(path, shape) {
        assert(is =~= was.reverse());
        lemma_reverse_negates_area(was);
    } else {
        assert(is =~= was);
    }
}

} // verus!
