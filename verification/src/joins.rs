//! The join classifier: from what was measured at each vertex to its join
//! flags, and from those to the bevel count and convexity of each sub-path.

use vstd::prelude::*;
use crate::cache::{
    PathBuilder, PathCache, Point, POINT_BEVEL, POINT_CORNER, POINT_INNER_BEVEL, POINT_LEFT,
};
use crate::style::LineJoin;

verus! {

/// What was measured at one vertex, between the edge that arrives and the
/// edge that leaves.
///
/// To measure a join, let `d0` and `d1` be the directions of the two edges,
/// `len0` and `len1` their lengths, and `n0` and `n1` their left normals,
/// the left normal of `(dx, dy)` being `(dy, -dx)`. Let `m` be the mean of
/// `n0` and `n1` and `r` the square of its length.
#[derive(Copy, Clone, Debug)]
pub struct JoinMeasure<S> {
    /// The miter: `m` divided by `r`, so that it reaches the corner of a
    /// stroke of half width one, but stretched by no more than 600, and
    /// left as it is where `r` is no more than a millionth.
    pub dmx: S,
    pub dmy: S,
    /// The path turns left: the cross product of `d1` and `d0`, that is
    /// `d1.x * d0.y - d0.x * d1.y`, is positive.
    pub left: bool,
    /// The miter is too long for the shorter of the two edges:
    /// `r * limit * limit < 1`, where `limit` is the shorter length over the
    /// half width of the stroke, but at least 1.01.
    pub inner: bool,
    /// The miter is longer than the miter limit allows:
    /// `r * miter_limit * miter_limit < 1`.
    pub sharp: bool,
    /// The angle swept between the two edge normals on the outer side, in
    /// half turns, times the divisions of a half circle, rounded up.
    pub arc: usize,
}

/// The bit is set in the flags.
pub open spec fn has_flag(flags: u32, bit: u32) -> bool {
    flags & bit != 0
}

/// The join at a point with these flags needs more than one vertex pair.
pub open spec fn needs_join(flags: u32) -> bool {
    flags & (POINT_BEVEL | POINT_INNER_BEVEL) != 0
}

/// The corner bit of `flags`, and nothing else.
pub open spec fn corner_bit(flags: u32) -> u32 {
    flags & POINT_CORNER
}

/// The left-turn bit, where the measure says so.
pub open spec fn left_bit<S>(measure: JoinMeasure<S>) -> u32 {
    if measure.left {
        POINT_LEFT
    } else {
        0
    }
}

/// The inner-bevel bit, where the measure says so.
pub open spec fn inner_bit<S>(measure: JoinMeasure<S>) -> u32 {
    if measure.inner {
        POINT_INNER_BEVEL
    } else {
        0
    }
}

/// The bevel bit: only a corner is bevelled, and only where the miter is too
/// sharp or the join kind is not a miter.
pub open spec fn bevel_bit<S>(flags: u32, measure: JoinMeasure<S>, line_join: LineJoin) -> u32 {
    if corner_bit(flags) != 0 && (measure.sharp || line_join != LineJoin::Miter) {
        POINT_BEVEL
    } else {
        0
    }
}

/// The flags of a point after classification: the corner bit is kept, the
/// other three are decided anew.
pub open spec fn joined_flags<S>(flags: u32, measure: JoinMeasure<S>, line_join: LineJoin) -> u32 {
    corner_bit(flags) | left_bit(measure) | inner_bit(measure) | bevel_bit(
        flags,
        measure,
        line_join,
    )
}

/// Number of points among `count` points from `first` on whose join needs
/// more than one vertex pair.
pub open spec fn count_joins<S>(points: Seq<Point<S>>, first: int, count: int) -> int
    decreases count,
{
    if count <= 0 {
        0
    } else {
        count_joins(points, first, count - 1) + if needs_join(points[first + count - 1].flags) {
            1int
        } else {
            0int
        }
    }
}

/// Every one of `count` measures from `first` on is a left turn.
pub open spec fn all_left<S>(measures: Seq<JoinMeasure<S>>, first: int, count: int) -> bool {
    forall|k: int| first <= k < first + count ==> (#[trigger] measures[k]).left
}

/// The point lies in a sub-path that the classifier works on: one of at
/// least two points.
pub open spec fn classified(paths: Seq<PathBuilder>, index: int) -> bool {
    exists|i: int|
        0 <= i < paths.len() && (#[trigger] paths[i]).count >= 2 && paths[i].first <= index
            < paths[i].first + paths[i].count
}

/// The point at `index` after classification: a point of a classified
/// sub-path takes its new flags, any other point stays as it is.
pub open spec fn joined_point<S>(
    paths: Seq<PathBuilder>,
    points: Seq<Point<S>>,
    measures: Seq<JoinMeasure<S>>,
    line_join: LineJoin,
    index: int,
) -> Point<S> {
    if classified(paths, index) {
        Point {
            dmx: measures[index].dmx,
            dmy: measures[index].dmy,
            flags: joined_flags(points[index].flags, measures[index], line_join),
            ..points[index]
        }
    } else {
        points[index]
    }
}

/// The sub-path record after classification.
pub open spec fn joined_path<S>(
    path: PathBuilder,
    points: Seq<Point<S>>,
    measures: Seq<JoinMeasure<S>>,
) -> PathBuilder {
    if path.count >= 2 {
        PathBuilder {
            nbevel: count_joins(points, path.first as int, path.count as int) as usize,
            convex: all_left(measures, path.first as int, path.count as int),
            ..path
        }
    } else {
        PathBuilder { nbevel: 0, convex: false, ..path }
    }
}

/// The count of joins is between nothing and all.
pub proof fn lemma_count_joins_bounds<S>(points: Seq<Point<S>>, first: int, count: int)
    ensures
        0 <= count_joins(points, first, count),
        count >= 0 ==> count_joins(points, first, count) <= count,
    decreases count,
{
    if count > 0 {
        lemma_count_joins_bounds(points, first, count - 1);
    }
}

/// The count of joins depends only on the points that it ranges over.
pub proof fn lemma_count_joins_same<S>(
    a: Seq<Point<S>>,
    b: Seq<Point<S>>,
    first: int,
    count: int,
)
    requires
        forall|k: int| first <= k < first + count ==> #[trigger] a[k] == b[k],
    ensures
        count_joins(a, first, count) == count_joins(b, first, count),
    decreases count,
{
    if count > 0 {
        lemma_count_joins_same(a, b, first, count - 1);
    }
}

/// Classification reads the measure and the corner bit, and nothing else:
/// each of the four flag bits of the result is decided as stated.
pub proof fn lemma_joined_flags<S>(flags: u32, measure: JoinMeasure<S>, line_join: LineJoin)
    ensures
        has_flag(joined_flags(flags, measure, line_join), POINT_CORNER) == has_flag(
            flags,
            POINT_CORNER,
        ),
        has_flag(joined_flags(flags, measure, line_join), POINT_LEFT) == measure.left,
        has_flag(joined_flags(flags, measure, line_join), POINT_INNER_BEVEL) == measure.inner,
        has_flag(joined_flags(flags, measure, line_join), POINT_BEVEL) == (has_flag(
            flags,
            POINT_CORNER,
        ) && (measure.sharp || line_join != LineJoin::Miter)),
        needs_join(joined_flags(flags, measure, line_join)) == (measure.inner || (has_flag(
            flags,
            POINT_CORNER,
        ) && (measure.sharp || line_join != LineJoin::Miter))),
{
    let c = corner_bit(flags);
    let l = left_bit(measure);
    let i = inner_bit(measure);
    let b = bevel_bit(flags, measure, line_join);
    assert(c == 0 || c == 1) by (bit_vector)
        requires
            c == flags & 1,
    ;
    assert(l == 0 || l == 2);
    assert(i == 0 || i == 8);
    assert(b == 0 || b == 4);
    let all = c | l | i | b;
    assert(POINT_BEVEL | POINT_INNER_BEVEL == 12u32) by (bit_vector);
    assert(((all & 1) != 0) == (c != 0) && ((all & 2) != 0) == (l != 0) && ((all & 8) != 0) == (i
        != 0) && ((all & 4) != 0) == (b != 0) && ((all & 12) != 0) == (b != 0 || i != 0))
        by (bit_vector)
        requires
            all == c | l | i | b,
            c == 0 || c == 1,
            l == 0 || l == 2,
            i == 0 || i == 8,
            b == 0 || b == 4,
    ;
}

/// Classifying a point again, from the same measure, changes nothing.
pub proof fn lemma_joined_flags_again<S>(flags: u32, measure: JoinMeasure<S>, line_join: LineJoin)
    ensures
        joined_flags(joined_flags(flags, measure, line_join), measure, line_join) == joined_flags(
            flags,
            measure,
            line_join,
        ),
{
    let c = corner_bit(flags);
    let l = left_bit(measure);
    let i = inner_bit(measure);
    let b = bevel_bit(flags, measure, line_join);
    let once = joined_flags(flags, measure, line_join);
    assert(once & 1 == c) by (bit_vector)
        requires
            once == c | l | i | b,
            c == flags & 1,
            l == 0 || l == 2,
            i == 0 || i == 8,
            b == 0 || b == 4,
    ;
    assert(corner_bit(once) == c);
    assert(bevel_bit(once, measure, line_join) == b);
}

impl<S: Copy> PathCache<S> {
    /// Classifies every vertex of every sub-path that has at least two
    /// points, from one measure per stored point. Returns `false`, and
    /// changes nothing, where the measures are not one per point.
    ///
    /// A classified point takes its miter from its measure, keeps its corner
    /// bit and takes the other three bits from its measure: the left-turn
    /// bit as measured, the inner-bevel bit where the miter is too long for
    /// the shorter edge, and the bevel bit where the point is a corner and
    /// either the miter exceeds the miter limit or the join kind is not a
    /// miter. A classified sub-path counts the points that carry either
    /// bevel bit, and is convex where every one of its vertices turns left.
    /// A shorter sub-path counts nothing and is not convex.
    pub fn calculate_joins(&mut self, line_join: LineJoin, measures: &Vec<JoinMeasure<S>>) -> (ok:
        bool)
        requires
            old(self).wf(),
        ensures
            ok == (measures@.len() == old(self).points@.len()),
            final(self).wf(),
            final(self).verts@ == old(self).verts@,
            final(self).zero == old(self).zero,
            final(self).points@.len() == old(self).points@.len(),
            final(self).paths@.len() == old(self).paths@.len(),
            !ok ==> final(self).points@ == old(self).points@ && final(self).paths@ == old(
                self,
            ).paths@,
            ok ==> forall|k: int|
                0 <= k < old(self).points@.len() ==> #[trigger] final(self).points@[k]
                    == joined_point(old(self).paths@, old(self).points@, measures@, line_join, k),
            ok ==> forall|i: int|
                0 <= i < old(self).paths@.len() ==> #[trigger] final(self).paths@[i] == joined_path(
                    old(self).paths@[i],
                    final(self).points@,
                    measures@,
                ),
    {
        if measures.len() != self.points.len() {
            return false;
        }
        let npaths: usize = self.paths.len();
        let mut i: usize = 0;
        while i < npaths
            invariant
                0 <= i <= npaths,
                npaths == self.paths@.len(),
                npaths == old(self).paths@.len(),
                old(self).wf(),
                self.wf(),
                self.verts@ == old(self).verts@,
                self.zero == old(self).zero,
                self.points@.len() == old(self).points@.len(),
                measures@.len() == self.points@.len(),
                self.points@.len() <= usize::MAX,
                forall|j: int|
                    0 <= j < npaths ==> (#[trigger] self.paths@[j]).first == old(
                        self,
                    ).paths@[j].first && self.paths@[j].count == old(self).paths@[j].count,
                forall|j: int| i <= j < npaths ==> #[trigger] self.paths@[j] == old(self).paths@[j],
                forall|j: int|
                    0 <= j < i ==> #[trigger] self.paths@[j] == joined_path(
                        old(self).paths@[j],
                        self.points@,
                        measures@,
                    ),
                forall|k: int|
                    0 <= k < self.points@.len() && (i < npaths ==> k < old(self).paths@[i as int].first)
                        ==> #[trigger] self.points@[k] == joined_point(
                        old(self).paths@,
                        old(self).points@,
                        measures@,
                        line_join,
                        k,
                    ),
                forall|k: int|
                    0 <= k < self.points@.len() && i < npaths && k >= old(self).paths@[i as int].first
                        ==> #[trigger] self.points@[k] == old(self).points@[k],
            decreases npaths - i,
        {
            let path = self.paths[i];
            let ghost before = self.points@;
            let ghost paths_before = self.paths@;
            if path.count >= 2 {
                let mut nbevel: usize = 0;
                let mut convex = true;
                let mut k: usize = 0;
                while k < path.count
                    invariant
                        0 <= k <= path.count,
                        path.count >= 2,
                        i < npaths,
                        npaths == old(self).paths@.len(),
                        path == old(self).paths@[i as int],
                        path.first + path.count <= self.points@.len(),
                        measures@.len() == self.points@.len(),
                        self.points@.len() == before.len(),
                        self.points@.len() <= usize::MAX,
                        self.paths@ == paths_before,
                        self.verts@ == old(self).verts@,
                        self.zero == old(self).zero,
                self.zero == old(self).zero,
                        nbevel == count_joins(self.points@, path.first as int, k as int),
                        nbevel <= k,
                        convex == all_left(measures@, path.first as int, k as int),
                        forall|m: int|
                            0 <= m < before.len() && !(path.first <= m < path.first + k)
                                ==> #[trigger] self.points@[m] == before[m],
                        forall|m: int|
                            path.first <= m < path.first + k ==> #[trigger] self.points@[m] == (Point {
                                dmx: measures@[m].dmx,
                                dmy: measures@[m].dmy,
                                flags: joined_flags(before[m].flags, measures@[m], line_join),
                                ..before[m]
                            }),
                    decreases path.count - k,
                {
                    let index: usize = path.first + k;
                    let point = self.points[index];
                    let measure = measures[index];
                    let corner: u32 = point.flags & POINT_CORNER;
                    let left: u32 = if measure.left {
                        POINT_LEFT
                    } else {
                        0
                    };
                    let inner: u32 = if measure.inner {
                        POINT_INNER_BEVEL
                    } else {
                        0
                    };
                    let bevel: u32 = if corner != 0 && (measure.sharp || line_join
                        != LineJoin::Miter) {
                        POINT_BEVEL
                    } else {
                        0
                    };
                    let flags: u32 = corner | left | inner | bevel;
                    let ghost stepped = self.points@;
                    self.points[index] = Point { dmx: measure.dmx, dmy: measure.dmy, flags, ..point };
                    proof {
                        lemma_count_joins_same(stepped, self.points@, path.first as int, k as int);
                    }
                    if (flags & (POINT_BEVEL | POINT_INNER_BEVEL)) != 0 {
                        nbevel = nbevel + 1;
                    }
                    if !measure.left {
                        convex = false;
                    }
                    k = k + 1;
                }
                self.paths[i] = PathBuilder { nbevel, convex, ..path };
            } else {
                self.paths[i] = PathBuilder { nbevel: 0, convex: false, ..path };
            }
            proof {
                let done = self.points@;
                let old_paths = old(self).paths@;
                assert forall|j: int| 0 <= j < i + 1 implies #[trigger] self.paths@[j]
                    == joined_path(old_paths[j], done, measures@) by {
                    if j < i {
                        assert(paths_before[j] == joined_path(old_paths[j], before, measures@));
                        assert(old_paths[j].first + old_paths[j].count <= old_paths[i as int].first);
                        lemma_count_joins_same(
                            before,
                            done,
                            old_paths[j].first as int,
                            old_paths[j].count as int,
                        );
                    }
                }
                assert forall|k: int|
                    0 <= k < done.len() && (i + 1 < npaths ==> k < old_paths[i + 1].first)
                    implies #[trigger] done[k] == joined_point(
                    old_paths,
                    old(self).points@,
                    measures@,
                    line_join,
                    k,
                ) by {
                    if k < path.first {
                    } else if k < path.first + path.count && path.count >= 2 {
                        assert(classified(old_paths, k));
                    } else {
                        if classified(old_paths, k) {
                            let j = choose|j: int|
                                0 <= j < old_paths.len() && (#[trigger] old_paths[j]).count >= 2
                                    && old_paths[j].first <= k < old_paths[j].first
                                    + old_paths[j].count;
                            if j < i {
                                assert(old_paths[j].first + old_paths[j].count
                                    <= old_paths[i as int].first);
                            } else if j > i {
                                if i + 1 < npaths {
                                    if j > i + 1 {
                                        assert(old_paths[i + 1].first + old_paths[i + 1].count
                                            <= old_paths[j].first);
                                    }
                                } else {
                                }
                            }
                        }
                    }
                }
                assert forall|k: int|
                    0 <= k < done.len() && i + 1 < npaths && k >= old_paths[i + 1].first
                    implies #[trigger] done[k] == old(self).points@[k] by {
                    assert(old_paths[i as int].first + old_paths[i as int].count <= old_paths[i
                        + 1].first);
                }
            }
            i = i + 1;
        }
        true
    }
}

} // verus!
