//! The flattener, as far as it keeps books: it takes the commands of a path
//! one by one, closes each sub-path whose last point repeats its first,
//! gives each sub-path the orientation that was requested for it, and stores
//! the direction of every edge. Whether two points coincide, which sign an
//! area has and where an edge points is measured by the caller.

use vstd::prelude::*;
use crate::bezier::{left_half, right_half, Cubic, Segment, Tessellator, MAX_LEVEL};
use crate::cache::{
    fresh_path, fresh_point, paths_after_add, paths_after_close, paths_after_winding,
    points_after_add, Direction, PathBuilder, PathCache, Point, POINT_CORNER,
};
use crate::canvas::Command;
use crate::style::Winding;

verus! {

/// Sign of the area that a sub-path encloses.
#[derive(Copy, Clone, Debug, PartialEq, Eq, Structural)]
pub enum AreaSign {
    Negative,
    Zero,
    Positive,
}

/// What was measured on one sub-path once all its points are stored.
#[derive(Copy, Clone, Debug, PartialEq, Eq, Structural)]
pub struct PathShape {
    /// The last point lies within the merge distance of the first: the
    /// square of their distance is less than the square of the tolerance.
    pub ends_meet: bool,
    /// Sign of the area of the sub-path, taken over the points that it
    /// keeps: `kept_points` of them. The area is half the sum of
    /// `triangle_area2` over the fan of triangles that the points make with
    /// the first of them.
    pub area: AreaSign,
}

/// The requested winding and the measured area disagree, so the points of
/// the sub-path have to be stored in the opposite order.
pub open spec fn winding_disagrees(winding: Winding, area: AreaSign) -> bool {
    match winding {
        Winding::CCW => area == AreaSign::Negative,
        Winding::CW => area == AreaSign::Positive,
    }
}

/// The last point of the sub-path is dropped: it repeats the first.
pub open spec fn drops_last(path: PathBuilder, shape: PathShape) -> bool {
    path.count >= 2 && shape.ends_meet
}

/// Number of points that a sub-path keeps once it is known whether its
/// ends meet: all but the last where they do and it has at least two, all
/// otherwise. Its area is to be measured over that many points.
pub open spec fn kept_count(path: PathBuilder, ends_meet: bool) -> int {
    if path.count >= 2 && ends_meet {
        path.count - 1
    } else {
        path.count as int
    }
}

/// Number of points that the sub-path keeps after the closing pass.
pub open spec fn finished_count(path: PathBuilder, shape: PathShape) -> int {
    kept_count(path, shape.ends_meet)
}

/// The points of the sub-path are reversed by the closing pass.
pub open spec fn reverses(path: PathBuilder, shape: PathShape) -> bool {
    finished_count(path, shape) > 2 && winding_disagrees(path.winding, shape.area)
}

/// The sub-path record after the closing pass.
pub open spec fn finished_path(path: PathBuilder, shape: PathShape) -> PathBuilder {
    PathBuilder {
        count: finished_count(path, shape) as usize,
        closed: path.closed || drops_last(path, shape),
        ..path
    }
}

/// Where the point that ends up at `index` stood before the closing pass of
/// a sub-path that starts at `first` and keeps `count` points.
pub open spec fn finished_source(first: int, count: int, reversed: bool, index: int) -> int {
    if reversed && first <= index < first + count {
        first + (first + count - 1 - index)
    } else {
        index
    }
}

/// The point at `index` lies in a sub-path that the closing pass reverses.
pub open spec fn reversed_at(paths: Seq<PathBuilder>, shapes: Seq<PathShape>, index: int) -> bool {
    exists|i: int|
        0 <= i < paths.len() && reverses(#[trigger] paths[i], shapes[i]) && paths[i].first <= index
            < paths[i].first + finished_count(paths[i], shapes[i])
}

/// Number of points that a sub-path keeps once it is known whether its
/// ends meet.
pub fn kept_points(path: &PathBuilder, ends_meet: bool) -> (kept: usize)
    ensures
        kept == kept_count(*path, ends_meet),
{
    if path.count >= 2 && ends_meet {
        path.count - 1
    } else {
        path.count
    }
}

/// Tells whether the requested winding and the measured area disagree.
pub fn must_reverse(winding: Winding, area: AreaSign) -> (r: bool)
    ensures
        r == winding_disagrees(winding, area),
{
    match winding {
        Winding::CCW => area == AreaSign::Negative,
        Winding::CW => area == AreaSign::Positive,
    }
}

/// Reverses `count` points from `first` on, in place.
pub fn reverse_points<S: Copy>(points: &mut Vec<Point<S>>, first: usize, count: usize)
    requires
        first + count <= old(points)@.len(),
    ensures
        final(points)@.len() == old(points)@.len(),
        forall|k: int|
            0 <= k < old(points)@.len() ==> #[trigger] final(points)@[k] == old(
                points,
            )@[finished_source(first as int, count as int, true, k)],
{
    let npoints: usize = points.len();
    if count < 2 {
        return ;
    }
    let mut lo: usize = first;
    let mut hi: usize = first + count - 1;
    while lo < hi
        invariant
            first <= lo,
            hi < first + count,
            lo + hi == first + (first + count - 1),
            first + count <= npoints,
            npoints == points@.len(),
            npoints == old(points)@.len(),
            forall|k: int|
                0 <= k < npoints && !(lo <= k <= hi) ==> #[trigger] points@[k] == old(
                    points,
                )@[finished_source(first as int, count as int, true, k)],
            forall|k: int| lo <= k <= hi ==> #[trigger] points@[k] == old(points)@[k],
        decreases hi + 1 - lo,
    {
        let a = points[lo];
        let b = points[hi];
        points[lo] = b;
        points[hi] = a;
        lo = lo + 1;
        hi = hi - 1;
    }
}

/// The point once the direction of the edge that leaves it is stored.
pub open spec fn directed_point<S>(point: Point<S>, direction: Direction<S>) -> Point<S> {
    Point { dx: direction.dx, dy: direction.dy, len: direction.len, ..point }
}

/// What was measured on one segment of a curve.
///
/// To measure a segment, let `c` be the chord from its first to its last
/// control point, and `d2` and `d3` the sizes of the cross products of `c`
/// with the vectors from the last control point to the second and to the
/// third.
#[derive(Copy, Clone, Debug)]
pub enum Flatness<S> {
    /// The segment is flat enough: its end point stands for it. That is so
    /// where the square of `d2 + d3` is less than the tolerance times the
    /// square of the length of `c`.
    Flat,
    /// The segment is not flat enough: its left and its right half, cut at
    /// the middle of its parameter, are to be examined in its place.
    Curved(Cubic<S>, Cubic<S>),
}

/// The segments that are yet to be examined once a segment is measured:
/// a flat segment adds none, any other adds its two halves, the left one to
/// be examined first, unless it lies at the deepest level.
pub open spec fn pending_after_measure<S>(
    pending: Seq<Segment<S>>,
    segment: Segment<S>,
    flatness: Flatness<S>,
) -> Seq<Segment<S>> {
    match flatness {
        Flatness::Flat => pending,
        Flatness::Curved(left, right) => if segment.level < MAX_LEVEL {
            pending.push(right_half(segment, right)).push(left_half(segment, left))
        } else {
            pending
        },
    }
}

/// The point buffer once a segment is measured: the end point of a flat
/// segment is stored as `add_point` stores it, with the flags of the
/// segment; no other segment stores a point.
pub open spec fn points_after_measure<S>(
    points: Seq<Point<S>>,
    paths: Seq<PathBuilder>,
    segment: Segment<S>,
    flatness: Flatness<S>,
    coincident: bool,
    zero: S,
) -> Seq<Point<S>> {
    match flatness {
        Flatness::Flat => points_after_add(
            points,
            paths,
            segment.curve.x4,
            segment.curve.y4,
            segment.flags,
            coincident,
            zero,
        ),
        Flatness::Curved(_, _) => points,
    }
}

/// The sub-paths once a segment is measured.
pub open spec fn paths_after_measure<S>(
    paths: Seq<PathBuilder>,
    npoints: int,
    flatness: Flatness<S>,
    coincident: bool,
) -> Seq<PathBuilder> {
    match flatness {
        Flatness::Flat => paths_after_add(paths, npoints, coincident),
        Flatness::Curved(_, _) => paths,
    }
}

/// The curve that a command asks to flatten: from the last stored point over
/// the two control points of the command to its end point. Without a stored
/// point there is none, and no other command asks for one.
pub open spec fn curve_of<S>(points: Seq<Point<S>>, command: Command<S>) -> Option<Cubic<S>> {
    match command {
        Command::BezierTo(x2, y2, x3, y3, x4, y4) => if points.len() > 0 {
            Some(Cubic { x1: points.last().x, y1: points.last().y, x2, y2, x3, y3, x4, y4 })
        } else {
            None
        },
        _ => None,
    }
}

/// The point buffer after one command: a move stores its point at the end,
/// a line stores its point as `add_point` does, and no other command stores
/// any.
pub open spec fn points_after_command<S>(
    points: Seq<Point<S>>,
    paths: Seq<PathBuilder>,
    command: Command<S>,
    coincident: bool,
    zero: S,
) -> Seq<Point<S>> {
    match command {
        Command::MoveTo(x, y) => points.push(fresh_point(x, y, POINT_CORNER, zero)),
        Command::LineTo(x, y) => points_after_add(
            points,
            paths,
            x,
            y,
            POINT_CORNER,
            coincident,
            zero,
        ),
        _ => points,
    }
}

/// The sub-paths after one command: a move opens a sub-path of one point, a
/// line counts its point as `add_point` does, a close closes the current
/// sub-path, a winding is noted with it, and a curve changes nothing.
pub open spec fn paths_after_command<S>(
    paths: Seq<PathBuilder>,
    npoints: int,
    command: Command<S>,
    coincident: bool,
) -> Seq<PathBuilder> {
    match command {
        Command::MoveTo(_, _) => paths.push(
            PathBuilder { count: 1, ..fresh_path(npoints as usize) },
        ),
        Command::LineTo(_, _) => paths_after_add(paths, npoints, coincident),
        Command::BezierTo(_, _, _, _, _, _) => paths,
        Command::Close => paths_after_close(paths),
        Command::Winding(winding) => paths_after_winding(paths, winding),
    }
}

impl<S: Copy> PathCache<S> {
    /// Takes one command of a path. A move opens a sub-path and stores its
    /// first point; a line stores a point, or merges it into the last where
    /// `coincident` says that it falls onto it; a close and a winding mark
    /// the current sub-path. A curve is not stored: it is handed back, from
    /// the last stored point on, for the caller to flatten point by point.
    /// Every point that a move or a line stores is a corner.
    pub fn flatten_command(&mut self, command: &Command<S>, coincident: bool) -> (curve: Option<
        Cubic<S>,
    >)
        requires
            old(self).wf(),
        ensures
            curve == curve_of(old(self).points@, *command),
            final(self).points@ == points_after_command(
                old(self).points@,
                old(self).paths@,
                *command,
                coincident,
                old(self).zero,
            ),
            final(self).paths@ == paths_after_command(
                old(self).paths@,
                old(self).points@.len() as int,
                *command,
                coincident,
            ),
            final(self).verts@ == old(self).verts@,
            final(self).zero == old(self).zero,
            final(self).wf(),
            old(self).recording() ==> final(self).recording(),
    {
        match *command {
            Command::MoveTo(x, y) => {
                self.add_path();
                self.add_point(x, y, POINT_CORNER, false);
                assert(self.paths@ =~= paths_after_command(
                    old(self).paths@,
                    old(self).points@.len() as int,
                    *command,
                    coincident,
                ));
                None
            },
            Command::LineTo(x, y) => {
                self.add_point(x, y, POINT_CORNER, coincident);
                None
            },
            Command::BezierTo(x2, y2, x3, y3, x4, y4) => {
                let npoints: usize = self.points.len();
                if npoints > 0 {
                    let last = self.points[npoints - 1];
                    Some(Cubic { x1: last.x, y1: last.y, x2, y2, x3, y3, x4, y4 })
                } else {
                    None
                }
            },
            Command::Close => {
                self.close_path();
                None
            },
            Command::Winding(winding) => {
                self.path_winding(winding);
                None
            },
        }
    }

    /// Takes what was measured on one segment of a curve that `walk` handed out.
    /// The end point of a flat segment is stored with the flags of the
    /// segment, or merged into the last point where `coincident` says that
    /// it falls onto it. The halves of any other segment go back to the
    /// walk.
    pub fn flatten_segment(
        &mut self,
        walk: &mut Tessellator<S>,
        segment: &Segment<S>,
        flatness: &Flatness<S>,
        coincident: bool,
    )
        requires
            old(self).wf(),
            old(walk).wf(),
        ensures
            final(walk).pending@ == pending_after_measure(old(walk).pending@, *segment, *flatness),
            final(self).points@ == points_after_measure(
                old(self).points@,
                old(self).paths@,
                *segment,
                *flatness,
                coincident,
                old(self).zero,
            ),
            final(self).paths@ == paths_after_measure(
                old(self).paths@,
                old(self).points@.len() as int,
                *flatness,
                coincident,
            ),
            final(self).verts@ == old(self).verts@,
            final(self).zero == old(self).zero,
            final(self).wf(),
            final(walk).wf(),
            old(self).recording() ==> final(self).recording(),
    {
        match *flatness {
            Flatness::Flat => {
                self.add_point(segment.curve.x4, segment.curve.y4, segment.flags, coincident);
            },
            Flatness::Curved(left, right) => {
                walk.split(segment, left, right);
            },
        }
    }

    /// Stores with every point the direction and the length of the edge
    /// that leaves it, from one direction per stored point. Returns
    /// `false`, and changes nothing, where the directions are not one per
    /// point.
    pub fn set_directions(&mut self, directions: &Vec<Direction<S>>) -> (ok: bool)
        requires
            old(self).wf(),
        ensures
            ok == (directions@.len() == old(self).points@.len()),
            final(self).wf(),
            final(self).verts@ == old(self).verts@,
            final(self).paths@ == old(self).paths@,
            final(self).zero == old(self).zero,
            final(self).points@.len() == old(self).points@.len(),
            !ok ==> final(self).points@ == old(self).points@,
            ok ==> forall|k: int|
                0 <= k < old(self).points@.len() ==> #[trigger] final(self).points@[k]
                    == directed_point(old(self).points@[k], directions@[k]),
    {
        let npoints: usize = self.points.len();
        if directions.len() != npoints {
            return false;
        }
        let mut k: usize = 0;
        while k < npoints
            invariant
                0 <= k <= npoints,
                npoints == self.points@.len(),
                npoints == old(self).points@.len(),
                npoints == directions@.len(),
                self.verts@ == old(self).verts@,
                self.paths@ == old(self).paths@,
                self.zero == old(self).zero,
                forall|m: int|
                    0 <= m < k ==> #[trigger] self.points@[m] == directed_point(
                        old(self).points@[m],
                        directions@[m],
                    ),
                forall|m: int| k <= m < npoints ==> #[trigger] self.points@[m] == old(self).points@[m],
            decreases npoints - k,
        {
            let point = self.points[k];
            let direction = directions[k];
            self.points[k] = Point {
                dx: direction.dx,
                dy: direction.dy,
                len: direction.len,
                ..point
            };
            k = k + 1;
        }
        true
    }

    /// Closes and orients every sub-path, from one shape per sub-path.
    /// Returns `false`, and changes nothing, where the shapes are not one
    /// per sub-path.
    ///
    /// A sub-path of at least two points whose ends meet loses its last
    /// point and is marked closed. A sub-path that then still has more than
    /// two points, and whose area has the wrong sign for the winding that
    /// was requested, has its points reversed in place. No point moves from
    /// one sub-path to another, and a point outside every reversed sub-path
    /// stays where it is.
    pub fn finish_paths(&mut self, shapes: &Vec<PathShape>) -> (ok: bool)
        requires
            old(self).wf(),
        ensures
            ok == (shapes@.len() == old(self).paths@.len()),
            final(self).wf(),
            final(self).verts@ == old(self).verts@,
            final(self).zero == old(self).zero,
            final(self).points@.len() == old(self).points@.len(),
            final(self).paths@.len() == old(self).paths@.len(),
            !ok ==> final(self).points@ == old(self).points@ && final(self).paths@ == old(
                self,
            ).paths@,
            ok ==> forall|i: int|
                0 <= i < old(self).paths@.len() ==> #[trigger] final(self).paths@[i]
                    == finished_path(old(self).paths@[i], shapes@[i]),
            ok ==> forall|i: int, k: int|
                0 <= i < old(self).paths@.len() && old(self).paths@[i].first <= k < old(
                    self,
                ).paths@[i].first + finished_count(old(self).paths@[i], shapes@[i])
                    ==> #[trigger] final(self).points@[k] == old(self).points@[finished_source(
                    old(self).paths@[i].first as int,
                    finished_count(old(self).paths@[i], shapes@[i]),
                    reverses(#[trigger] old(self).paths@[i], shapes@[i]),
                    k,
                )],
            ok ==> forall|k: int|
                0 <= k < old(self).points@.len() && !reversed_at(old(self).paths@, shapes@, k)
                    ==> #[trigger] final(self).points@[k] == old(self).points@[k],
    {
        if shapes.len() != self.paths.len() {
            return false;
        }
        let npaths: usize = self.paths.len();
        let npoints: usize = self.points.len();
        let mut i: usize = 0;
        while i < npaths
            invariant
                0 <= i <= npaths,
                npaths == self.paths@.len(),
                npaths == old(self).paths@.len(),
                npaths == shapes@.len(),
                npoints == self.points@.len(),
                npoints == old(self).points@.len(),
                old(self).wf(),
                self.wf(),
                self.verts@ == old(self).verts@,
                self.zero == old(self).zero,
                forall|j: int| i <= j < npaths ==> #[trigger] self.paths@[j] == old(self).paths@[j],
                forall|j: int|
                    0 <= j < i ==> #[trigger] self.paths@[j] == finished_path(
                        old(self).paths@[j],
                        shapes@[j],
                    ),
                forall|j: int, k: int|
                    0 <= j < i && old(self).paths@[j].first <= k < old(self).paths@[j].first
                        + finished_count(old(self).paths@[j], shapes@[j])
                        ==> #[trigger] self.points@[k] == old(self).points@[finished_source(
                        old(self).paths@[j].first as int,
                        finished_count(old(self).paths@[j], shapes@[j]),
                        reverses(#[trigger] old(self).paths@[j], shapes@[j]),
                        k,
                    )],
                forall|k: int|
                    0 <= k < npoints && !reversed_at(old(self).paths@, shapes@, k)
                        ==> #[trigger] self.points@[k] == old(self).points@[k],
                forall|k: int|
                    0 <= k < npoints && i < npaths && k >= old(self).paths@[i as int].first
                        ==> #[trigger] self.points@[k] == old(self).points@[k],
            decreases npaths - i,
        {
            let path = self.paths[i];
            let shape = shapes[i];
            let ghost before = self.points@;
            let ghost old_paths = old(self).paths@;
            let mut count: usize = path.count;
            let mut closed = path.closed;
            if count >= 2 && shape.ends_meet {
                count = count - 1;
                closed = true;
            }
            if count > 2 && must_reverse(path.winding, shape.area) {
                reverse_points(&mut self.points, path.first, count);
            }
            self.paths[i] = PathBuilder { count, closed, ..path };
            proof {
                let done = self.points@;
                assert(path == old_paths[i as int]);
                assert(count == finished_count(path, shape));
                assert forall|j: int, k: int|
                    0 <= j < i + 1 && old_paths[j].first <= k < old_paths[j].first
                        + finished_count(old_paths[j], shapes@[j]) implies #[trigger] done[k]
                    == old(self).points@[finished_source(
                    old_paths[j].first as int,
                    finished_count(old_paths[j], shapes@[j]),
                    reverses(#[trigger] old_paths[j], shapes@[j]),
                    k,
                )] by {
                    if j < i {
                        assert(old_paths[j].first + old_paths[j].count <= old_paths[i as int].first);
                        assert(done[k] == before[k]);
                    }
                }
                assert forall|k: int|
                    0 <= k < npoints && !reversed_at(old_paths, shapes@, k) implies #[trigger] done[k]
                    == old(self).points@[k] by {
                    if reverses(path, shape) && path.first <= k < path.first + count {
                        assert(reverses(old_paths[i as int], shapes@[i as int]));
                        assert(reversed_at(old_paths, shapes@, k));
                    }
                }
                assert forall|k: int|
                    0 <= k < npoints && i + 1 < npaths && k >= old_paths[i + 1].first
                    implies #[trigger] done[k] == old(self).points@[k] by {
                    assert(old_paths[i as int].first + old_paths[i as int].count <= old_paths[i
                        + 1].first);
                }
                assert forall|a: int, b: int| 0 <= a < b < npaths implies (
                #[trigger] self.paths@[a]).first + self.paths@[a].count <= (
                #[trigger] self.paths@[b]).first by {
                    assert(old_paths[a].first + old_paths[a].count <= old_paths[b].first);
                }
                assert forall|a: int| 0 <= a < npaths implies (#[trigger] self.paths@[a]).first
                    + self.paths@[a].count <= npoints by {
                    assert(old_paths[a].first + old_paths[a].count <= npoints);
                }
            }
            i = i + 1;
        }
        true
    }
}

} // verus!
