//! The path cache: one shared point buffer, the sub-paths that index into it,
//! and the mesh vertices that the stroke expander emits.

use vstd::prelude::*;
use crate::style::Winding;
use crate::stroke::Vertex;

verus! {

/// The point was given by a command, not produced inside a curve.
pub const POINT_CORNER: u32 = 0x01;

/// The path turns left at the point.
pub const POINT_LEFT: u32 = 0x02;

/// The outer side of the join at the point is cut by a bevel.
pub const POINT_BEVEL: u32 = 0x04;

/// The inner side of the join at the point is cut by a bevel.
pub const POINT_INNER_BEVEL: u32 = 0x08;

/// One vertex of a flattened sub-path.
#[derive(Copy, Clone, Debug)]
pub struct Point<S> {
    /// Position.
    pub x: S,
    pub y: S,
    /// Direction of the edge that leaves the point, and its length.
    pub dx: S,
    pub dy: S,
    pub len: S,
    /// The miter: how far the corner of the stroke lies off the point, for a
    /// half width of one.
    pub dmx: S,
    pub dmy: S,
    /// Flag bits.
    pub flags: u32,
}

/// Direction and length of the edge that leaves a point: the vector to the
/// next point of the sub-path, and after the last point to the first,
/// divided by its length. An edge no longer than a millionth keeps its
/// vector undivided.
#[derive(Copy, Clone, Debug)]
pub struct Direction<S> {
    pub dx: S,
    pub dy: S,
    pub len: S,
}

/// A range of the vertex buffer.
#[derive(Copy, Clone, Debug, PartialEq, Eq, Structural)]
pub struct PathVertexRef {
    pub first: usize,
    pub count: usize,
}

/// One sub-path: a range of the point buffer and what is known about it.
#[derive(Copy, Clone, Debug, PartialEq, Eq, Structural)]
pub struct PathBuilder {
    pub first: usize,
    pub count: usize,
    pub closed: bool,
    pub winding: Winding,
    pub nbevel: usize,
    pub convex: bool,
    pub stroke: Option<PathVertexRef>,
}

/// The reusable buffers of one drawing context.
pub struct PathCache<S> {
    pub points: Vec<Point<S>>,
    pub verts: Vec<Vertex>,
    pub paths: Vec<PathBuilder>,
    /// The scalar that stands for nothing: what a point's direction and
    /// miter hold until they are measured.
    pub zero: S,
}

impl PathBuilder {
    /// The sub-path has edges to measure and to stroke: it has at least two
    /// points. A shorter sub-path is passed over by every stage.
    pub fn has_edges(&self) -> (r: bool)
        ensures
            r == (self.count >= 2),
    {
        self.count >= 2
    }
}

/// A point as it is first stored: at its position, with its flags, and with
/// nothing measured yet.
pub open spec fn fresh_point<S>(x: S, y: S, flags: u32, zero: S) -> Point<S> {
    Point { x, y, dx: zero, dy: zero, len: zero, dmx: zero, dmy: zero, flags }
}

/// The sub-path that `add_path` opens when the buffer holds `first` points.
pub open spec fn fresh_path(first: usize) -> PathBuilder {
    PathBuilder {
        first,
        count: 0,
        closed: false,
        winding: Winding::CCW,
        nbevel: 0,
        convex: false,
        stroke: None,
    }
}

/// Every sub-path lies inside a buffer of `len` points, and the sub-paths
/// follow one another without overlap.
pub open spec fn paths_fit(paths: Seq<PathBuilder>, len: int) -> bool {
    &&& forall|i: int|
        0 <= i < paths.len() ==> (#[trigger] paths[i]).first + paths[i].count <= len
    &&& forall|i: int, j: int|
        0 <= i < j < paths.len() ==> (#[trigger] paths[i]).first + paths[i].count <= (
        #[trigger] paths[j]).first
}

/// The new point merges into the last point of the current sub-path.
pub open spec fn merges(paths: Seq<PathBuilder>, npoints: int, coincident: bool) -> bool {
    paths.len() > 0 && paths.last().count > 0 && npoints > 0 && coincident
}

/// The point buffer after `add_point`: unchanged without a current
/// sub-path; with the flags added to the last point where the new point
/// merges into it; with the new point at its end otherwise.
pub open spec fn points_after_add<S>(
    points: Seq<Point<S>>,
    paths: Seq<PathBuilder>,
    x: S,
    y: S,
    flags: u32,
    coincident: bool,
    zero: S,
) -> Seq<Point<S>> {
    if paths.len() == 0 {
        points
    } else if merges(paths, points.len() as int, coincident) {
        points.update(points.len() - 1, Point { flags: points.last().flags | flags, ..points.last() })
    } else {
        points.push(fresh_point(x, y, flags, zero))
    }
}

/// The sub-paths after `add_point`: the current sub-path has one point more
/// where the new point was stored at the end of the buffer.
pub open spec fn paths_after_add(
    paths: Seq<PathBuilder>,
    npoints: int,
    coincident: bool,
) -> Seq<PathBuilder> {
    if paths.len() == 0 || merges(paths, npoints, coincident) {
        paths
    } else {
        paths.update(
            paths.len() - 1,
            PathBuilder { count: (paths.last().count + 1) as usize, ..paths.last() },
        )
    }
}

/// The sub-paths after `close_path`: the current sub-path, if there is one,
/// is closed.
pub open spec fn paths_after_close(paths: Seq<PathBuilder>) -> Seq<PathBuilder> {
    if paths.len() == 0 {
        paths
    } else {
        paths.update(paths.len() - 1, PathBuilder { closed: true, ..paths.last() })
    }
}

/// The sub-paths after `path_winding`: the current sub-path, if there is
/// one, is asked to wind as given.
pub open spec fn paths_after_winding(
    paths: Seq<PathBuilder>,
    winding: Winding,
) -> Seq<PathBuilder> {
    if paths.len() == 0 {
        paths
    } else {
        paths.update(paths.len() - 1, PathBuilder { winding, ..paths.last() })
    }
}

/// Merging: a point that is added to a sub-path, followed by a point that
/// coincides with it, leaves exactly one stored point more than before the
/// first of the two, or none more where the first merged as well. That
/// point stands where it stood, and its flags are the union of the flags
/// that it had and the flags of the second point. Adding the second point
/// once more changes nothing.
pub proof fn lemma_coincident_points_merge<S>(
    points: Seq<Point<S>>,
    paths: Seq<PathBuilder>,
    first: Point<S>,
    first_coincident: bool,
    second: Point<S>,
    zero: S,
)
    requires
        paths.len() > 0,
        paths.last().count < usize::MAX,
    ensures
        ({
            let stored = points_after_add(
                points,
                paths,
                first.x,
                first.y,
                first.flags,
                first_coincident,
                zero,
            );
            let counted = paths_after_add(paths, points.len() as int, first_coincident);
            let merged = points_after_add(
                stored,
                counted,
                second.x,
                second.y,
                second.flags,
                true,
                zero,
            );
            &&& merged.len() == stored.len()
            &&& paths_after_add(counted, stored.len() as int, true) == counted
            &&& merged.drop_last() == stored.drop_last()
            &&& merged.last() == (Point {
                flags: stored.last().flags | second.flags,
                ..stored.last()
            })
            &&& !merges(paths, points.len() as int, first_coincident) ==> merged == points.push(
                fresh_point(first.x, first.y, first.flags | second.flags, zero),
            )
            &&& points_after_add(
                merged,
                counted,
                second.x,
                second.y,
                second.flags,
                true,
                zero,
            ) == merged
        }),
{
    let stored = points_after_add(
        points,
        paths,
        first.x,
        first.y,
        first.flags,
        first_coincident,
        zero,
    );
    let counted = paths_after_add(paths, points.len() as int, first_coincident);
    let merged = points_after_add(stored, counted, second.x, second.y, second.flags, true, zero);
    assert(merges(counted, stored.len() as int, true));
    assert(merged.drop_last() =~= stored.drop_last());
    let had = stored.last().flags;
    let got = second.flags;
    assert((had | got) | got == had | got) by (bit_vector);
    assert(points_after_add(merged, counted, second.x, second.y, second.flags, true, zero)
        =~= merged);
    if !merges(paths, points.len() as int, first_coincident) {
        assert(merged =~= points.push(
            fresh_point(first.x, first.y, first.flags | second.flags, zero),
        ));
    }
}

impl<S: Copy> PathCache<S> {
    /// Every sub-path lies inside the point buffer, the sub-paths follow one
    /// another without overlap, and every recorded vertex range lies inside
    /// the vertex buffer.
    pub open spec fn wf(&self) -> bool {
        &&& paths_fit(self.paths@, self.points@.len() as int)
        &&& forall|i: int|
            0 <= i < self.paths@.len() ==> match (#[trigger] self.paths@[i]).stroke {
                Some(r) => r.first + r.count <= self.verts@.len(),
                None => true,
            }
    }

    /// The current sub-path, if there is one, ends where the point buffer
    /// ends, so the next point stored joins it.
    pub open spec fn recording(&self) -> bool {
        self.paths@.len() > 0 ==> self.paths@.last().first + self.paths@.last().count
            == self.points@.len()
    }

    /// The current sub-path holds a point that a new point can merge into.
    pub open spec fn has_last_point(&self) -> bool {
        self.paths@.len() > 0 && self.paths@.last().count > 0 && self.points@.len() > 0
    }

    /// Tells whether the cache is well formed.
    pub fn well_formed(&self) -> (ok: bool)
        ensures
            ok == self.wf(),
    {
        let npaths: usize = self.paths.len();
        let npoints: usize = self.points.len();
        let nverts: usize = self.verts.len();
        let mut end: usize = 0;
        let mut i: usize = 0;
        while i < npaths
            invariant
                0 <= i <= npaths,
                npaths == self.paths@.len(),
                npoints == self.points@.len(),
                nverts == self.verts@.len(),
                i == 0 ==> end == 0,
                i > 0 ==> end == self.paths@[i - 1].first + self.paths@[i - 1].count,
                forall|a: int|
                    0 <= a < i ==> (#[trigger] self.paths@[a]).first + self.paths@[a].count <= end,
                forall|a: int|
                    0 <= a < i ==> (#[trigger] self.paths@[a]).first + self.paths@[a].count
                        <= npoints,
                forall|a: int, b: int|
                    0 <= a < b < i ==> (#[trigger] self.paths@[a]).first + self.paths@[a].count <= (
                    #[trigger] self.paths@[b]).first,
                forall|a: int|
                    0 <= a < i ==> match (#[trigger] self.paths@[a]).stroke {
                        Some(r) => r.first + r.count <= nverts,
                        None => true,
                    },
            decreases npaths - i,
        {
            let path = self.paths[i];
            let stop: usize = match path.first.checked_add(path.count) {
                Some(stop) => stop,
                None => {
                    return false;
                },
            };
            if path.first < end || stop > npoints {
                proof {
                    if path.first < end {
                        assert(self.paths@[i - 1].first + self.paths@[i - 1].count > self.paths@[i as int].first);
                    }
                }
                return false;
            }
            match path.stroke {
                Some(r) => {
                    match r.first.checked_add(r.count) {
                        Some(last) => {
                            if last > nverts {
                                return false;
                            }
                        },
                        None => {
                            return false;
                        },
                    }
                },
                None => {},
            }
            end = stop;
            i = i + 1;
        }
        true
    }

    /// An empty cache.
    pub fn new(zero: S) -> (cache: Self)
        ensures
            cache.zero == zero,
            cache.points@.len() == 0,
            cache.verts@.len() == 0,
            cache.paths@.len() == 0,
            cache.wf(),
            cache.recording(),
    {
        PathCache { points: Vec::new(), verts: Vec::new(), paths: Vec::new(), zero }
    }

    /// Forgets all points and sub-paths. The vertex buffer is kept until the
    /// next expansion overwrites it.
    pub fn clear(&mut self)
        ensures
            final(self).points@.len() == 0,
            final(self).paths@.len() == 0,
            final(self).verts@ == old(self).verts@,
            final(self).zero == old(self).zero,
            final(self).wf(),
            final(self).recording(),
    {
        self.points.clear();
        self.paths.clear();
    }

    /// Opens a new, empty sub-path at the end of the point buffer.
    pub fn add_path(&mut self)
        requires
            old(self).wf(),
        ensures
            final(self).paths@ == old(self).paths@.push(fresh_path(old(self).points.len())),
            final(self).points@ == old(self).points@,
            final(self).verts@ == old(self).verts@,
            final(self).zero == old(self).zero,
            final(self).wf(),
            final(self).recording(),
    {
        let path = PathBuilder {
            first: self.points.len(),
            count: 0,
            closed: false,
            winding: Winding::CCW,
            nbevel: 0,
            convex: false,
            stroke: None,
        };
        self.paths.push(path);
    }

    /// The point that the next point is compared with before it is stored:
    /// the last point of the buffer, where the current sub-path is not empty.
    pub fn last_point(&self) -> (last: Option<Point<S>>)
        ensures
            last.is_some() == self.has_last_point(),
            self.has_last_point() ==> last == Some(self.points@.last()),
    {
        let npaths: usize = self.paths.len();
        let npoints: usize = self.points.len();
        if npaths > 0 && npoints > 0 && self.paths[npaths - 1].count > 0 {
            Some(self.points[npoints - 1])
        } else {
            None
        }
    }

    /// Stores a point in the current sub-path. Without a current sub-path
    /// nothing happens. Where the current sub-path has a last point and
    /// `coincident` says that the new point lies within the merge distance of
    /// it, no point is added: the last point takes the new flags in addition
    /// to its own.
    pub fn add_point(&mut self, x: S, y: S, flags: u32, coincident: bool)
        requires
            old(self).wf(),
        ensures
            final(self).points@ == points_after_add(
                old(self).points@,
                old(self).paths@,
                x,
                y,
                flags,
                coincident,
                old(self).zero,
            ),
            final(self).paths@ == paths_after_add(
                old(self).paths@,
                old(self).points@.len() as int,
                coincident,
            ),
            final(self).verts@ == old(self).verts@,
            final(self).zero == old(self).zero,
            final(self).wf(),
            old(self).recording() ==> final(self).recording(),
    {
        let npaths: usize = self.paths.len();
        if npaths == 0 {
            return ;
        }
        let path = self.paths[npaths - 1];
        let npoints: usize = self.points.len();
        if path.count > 0 && npoints > 0 && coincident {
            let last = self.points[npoints - 1];
            self.points[npoints - 1] = Point { flags: last.flags | flags, ..last };
            return ;
        }
        let zero = self.zero;
        self.points.push(Point { x, y, dx: zero, dy: zero, len: zero, dmx: zero, dmy: zero, flags });
        // Reading a length tells the verifier that it fits a `usize`.
        let _ = self.points.len();
        self.paths[npaths - 1] = PathBuilder { count: path.count + 1, ..path };
    }

    /// Marks the current sub-path closed, if there is one.
    pub fn close_path(&mut self)
        requires
            old(self).wf(),
        ensures
            final(self).points@ == old(self).points@,
            final(self).verts@ == old(self).verts@,
            final(self).zero == old(self).zero,
            final(self).wf(),
            old(self).recording() ==> final(self).recording(),
            final(self).paths@ == paths_after_close(old(self).paths@),
    {
        let npaths: usize = self.paths.len();
        if npaths > 0 {
            let path = self.paths[npaths - 1];
            self.paths[npaths - 1] = PathBuilder { closed: true, ..path };
        }
    }

    /// Sets the winding requested for the current sub-path, if there is one.
    pub fn path_winding(&mut self, winding: Winding)
        requires
            old(self).wf(),
        ensures
            final(self).points@ == old(self).points@,
            final(self).verts@ == old(self).verts@,
            final(self).zero == old(self).zero,
            final(self).wf(),
            old(self).recording() ==> final(self).recording(),
            final(self).paths@ == paths_after_winding(old(self).paths@, winding),
    {
        let npaths: usize = self.paths.len();
        if npaths > 0 {
            let path = self.paths[npaths - 1];
            self.paths[npaths - 1] = PathBuilder { winding, ..path };
        }
    }
}

} // verus!
