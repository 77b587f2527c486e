//! What holds of every mesh that the expander builds: each vertex names
//! points of its own sub-path, each arc is told its step among at least two
//! steps, only a cap has a fringe, and the vertices come in pairs.

use vstd::prelude::*;
use crate::cache::{paths_fit, PathBuilder, PathCache, Point, POINT_BEVEL};
use crate::expand::{
    lemma_ring_len, loop_verts, path_verts, ring_prev, ring_verts, stroke_verts, stroked_path,
};
use crate::joins::{joined_path, JoinMeasure};
use crate::render::{mesh_count, mesh_first};
use crate::stroke::{
    bevel_join_verts, curve_divs_spec, end_cap_verts, join_verts, round_join_verts, round_steps,
    start_cap_verts, Place, Vertex,
};
use crate::style::{LineCap, LineJoin};

verus! {

/// An arc is told which of its steps it is, and has at least two steps.
pub open spec fn place_fits(place: Place) -> bool {
    match place {
        Place::JoinArc { step, steps } => step < steps && steps >= 2,
        Place::StartArc { step, steps } => step < steps && steps >= 2,
        Place::EndArc { step, steps } => step < steps && steps >= 2,
        _ => true,
    }
}

/// The place lies on the straight edge of a cap.
pub open spec fn on_cap_edge(place: Place) -> bool {
    match place {
        Place::StartCap { left, square } => true,
        Place::EndCap { left, square } => true,
        _ => false,
    }
}

/// The vertex belongs to a sub-path of `count` points from `first` on: it
/// names two of its points, its place is sound, and it lies on the fringe
/// only where it lies on the edge of a cap.
pub open spec fn vertex_fits(vertex: Vertex, first: int, count: int) -> bool {
    &&& first <= vertex.prev < first + count
    &&& first <= vertex.point < first + count
    &&& place_fits(vertex.place)
    &&& !vertex.core ==> on_cap_edge(vertex.place)
}

/// Every vertex of the mesh belongs to the sub-path, and the vertices come
/// in pairs.
pub open spec fn mesh_fits(mesh: Seq<Vertex>, first: int, count: int) -> bool {
    &&& mesh.len() % 2 == 0
    &&& forall|k: int| 0 <= k < mesh.len() ==> vertex_fits(#[trigger] mesh[k], first, count)
}

/// Two meshes of one sub-path, one after the other, are a mesh of it.
pub proof fn lemma_fits_append(a: Seq<Vertex>, b: Seq<Vertex>, first: int, count: int)
    requires
        mesh_fits(a, first, count),
        mesh_fits(b, first, count),
    ensures
        mesh_fits(a + b, first, count),
{
    assert forall|k: int| 0 <= k < (a + b).len() implies vertex_fits(
        #[trigger] (a + b)[k],
        first,
        count,
    ) by {
        if k < a.len() {
            assert((a + b)[k] == a[k]);
        } else {
            assert((a + b)[k] == b[k - a.len()]);
        }
    }
}

/// A round join takes a pair at each edge and a pair for every step of its
/// arc; a bevelled join takes four pairs where the outer side is cut, five
/// where it runs over the miter.
pub proof fn lemma_join_sizes(
    prev: usize,
    point: usize,
    flags: u32,
    arc: usize,
    ncap: usize,
    anti_alias: bool,
)
    ensures
        round_join_verts(prev, point, flags, arc, ncap, anti_alias).len() == 2 * round_steps(
            arc,
            ncap,
        ) + 4,
        bevel_join_verts(prev, point, flags, anti_alias).len() == (if flags & POINT_BEVEL != 0 {
            8int
        } else {
            10int
        }),
        ncap >= 2 ==> 2 <= round_steps(arc, ncap) <= ncap,
{
}

/// The vertices of a join belong to the sub-path of its two points.
pub proof fn lemma_join_fits(
    prev: usize,
    point: usize,
    flags: u32,
    line_join: LineJoin,
    arc: usize,
    ncap: usize,
    anti_alias: bool,
    first: int,
    count: int,
)
    requires
        ncap >= 2,
        first <= prev < first + count,
        first <= point < first + count,
    ensures
        mesh_fits(join_verts(prev, point, flags, line_join, arc, ncap, anti_alias), first, count),
{
    let rounded = round_join_verts(prev, point, flags, arc, ncap, anti_alias);
    let cut = bevel_join_verts(prev, point, flags, anti_alias);
    assert(rounded.len() % 2 == 0);
    assert(cut.len() % 2 == 0);
    assert forall|k: int| 0 <= k < rounded.len() implies vertex_fits(
        #[trigger] rounded[k],
        first,
        count,
    ) by {}
    assert forall|k: int| 0 <= k < cut.len() implies vertex_fits(#[trigger] cut[k], first, count) by {}
}

/// The vertices of a start cap belong to the sub-path of its point.
pub proof fn lemma_start_cap_fits(
    point: usize,
    line_cap: LineCap,
    ncap: usize,
    anti_alias: bool,
    first: int,
    count: int,
)
    requires
        ncap >= 2,
        first <= point < first + count,
    ensures
        mesh_fits(start_cap_verts(point, line_cap, ncap, anti_alias), first, count),
{
    let mesh = start_cap_verts(point, line_cap, ncap, anti_alias);
    assert(mesh.len() % 2 == 0);
    assert forall|k: int| 0 <= k < mesh.len() implies vertex_fits(#[trigger] mesh[k], first, count) by {}
}

/// The vertices of an end cap belong to the sub-path of its two points.
pub proof fn lemma_end_cap_fits(
    prev: usize,
    point: usize,
    line_cap: LineCap,
    ncap: usize,
    anti_alias: bool,
    first: int,
    count: int,
)
    requires
        ncap >= 2,
        first <= prev < first + count,
        first <= point < first + count,
    ensures
        mesh_fits(end_cap_verts(prev, point, line_cap, ncap, anti_alias), first, count),
{
    let mesh = end_cap_verts(prev, point, line_cap, ncap, anti_alias);
    assert(mesh.len() % 2 == 0);
    assert forall|k: int| 0 <= k < mesh.len() implies vertex_fits(#[trigger] mesh[k], first, count) by {}
}

/// The joins of a range of points of a sub-path belong to it.
pub proof fn lemma_ring_fits<S>(
    points: Seq<Point<S>>,
    measures: Seq<JoinMeasure<S>>,
    first: int,
    count: int,
    lo: int,
    hi: int,
    line_join: LineJoin,
    ncap: usize,
    anti_alias: bool,
)
    requires
        ncap >= 2,
        0 <= first,
        first + count <= usize::MAX,
        0 <= lo <= hi <= count,
    ensures
        mesh_fits(
            ring_verts(points, measures, first, count, lo, hi, line_join, ncap, anti_alias),
            first,
            count,
        ),
    decreases hi - lo,
{
    if hi > lo {
        lemma_ring_fits(points, measures, first, count, lo, hi - 1, line_join, ncap, anti_alias);
        lemma_join_fits(
            ring_prev(first, count, hi - 1) as usize,
            (first + hi - 1) as usize,
            points[first + hi - 1].flags,
            line_join,
            measures[first + hi - 1].arc,
            ncap,
            anti_alias,
            first,
            count,
        );
        lemma_fits_append(
            ring_verts(points, measures, first, count, lo, hi - 1, line_join, ncap, anti_alias),
            join_verts(
                ring_prev(first, count, hi - 1) as usize,
                (first + hi - 1) as usize,
                points[first + hi - 1].flags,
                line_join,
                measures[first + hi - 1].arc,
                ncap,
                anti_alias,
            ),
            first,
            count,
        );
    }
}

/// The mesh of a sub-path belongs to it.
pub proof fn lemma_path_fits<S>(
    points: Seq<Point<S>>,
    measures: Seq<JoinMeasure<S>>,
    path: PathBuilder,
    line_cap: LineCap,
    line_join: LineJoin,
    ncap: usize,
    anti_alias: bool,
)
    requires
        ncap >= 2,
        path.first + path.count <= usize::MAX,
    ensures
        mesh_fits(
            path_verts(points, measures, path, line_cap, line_join, ncap, anti_alias),
            path.first as int,
            path.count as int,
        ),
{
    let first = path.first as int;
    let count = path.count as int;
    if count >= 2 {
        if path.closed {
            let ring = ring_verts(
                points,
                measures,
                first,
                count,
                0,
                count,
                line_join,
                ncap,
                anti_alias,
            );
            lemma_ring_fits(points, measures, first, count, 0, count, line_join, ncap, anti_alias);
            lemma_ring_len(
                points,
                measures,
                first,
                count,
                0,
                count,
                line_join,
                ncap,
                anti_alias,
            );
            assert(vertex_fits(ring[0], first, count));
            assert(vertex_fits(ring[1], first, count));
            let tail = loop_verts(ring, anti_alias);
            assert(mesh_fits(tail, first, count));
            lemma_fits_append(ring, tail, first, count);
        } else {
            let start = start_cap_verts(path.first, line_cap, ncap, anti_alias);
            let ring = ring_verts(
                points,
                measures,
                first,
                count,
                1,
                count - 1,
                line_join,
                ncap,
                anti_alias,
            );
            let end = end_cap_verts(
                (first + count - 2) as usize,
                (first + count - 1) as usize,
                line_cap,
                ncap,
                anti_alias,
            );
            lemma_start_cap_fits(path.first, line_cap, ncap, anti_alias, first, count);
            lemma_ring_fits(
                points,
                measures,
                first,
                count,
                1,
                count - 1,
                line_join,
                ncap,
                anti_alias,
            );
            lemma_end_cap_fits(
                (first + count - 2) as usize,
                (first + count - 1) as usize,
                line_cap,
                ncap,
                anti_alias,
                first,
                count,
            );
            lemma_fits_append(start, ring, first, count);
            lemma_fits_append(start + ring, end, first, count);
        }
    }
}

/// The mesh of the first sub-paths is the start of the mesh of more of them.
pub proof fn lemma_stroke_prefix<S>(
    points: Seq<Point<S>>,
    measures: Seq<JoinMeasure<S>>,
    paths: Seq<PathBuilder>,
    m: int,
    n: int,
    line_cap: LineCap,
    line_join: LineJoin,
    ncap: usize,
    anti_alias: bool,
)
    requires
        0 <= m <= n,
    ensures
        stroke_verts(points, measures, paths, m, line_cap, line_join, ncap, anti_alias).len()
            <= stroke_verts(points, measures, paths, n, line_cap, line_join, ncap, anti_alias).len(),
        forall|k: int|
            0 <= k < stroke_verts(
                points,
                measures,
                paths,
                m,
                line_cap,
                line_join,
                ncap,
                anti_alias,
            ).len() ==> stroke_verts(
                points,
                measures,
                paths,
                m,
                line_cap,
                line_join,
                ncap,
                anti_alias,
            )[k] == #[trigger] stroke_verts(
                points,
                measures,
                paths,
                n,
                line_cap,
                line_join,
                ncap,
                anti_alias,
            )[k],
    decreases n - m,
{
    if m < n {
        lemma_stroke_prefix(points, measures, paths, m, n - 1, line_cap, line_join, ncap, anti_alias);
    }
}

/// The part of the whole mesh that a sub-path records as its own is the
/// mesh of that sub-path.
pub proof fn lemma_mesh_of_path<S>(
    points: Seq<Point<S>>,
    measures: Seq<JoinMeasure<S>>,
    paths: Seq<PathBuilder>,
    i: int,
    n: int,
    line_cap: LineCap,
    line_join: LineJoin,
    ncap: usize,
    anti_alias: bool,
)
    requires
        0 <= i < n <= paths.len(),
    ensures
        ({
            let whole = stroke_verts(
                points,
                measures,
                paths,
                n,
                line_cap,
                line_join,
                ncap,
                anti_alias,
            );
            let start = stroke_verts(
                points,
                measures,
                paths,
                i,
                line_cap,
                line_join,
                ncap,
                anti_alias,
            ).len() as int;
            let own = path_verts(points, measures, paths[i], line_cap, line_join, ncap, anti_alias);
            &&& start + own.len() <= whole.len()
            &&& whole.subrange(start, start + own.len() as int) == own
        }),
{
    let whole = stroke_verts(points, measures, paths, n, line_cap, line_join, ncap, anti_alias);
    let upto = stroke_verts(points, measures, paths, i + 1, line_cap, line_join, ncap, anti_alias);
    let start = stroke_verts(points, measures, paths, i, line_cap, line_join, ncap, anti_alias);
    let own = path_verts(points, measures, paths[i], line_cap, line_join, ncap, anti_alias);
    lemma_stroke_prefix(points, measures, paths, i + 1, n, line_cap, line_join, ncap, anti_alias);
    assert(upto == start + own);
    let part = whole.subrange(start.len() as int, (start.len() + own.len()) as int);
    assert forall|k: int| 0 <= k < own.len() implies part[k] == own[k] by {
        assert(upto[start.len() + k] == own[k]);
        assert(whole[start.len() + k] == upto[start.len() + k]);
    }
    assert(part =~= own);
}

impl<S: Copy> PathCache<S> {
    /// Every sub-path holds in its range of the vertex buffer a mesh of
    /// its own: each vertex there names points of that sub-path, each arc
    /// is told its step among at least two steps, only the edge of a cap
    /// has a fringe, and the vertices come in pairs.
    pub open spec fn mesh_sound(&self) -> bool {
        forall|i: int|
            0 <= i < self.paths@.len() ==> {
                let path = #[trigger] self.paths@[i];
                &&& mesh_first(path) + mesh_count(path) <= self.verts@.len()
                &&& mesh_fits(
                    self.verts@.subrange(
                        mesh_first(path) as int,
                        mesh_first(path) + mesh_count(path),
                    ),
                    path.first as int,
                    path.count as int,
                )
            }
    }

    /// A stroke leaves a sound mesh.
    pub proof fn lemma_stroke_is_sound(
        &self,
        before: &Self,
        line_cap: LineCap,
        line_join: LineJoin,
        ncap: usize,
        anti_alias: bool,
        measures: Seq<JoinMeasure<S>>,
    )
        requires
            self.wf(),
            self.points@.len() <= usize::MAX,
            self.verts@.len() <= usize::MAX,
            self.stroked_from(before, line_cap, line_join, ncap, anti_alias, measures),
        ensures
            self.mesh_sound(),
            forall|k: int|
                0 <= k < self.verts@.len() ==> (#[trigger] self.verts@[k]).prev < self.points@.len()
                    && self.verts@[k].point < self.points@.len() && place_fits(
                    self.verts@[k].place,
                ),
    {
        let divs = curve_divs_spec(ncap);
        let n = self.paths@.len() as int;
        let points = self.points@;
        let paths = self.paths@;
        let verts = self.verts@;
        assert(verts == stroke_verts(
            points,
            measures,
            paths,
            n,
            line_cap,
            line_join,
            divs,
            anti_alias,
        ));
        assert forall|i: int| 0 <= i < n implies ({
            let path = #[trigger] paths[i];
            &&& mesh_first(path) + mesh_count(path) <= verts.len()
            &&& mesh_fits(
                verts.subrange(mesh_first(path) as int, mesh_first(path) + mesh_count(path)),
                path.first as int,
                path.count as int,
            )
        }) by {
            let path = paths[i];
            let start = stroke_verts(
                points,
                measures,
                paths,
                i,
                line_cap,
                line_join,
                divs,
                anti_alias,
            ).len() as int;
            let own = path_verts(points, measures, path, line_cap, line_join, divs, anti_alias);
            assert(path == stroked_path(
                joined_path(before.paths@[i], points, measures),
                start,
                own.len() as int,
            ));
            lemma_mesh_of_path(points, measures, paths, i, n, line_cap, line_join, divs, anti_alias);
            assert(mesh_first(path) == start);
            assert(mesh_count(path) == own.len());
            assert(path.first + path.count <= points.len());
            lemma_path_fits(points, measures, path, line_cap, line_join, divs, anti_alias);
        }
        assert(paths_fit(paths, points.len() as int));
        assert forall|k: int| 0 <= k < verts.len() implies (#[trigger] verts[k]).prev < points.len()
            && verts[k].point < points.len() && place_fits(verts[k].place) by {
            lemma_vertex_has_a_path(
                points,
                measures,
                paths,
                n,
                k,
                line_cap,
                line_join,
                divs,
                anti_alias,
            );
        }
    }
}

/// Every vertex of the mesh of the first `n` sub-paths names points inside
/// the point buffer, as long as the sub-paths lie inside it.
pub proof fn lemma_vertex_has_a_path<S>(
    points: Seq<Point<S>>,
    measures: Seq<JoinMeasure<S>>,
    paths: Seq<PathBuilder>,
    n: int,
    k: int,
    line_cap: LineCap,
    line_join: LineJoin,
    ncap: usize,
    anti_alias: bool,
)
    requires
        ncap >= 2,
        0 <= n <= paths.len(),
        points.len() <= usize::MAX,
        paths_fit(paths, points.len() as int),
        0 <= k < stroke_verts(
            points,
            measures,
            paths,
            n,
            line_cap,
            line_join,
            ncap,
            anti_alias,
        ).len(),
    ensures
        ({
            let vertex = stroke_verts(
                points,
                measures,
                paths,
                n,
                line_cap,
                line_join,
                ncap,
                anti_alias,
            )[k];
            vertex.prev < points.len() && vertex.point < points.len() && place_fits(vertex.place)
        }),
    decreases n,
{
    if n > 0 {
        let head = stroke_verts(
            points,
            measures,
            paths,
            n - 1,
            line_cap,
            line_join,
            ncap,
            anti_alias,
        );
        let own = path_verts(points, measures, paths[n - 1], line_cap, line_join, ncap, anti_alias);
        if k < head.len() {
            lemma_vertex_has_a_path(
                points,
                measures,
                paths,
                n - 1,
                k,
                line_cap,
                line_join,
                ncap,
                anti_alias,
            );
        } else {
            assert(paths[n - 1].first + paths[n - 1].count <= points.len());
            lemma_path_fits(points, measures, paths[n - 1], line_cap, line_join, ncap, anti_alias);
            assert(vertex_fits(
                own[k - head.len()],
                paths[n - 1].first as int,
                paths[n - 1].count as int,
            ));
        }
    }
}

} // verus!
