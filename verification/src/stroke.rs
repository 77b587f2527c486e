//! The stroke expander, vertex by vertex: the mesh vertices of one join and
//! of one cap, in the order in which the triangle strip takes them.
//!
//! A mesh vertex is described, not measured: it names the path point that it
//! belongs to, the point before it, and where it lies relative to that point
//! (on the miter, on an edge normal, on an arc). Turning the description
//! into a position takes the stroke's half width and the directions of the
//! two edges, and is left to the caller.

use vstd::prelude::*;
use crate::cache::{POINT_BEVEL, POINT_INNER_BEVEL, POINT_LEFT};
use crate::joins::needs_join;
use crate::style::{clamp, clamp_spec, LineCap, LineJoin};

verus! {

/// Cross-stroke coordinate of a mesh vertex: 0, one half, or 1.
#[derive(Copy, Clone, Debug, PartialEq, Eq, Structural)]
pub enum Fade {
    Zero,
    Half,
    One,
}

/// Where a mesh vertex lies relative to the path point `p` it belongs to.
///
/// To read a place as a position, let `w` be the half width of the mesh and
/// `aa` the width of its fringe. Let `d0` be the direction of the edge that
/// arrives at `p` and `d1` the direction of the edge that leaves it, both of
/// length one, and let `n0` and `n1` be their left normals, the left normal
/// of `(dx, dy)` being `(dy, -dx)`. A place with `left` lies on the side
/// that the left normals point to and reads `+` for `±` below; a place
/// without it lies on the other side and reads `-`.
#[derive(Copy, Clone, Debug, PartialEq, Eq, Structural)]
pub enum Place {
    /// On the point itself: `p`.
    Center,
    /// On the miter: `p ± w * m`, where `m` is the miter stored with the
    /// point.
    Miter { left: bool },
    /// Off the point by the normal of the edge that arrives: `p ± w * n0`.
    Incoming { left: bool },
    /// Off the point by the normal of the edge that leaves: `p ± w * n1`.
    Outgoing { left: bool },
    /// On the arc of a round join: `p + w * (cos a, sin a)`. The angle `a`
    /// goes in `steps - 1` equal parts, of which `step` are taken: at a
    /// left turn from the angle of `-n0` down to the angle of `-n1`, at any
    /// other point from the angle of `n0` up to the angle of `n1`.
    JoinArc { step: usize, steps: usize },
    /// On the straight edge of the cap at the start of an open sub-path:
    /// `q ± w * n1` with `q = p - d * d1`, where `d` is `w - aa` for a
    /// `square` cap and `-aa / 2` for a butt cap. A vertex of the fringe
    /// lies further out by `aa`, at `q ± w * n1 - aa * d1`.
    StartCap { left: bool, square: bool },
    /// On the straight edge of the cap at the end of an open sub-path:
    /// `q ± w * n0` with `q = p + d * d0`, and `q ± w * n0 + aa * d0` on the
    /// fringe.
    EndCap { left: bool, square: bool },
    /// On the half circle of a round cap at the start:
    /// `p - w * cos a * n1 - w * sin a * d1`, where `a` is `step` of
    /// `steps - 1` equal parts of a half turn.
    StartArc { step: usize, steps: usize },
    /// On the half circle of a round cap at the end:
    /// `p - w * cos a * n0 + w * sin a * d0`.
    EndArc { step: usize, steps: usize },
}

/// One vertex of the stroke mesh.
#[derive(Copy, Clone, Debug, PartialEq, Eq, Structural)]
pub struct Vertex {
    /// Index of the path point before `point`: the start of the edge that
    /// arrives. At the start cap it is `point` itself.
    pub prev: usize,
    /// Index of the path point that the vertex belongs to.
    pub point: usize,
    /// Where the vertex lies relative to the point.
    pub place: Place,
    /// Cross-stroke coordinate, which a rasterizer fades the stroke by.
    pub u: Fade,
    /// The vertex belongs to the core of the stroke, not to the fringe that
    /// extends a cap: the second coordinate of the vertex is 1 with it and
    /// 0 without.
    pub core: bool,
}

/// Cross-stroke coordinate of the left side: 0, or one half where the stroke
/// is not anti-aliased.
pub open spec fn left_fade(anti_alias: bool) -> Fade {
    if anti_alias {
        Fade::Zero
    } else {
        Fade::Half
    }
}

/// Cross-stroke coordinate of the right side: 1, or one half where the
/// stroke is not anti-aliased.
pub open spec fn right_fade(anti_alias: bool) -> Fade {
    if anti_alias {
        Fade::One
    } else {
        Fade::Half
    }
}

/// Divisions of a half circle: never fewer than two.
pub open spec fn curve_divs_spec(divisions: usize) -> usize {
    if divisions < 2 {
        2
    } else {
        divisions
    }
}

/// The places of the two bevel ends on one side of a join: the two edge
/// normals where the side is bevelled, the miter twice where it is not.
pub open spec fn choose_bevel_spec(bevel: u32, left: bool) -> (Place, Place) {
    if bevel != 0 {
        (Place::Incoming { left }, Place::Outgoing { left })
    } else {
        (Place::Miter { left }, Place::Miter { left })
    }
}

/// The vertex pair of a join that needs no more than that.
pub open spec fn miter_join_verts(prev: usize, point: usize, anti_alias: bool) -> Seq<Vertex> {
    seq![
        Vertex {
            prev,
            point,
            place: Place::Miter { left: true },
            u: left_fade(anti_alias),
            core: true,
        },
        Vertex {
            prev,
            point,
            place: Place::Miter { left: false },
            u: right_fade(anti_alias),
            core: true,
        },
    ]
}

/// The vertices of a bevelled join. The outer side, which is the right side
/// at a left turn, is cut straight from one edge normal to the other where
/// the point carries the bevel bit, and runs over the miter where it does
/// not. The inner side collapses to the miter, or to the two edge normals
/// where the point carries the inner-bevel bit.
pub open spec fn bevel_join_verts(
    prev: usize,
    point: usize,
    flags: u32,
    anti_alias: bool,
) -> Seq<Vertex> {
    let lu = left_fade(anti_alias);
    let ru = right_fade(anti_alias);
    let left = flags & POINT_LEFT != 0;
    let (i0, i1) = choose_bevel_spec(flags & POINT_INNER_BEVEL, left);
    let o0 = Place::Incoming { left: !left };
    let o1 = Place::Outgoing { left: !left };
    let om = Place::Miter { left: !left };
    let center = Vertex { prev, point, place: Place::Center, u: Fade::Half, core: true };
    if left {
        let a0 = Vertex { prev, point, place: i0, u: lu, core: true };
        let a1 = Vertex { prev, point, place: i1, u: lu, core: true };
        let b0 = Vertex { prev, point, place: o0, u: ru, core: true };
        let b1 = Vertex { prev, point, place: o1, u: ru, core: true };
        let bm = Vertex { prev, point, place: om, u: ru, core: true };
        if flags & POINT_BEVEL != 0 {
            seq![a0, b0, a0, b0, a1, b1, a1, b1]
        } else {
            seq![a0, b0, center, b0, bm, bm, center, b1, a1, b1]
        }
    } else {
        let a0 = Vertex { prev, point, place: o0, u: lu, core: true };
        let a1 = Vertex { prev, point, place: o1, u: lu, core: true };
        let am = Vertex { prev, point, place: om, u: lu, core: true };
        let b0 = Vertex { prev, point, place: i0, u: ru, core: true };
        let b1 = Vertex { prev, point, place: i1, u: ru, core: true };
        if flags & POINT_BEVEL != 0 {
            seq![a0, b0, a0, b0, a1, b1, a1, b1]
        } else {
            seq![a0, b0, a0, center, am, am, a1, center, a1, b1]
        }
    }
}

/// Number of arc steps of a round join: the swept steps, but at least two
/// and at most the divisions of a half circle.
pub open spec fn round_steps(arc: usize, ncap: usize) -> int {
    clamp_spec(arc as int, 2, ncap as int)
}

/// Vertex `k` of the fan of a round join of `steps` steps: the centre and
/// the arc take turns, the arc on the outer side.
pub open spec fn round_fan_vertex(
    prev: usize,
    point: usize,
    left: bool,
    steps: usize,
    anti_alias: bool,
    k: int,
) -> Vertex {
    let on_arc = Vertex {
        prev,
        point,
        place: Place::JoinArc { step: (k / 2) as usize, steps },
        u: if left {
            right_fade(anti_alias)
        } else {
            left_fade(anti_alias)
        },
        core: true,
    };
    let center = Vertex { prev, point, place: Place::Center, u: Fade::Half, core: true };
    if left == (k % 2 == 0) {
        center
    } else {
        on_arc
    }
}

/// The vertices of a round join: a pair at the arriving edge, a fan that
/// sweeps the outer side, a pair at the leaving edge.
pub open spec fn round_join_verts(
    prev: usize,
    point: usize,
    flags: u32,
    arc: usize,
    ncap: usize,
    anti_alias: bool,
) -> Seq<Vertex> {
    let lu = left_fade(anti_alias);
    let ru = right_fade(anti_alias);
    let left = flags & POINT_LEFT != 0;
    let steps = round_steps(arc, ncap) as usize;
    let (i0, i1) = choose_bevel_spec(flags & POINT_INNER_BEVEL, left);
    let o0 = Place::Incoming { left: !left };
    let o1 = Place::Outgoing { left: !left };
    let fan = Seq::new(
        (2 * steps) as nat,
        |k: int| round_fan_vertex(prev, point, left, steps, anti_alias, k),
    );
    if left {
        seq![
            Vertex { prev, point, place: i0, u: lu, core: true },
            Vertex { prev, point, place: o0, u: ru, core: true },
        ] + fan + seq![
            Vertex { prev, point, place: i1, u: lu, core: true },
            Vertex { prev, point, place: o1, u: ru, core: true },
        ]
    } else {
        seq![
            Vertex { prev, point, place: o0, u: lu, core: true },
            Vertex { prev, point, place: i0, u: ru, core: true },
        ] + fan + seq![
            Vertex { prev, point, place: o1, u: lu, core: true },
            Vertex { prev, point, place: i1, u: ru, core: true },
        ]
    }
}

/// The vertices of the join at one point.
pub open spec fn join_verts(
    prev: usize,
    point: usize,
    flags: u32,
    line_join: LineJoin,
    arc: usize,
    ncap: usize,
    anti_alias: bool,
) -> Seq<Vertex> {
    if needs_join(flags) {
        if line_join == LineJoin::Round {
            round_join_verts(prev, point, flags, arc, ncap, anti_alias)
        } else {
            bevel_join_verts(prev, point, flags, anti_alias)
        }
    } else {
        miter_join_verts(prev, point, anti_alias)
    }
}

/// The vertices of a butt or square cap at the start: the fringe pair, then
/// the core pair.
pub open spec fn butt_cap_start_verts(point: usize, square: bool, anti_alias: bool) -> Seq<Vertex> {
    let lu = left_fade(anti_alias);
    let ru = right_fade(anti_alias);
    seq![
        Vertex {
            prev: point,
            point,
            place: Place::StartCap { left: true, square },
            u: lu,
            core: false,
        },
        Vertex {
            prev: point,
            point,
            place: Place::StartCap { left: false, square },
            u: ru,
            core: false,
        },
        Vertex {
            prev: point,
            point,
            place: Place::StartCap { left: true, square },
            u: lu,
            core: true,
        },
        Vertex {
            prev: point,
            point,
            place: Place::StartCap { left: false, square },
            u: ru,
            core: true,
        },
    ]
}

/// The vertices of a butt or square cap at the end: the core pair, then the
/// fringe pair.
pub open spec fn butt_cap_end_verts(
    prev: usize,
    point: usize,
    square: bool,
    anti_alias: bool,
) -> Seq<Vertex> {
    let lu = left_fade(anti_alias);
    let ru = right_fade(anti_alias);
    seq![
        Vertex { prev, point, place: Place::EndCap { left: true, square }, u: lu, core: true },
        Vertex { prev, point, place: Place::EndCap { left: false, square }, u: ru, core: true },
        Vertex { prev, point, place: Place::EndCap { left: true, square }, u: lu, core: false },
        Vertex { prev, point, place: Place::EndCap { left: false, square }, u: ru, core: false },
    ]
}

/// Vertex `k` of the fan of a round cap at the start: the arc and the centre
/// take turns.
pub open spec fn round_cap_start_vertex(
    point: usize,
    ncap: usize,
    anti_alias: bool,
    k: int,
) -> Vertex {
    if k % 2 == 0 {
        Vertex {
            prev: point,
            point,
            place: Place::StartArc { step: (k / 2) as usize, steps: ncap },
            u: left_fade(anti_alias),
            core: true,
        }
    } else {
        Vertex { prev: point, point, place: Place::Center, u: Fade::Half, core: true }
    }
}

/// The vertices of a round cap at the start: the fan, then the pair on the
/// normal of the first edge.
pub open spec fn round_cap_start_verts(point: usize, ncap: usize, anti_alias: bool) -> Seq<Vertex> {
    Seq::new((2 * ncap) as nat, |k: int| round_cap_start_vertex(point, ncap, anti_alias, k)) + seq![
        Vertex {
            prev: point,
            point,
            place: Place::Outgoing { left: true },
            u: left_fade(anti_alias),
            core: true,
        },
        Vertex {
            prev: point,
            point,
            place: Place::Outgoing { left: false },
            u: right_fade(anti_alias),
            core: true,
        },
    ]
}

/// Vertex `k` of the fan of a round cap at the end: the centre and the arc
/// take turns.
pub open spec fn round_cap_end_vertex(
    prev: usize,
    point: usize,
    ncap: usize,
    anti_alias: bool,
    k: int,
) -> Vertex {
    if k % 2 == 0 {
        Vertex { prev, point, place: Place::Center, u: Fade::Half, core: true }
    } else {
        Vertex {
            prev,
            point,
            place: Place::EndArc { step: (k / 2) as usize, steps: ncap },
            u: left_fade(anti_alias),
            core: true,
        }
    }
}

/// The vertices of a round cap at the end: the pair on the normal of the
/// last edge, then the fan.
pub open spec fn round_cap_end_verts(
    prev: usize,
    point: usize,
    ncap: usize,
    anti_alias: bool,
) -> Seq<Vertex> {
    seq![
        Vertex {
            prev,
            point,
            place: Place::Incoming { left: true },
            u: left_fade(anti_alias),
            core: true,
        },
        Vertex {
            prev,
            point,
            place: Place::Incoming { left: false },
            u: right_fade(anti_alias),
            core: true,
        },
    ] + Seq::new((2 * ncap) as nat, |k: int| round_cap_end_vertex(prev, point, ncap, anti_alias, k))
}

/// The vertices of the cap at the start of an open sub-path.
pub open spec fn start_cap_verts(
    point: usize,
    line_cap: LineCap,
    ncap: usize,
    anti_alias: bool,
) -> Seq<Vertex> {
    match line_cap {
        LineCap::Butt => butt_cap_start_verts(point, false, anti_alias),
        LineCap::Square => butt_cap_start_verts(point, true, anti_alias),
        LineCap::Round => round_cap_start_verts(point, ncap, anti_alias),
    }
}

/// The vertices of the cap at the end of an open sub-path.
pub open spec fn end_cap_verts(
    prev: usize,
    point: usize,
    line_cap: LineCap,
    ncap: usize,
    anti_alias: bool,
) -> Seq<Vertex> {
    match line_cap {
        LineCap::Butt => butt_cap_end_verts(prev, point, false, anti_alias),
        LineCap::Square => butt_cap_end_verts(prev, point, true, anti_alias),
        LineCap::Round => round_cap_end_verts(prev, point, ncap, anti_alias),
    }
}

/// Divisions of a half circle, from the number that the tolerance asks for:
/// never fewer than two.
pub fn curve_divs(divisions: usize) -> (ncap: usize)
    ensures
        ncap == curve_divs_spec(divisions),
        ncap >= 2,
{
    if divisions < 2 {
        2
    } else {
        divisions
    }
}

/// Cross-stroke coordinates of the left and of the right side.
pub fn fades(anti_alias: bool) -> (sides: (Fade, Fade))
    ensures
        sides.0 == left_fade(anti_alias),
        sides.1 == right_fade(anti_alias),
{
    if anti_alias {
        (Fade::Zero, Fade::One)
    } else {
        (Fade::Half, Fade::Half)
    }
}

/// Picks the places of the two bevel ends on one side of a join.
pub fn choose_bevel(bevel: u32, left: bool) -> (ends: (Place, Place))
    ensures
        ends == choose_bevel_spec(bevel, left),
{
    if bevel != 0 {
        (Place::Incoming { left }, Place::Outgoing { left })
    } else {
        (Place::Miter { left }, Place::Miter { left })
    }
}

/// Appends one core vertex.
pub fn add_vert(verts: &mut Vec<Vertex>, prev: usize, point: usize, place: Place, u: Fade)
    ensures
        final(verts)@ == old(verts)@.push((Vertex { prev, point, place, u, core: true })),
{
    verts.push(Vertex { prev, point, place, u, core: true });
}

/// Appends the vertices of a bevelled join.
pub fn bevel_join(verts: &mut Vec<Vertex>, prev: usize, point: usize, flags: u32, anti_alias: bool)
    ensures
        final(verts)@ == old(verts)@ + bevel_join_verts(prev, point, flags, anti_alias),
{
    let (lu, ru) = fades(anti_alias);
    let left = flags & POINT_LEFT != 0;
    let (i0, i1) = choose_bevel(flags & POINT_INNER_BEVEL, left);
    let o0 = Place::Incoming { left: !left };
    let o1 = Place::Outgoing { left: !left };
    let om = Place::Miter { left: !left };
    if left {
        add_vert(verts, prev, point, i0, lu);
        add_vert(verts, prev, point, o0, ru);
        if flags & POINT_BEVEL != 0 {
            add_vert(verts, prev, point, i0, lu);
            add_vert(verts, prev, point, o0, ru);
            add_vert(verts, prev, point, i1, lu);
            add_vert(verts, prev, point, o1, ru);
        } else {
            add_vert(verts, prev, point, Place::Center, Fade::Half);
            add_vert(verts, prev, point, o0, ru);
            add_vert(verts, prev, point, om, ru);
            add_vert(verts, prev, point, om, ru);
            add_vert(verts, prev, point, Place::Center, Fade::Half);
            add_vert(verts, prev, point, o1, ru);
        }
        add_vert(verts, prev, point, i1, lu);
        add_vert(verts, prev, point, o1, ru);
    } else {
        add_vert(verts, prev, point, o0, lu);
        add_vert(verts, prev, point, i0, ru);
        if flags & POINT_BEVEL != 0 {
            add_vert(verts, prev, point, o0, lu);
            add_vert(verts, prev, point, i0, ru);
            add_vert(verts, prev, point, o1, lu);
            add_vert(verts, prev, point, i1, ru);
        } else {
            add_vert(verts, prev, point, o0, lu);
            add_vert(verts, prev, point, Place::Center, Fade::Half);
            add_vert(verts, prev, point, om, lu);
            add_vert(verts, prev, point, om, lu);
            add_vert(verts, prev, point, o1, lu);
            add_vert(verts, prev, point, Place::Center, Fade::Half);
        }
        add_vert(verts, prev, point, o1, lu);
        add_vert(verts, prev, point, i1, ru);
    }
    assert(verts@ =~= old(verts)@ + bevel_join_verts(prev, point, flags, anti_alias));
}

/// Appends the vertices of a round join.
pub fn round_join(
    verts: &mut Vec<Vertex>,
    prev: usize,
    point: usize,
    flags: u32,
    arc: usize,
    ncap: usize,
    anti_alias: bool,
)
    ensures
        final(verts)@ == old(verts)@ + round_join_verts(prev, point, flags, arc, ncap, anti_alias),
{
    let (lu, ru) = fades(anti_alias);
    let left = flags & POINT_LEFT != 0;
    let (i0, i1) = choose_bevel(flags & POINT_INNER_BEVEL, left);
    let o0 = Place::Incoming { left: !left };
    let o1 = Place::Outgoing { left: !left };
    let n: usize = clamp(arc, 2, ncap);
    let ghost head = if left {
        seq![
            Vertex { prev, point, place: i0, u: lu, core: true },
            Vertex { prev, point, place: o0, u: ru, core: true },
        ]
    } else {
        seq![
            Vertex { prev, point, place: o0, u: lu, core: true },
            Vertex { prev, point, place: i0, u: ru, core: true },
        ]
    };
    if left {
        add_vert(verts, prev, point, i0, lu);
        add_vert(verts, prev, point, o0, ru);
    } else {
        add_vert(verts, prev, point, o0, lu);
        add_vert(verts, prev, point, i0, ru);
    }
    assert(verts@ =~= old(verts)@ + head);
    let mut i: usize = 0;
    while i < n
        invariant
            0 <= i <= n,
            verts@ =~= old(verts)@ + head + Seq::new(
                (2 * i) as nat,
                |k: int| round_fan_vertex(prev, point, left, n, anti_alias, k),
            ),
            lu == left_fade(anti_alias),
            ru == right_fade(anti_alias),
        decreases n - i,
    {
        if left {
            add_vert(verts, prev, point, Place::Center, Fade::Half);
            add_vert(verts, prev, point, Place::JoinArc { step: i, steps: n }, ru);
        } else {
            add_vert(verts, prev, point, Place::JoinArc { step: i, steps: n }, lu);
            add_vert(verts, prev, point, Place::Center, Fade::Half);
        }
        i = i + 1;
    }
    if left {
        add_vert(verts, prev, point, i1, lu);
        add_vert(verts, prev, point, o1, ru);
    } else {
        add_vert(verts, prev, point, o1, lu);
        add_vert(verts, prev, point, i1, ru);
    }
    assert(verts@ =~= old(verts)@ + round_join_verts(prev, point, flags, arc, ncap, anti_alias));
}

/// Appends the vertices of a butt cap, or of a square one, at the start.
pub fn butt_cap_start(verts: &mut Vec<Vertex>, point: usize, square: bool, anti_alias: bool)
    ensures
        final(verts)@ == old(verts)@ + butt_cap_start_verts(point, square, anti_alias),
{
    let (lu, ru) = fades(anti_alias);
    verts.push(
        Vertex {
            prev: point,
            point,
            place: Place::StartCap { left: true, square },
            u: lu,
            core: false,
        },
    );
    verts.push(
        Vertex {
            prev: point,
            point,
            place: Place::StartCap { left: false, square },
            u: ru,
            core: false,
        },
    );
    add_vert(verts, point, point, Place::StartCap { left: true, square }, lu);
    add_vert(verts, point, point, Place::StartCap { left: false, square }, ru);
    assert(verts@ =~= old(verts)@ + butt_cap_start_verts(point, square, anti_alias));
}

/// Appends the vertices of a round cap at the start.
pub fn round_cap_start(verts: &mut Vec<Vertex>, point: usize, ncap: usize, anti_alias: bool)
    ensures
        final(verts)@ == old(verts)@ + round_cap_start_verts(point, ncap, anti_alias),
{
    let (lu, ru) = fades(anti_alias);
    let mut i: usize = 0;
    while i < ncap
        invariant
            0 <= i <= ncap,
            verts@ =~= old(verts)@ + Seq::new(
                (2 * i) as nat,
                |k: int| round_cap_start_vertex(point, ncap, anti_alias, k),
            ),
            lu == left_fade(anti_alias),
        decreases ncap - i,
    {
        add_vert(verts, point, point, Place::StartArc { step: i, steps: ncap }, lu);
        add_vert(verts, point, point, Place::Center, Fade::Half);
        i = i + 1;
    }
    add_vert(verts, point, point, Place::Outgoing { left: true }, lu);
    add_vert(verts, point, point, Place::Outgoing { left: false }, ru);
    assert(verts@ =~= old(verts)@ + round_cap_start_verts(point, ncap, anti_alias));
}

/// Appends the vertices of a butt cap, or of a square one, at the end.
pub fn butt_cap_end(
    verts: &mut Vec<Vertex>,
    prev: usize,
    point: usize,
    square: bool,
    anti_alias: bool,
)
    ensures
        final(verts)@ == old(verts)@ + butt_cap_end_verts(prev, point, square, anti_alias),
{
    let (lu, ru) = fades(anti_alias);
    add_vert(verts, prev, point, Place::EndCap { left: true, square }, lu);
    add_vert(verts, prev, point, Place::EndCap { left: false, square }, ru);
    verts.push(
        Vertex {
            prev,
            point,
            place: Place::EndCap { left: true, square },
            u: lu,
            core: false,
        },
    );
    verts.push(
        Vertex { prev, point, place: Place::EndCap { left: false, square }, u: ru, core: false },
    );
    assert(verts@ =~= old(verts)@ + butt_cap_end_verts(prev, point, square, anti_alias));
}

/// Appends the vertices of a round cap at the end.
pub fn round_cap_end(
    verts: &mut Vec<Vertex>,
    prev: usize,
    point: usize,
    ncap: usize,
    anti_alias: bool,
)
    ensures
        final(verts)@ == old(verts)@ + round_cap_end_verts(prev, point, ncap, anti_alias),
{
    let (lu, ru) = fades(anti_alias);
    add_vert(verts, prev, point, Place::Incoming { left: true }, lu);
    add_vert(verts, prev, point, Place::Incoming { left: false }, ru);
    let ghost head = seq![
        Vertex { prev, point, place: Place::Incoming { left: true }, u: lu, core: true },
        Vertex { prev, point, place: Place::Incoming { left: false }, u: ru, core: true },
    ];
    assert(verts@ =~= old(verts)@ + head);
    let mut i: usize = 0;
    while i < ncap
        invariant
            0 <= i <= ncap,
            verts@ =~= old(verts)@ + head + Seq::new(
                (2 * i) as nat,
                |k: int| round_cap_end_vertex(prev, point, ncap, anti_alias, k),
            ),
            lu == left_fade(anti_alias),
        decreases ncap - i,
    {
        add_vert(verts, prev, point, Place::Center, Fade::Half);
        add_vert(verts, prev, point, Place::EndArc { step: i, steps: ncap }, lu);
        i = i + 1;
    }
    assert(verts@ =~= old(verts)@ + round_cap_end_verts(prev, point, ncap, anti_alias));
}

/// Appends the vertices of the join at one point: a single pair where the
/// point carries neither bevel bit, a round or a bevelled join where it
/// carries one.
pub fn stroke_join(
    verts: &mut Vec<Vertex>,
    prev: usize,
    point: usize,
    flags: u32,
    line_join: LineJoin,
    arc: usize,
    ncap: usize,
    anti_alias: bool,
)
    ensures
        final(verts)@ == old(verts)@ + join_verts(
            prev,
            point,
            flags,
            line_join,
            arc,
            ncap,
            anti_alias,
        ),
{
    if (flags & (POINT_BEVEL | POINT_INNER_BEVEL)) != 0 {
        if line_join == LineJoin::Round {
            round_join(verts, prev, point, flags, arc, ncap, anti_alias);
        } else {
            bevel_join(verts, prev, point, flags, anti_alias);
        }
    } else {
        let (lu, ru) = fades(anti_alias);
        add_vert(verts, prev, point, Place::Miter { left: true }, lu);
        add_vert(verts, prev, point, Place::Miter { left: false }, ru);
        assert(verts@ =~= old(verts)@ + miter_join_verts(prev, point, anti_alias));
    }
}

} // verus!
