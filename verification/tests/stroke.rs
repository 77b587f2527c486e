use rdraw::cache::{
    PathBuilder, PathCache, PathVertexRef, POINT_BEVEL, POINT_CORNER, POINT_INNER_BEVEL, POINT_LEFT,
};
use rdraw::expand::path_vertex_reserve;
use rdraw::joins::JoinMeasure;
use rdraw::stroke::{
    add_vert, bevel_join, butt_cap_end, butt_cap_start, choose_bevel, curve_divs, fades,
    round_cap_end, round_cap_start, round_join, stroke_join, Fade, Place, Vertex,
};
use rdraw::style::{LineCap, LineJoin, Winding};

const C: Place = Place::Center;
const ML: Place = Place::Miter { left: true };
const MR: Place = Place::Miter { left: false };
const IL: Place = Place::Incoming { left: true };
const IR: Place = Place::Incoming { left: false };
const OL: Place = Place::Outgoing { left: true };
const OR: Place = Place::Outgoing { left: false };

fn shape(verts: &[Vertex]) -> Vec<(Place, Fade)> {
    verts.iter().map(|v| (v.place, v.u)).collect()
}

fn measure(left: bool, inner: bool, sharp: bool, arc: usize) -> JoinMeasure<i32> {
    JoinMeasure { dmx: 0, dmy: 0, left, inner, sharp, arc }
}

fn path(count: usize, nbevel: usize, closed: bool) -> PathBuilder {
    PathBuilder {
        first: 0,
        count,
        closed,
        winding: Winding::CCW,
        nbevel,
        convex: false,
        stroke: None,
    }
}

fn polyline(n: usize, closed: bool) -> PathCache<i32> {
    let mut cache = PathCache::new(0);
    cache.add_path();
    for k in 0..n {
        cache.add_point(k as i32, 0, POINT_CORNER, false);
    }
    if closed {
        cache.close_path();
    }
    cache
}

#[test]
fn curve_divs_is_floored_at_two() {
    assert_eq!(curve_divs(0), 2);
    assert_eq!(curve_divs(1), 2);
    assert_eq!(curve_divs(2), 2);
    assert_eq!(curve_divs(6), 6);
    assert_eq!(curve_divs(usize::MAX), usize::MAX);
}

#[test]
fn fades_collapse_without_anti_aliasing() {
    assert_eq!(fades(true), (Fade::Zero, Fade::One));
    assert_eq!(fades(false), (Fade::Half, Fade::Half));
}

#[test]
fn choose_bevel_picks_normals_or_the_miter() {
    assert_eq!(choose_bevel(POINT_INNER_BEVEL, true), (IL, OL));
    assert_eq!(choose_bevel(POINT_INNER_BEVEL, false), (IR, OR));
    assert_eq!(choose_bevel(0, true), (ML, ML));
    assert_eq!(choose_bevel(0, false), (MR, MR));
}

#[test]
fn add_vert_appends_a_core_vertex() {
    let mut verts = Vec::new();
    add_vert(&mut verts, 3, 4, C, Fade::Half);
    assert_eq!(verts, vec![Vertex { prev: 3, point: 4, place: C, u: Fade::Half, core: true }]);
}

#[test]
fn a_plain_join_is_one_pair_on_the_miter() {
    let mut verts = Vec::new();
    stroke_join(&mut verts, 0, 1, POINT_CORNER | POINT_LEFT, LineJoin::Round, 9, 6, true);
    assert_eq!(shape(&verts), vec![(ML, Fade::Zero), (MR, Fade::One)]);
    assert!(verts.iter().all(|v| v.prev == 0 && v.point == 1 && v.core));
}

#[test]
fn stroke_join_picks_round_or_bevel_by_the_join_kind() {
    let flags = POINT_CORNER | POINT_BEVEL;
    let mut rounded = Vec::new();
    stroke_join(&mut rounded, 0, 1, flags, LineJoin::Round, 3, 6, true);
    let mut expected = Vec::new();
    round_join(&mut expected, 0, 1, flags, 3, 6, true);
    assert_eq!(rounded, expected);
    for join in [LineJoin::Bevel, LineJoin::Miter] {
        let mut cut = Vec::new();
        stroke_join(&mut cut, 0, 1, flags, join, 3, 6, true);
        let mut expected = Vec::new();
        bevel_join(&mut expected, 0, 1, flags, true);
        assert_eq!(cut, expected);
    }
}

#[test]
fn bevel_join_at_a_left_turn_with_a_bevel() {
    let mut verts = Vec::new();
    bevel_join(&mut verts, 0, 1, POINT_LEFT | POINT_BEVEL, true);
    let (l, r) = (Fade::Zero, Fade::One);
    assert_eq!(
        shape(&verts),
        vec![(ML, l), (IR, r), (ML, l), (IR, r), (ML, l), (OR, r), (ML, l), (OR, r)]
    );
}

#[test]
fn bevel_join_at_a_left_turn_with_an_inner_bevel_only() {
    let mut verts = Vec::new();
    bevel_join(&mut verts, 0, 1, POINT_LEFT | POINT_INNER_BEVEL, true);
    let (l, r, h) = (Fade::Zero, Fade::One, Fade::Half);
    assert_eq!(
        shape(&verts),
        vec![
            (IL, l),
            (IR, r),
            (C, h),
            (IR, r),
            (MR, r),
            (MR, r),
            (C, h),
            (OR, r),
            (OL, l),
            (OR, r)
        ]
    );
}

#[test]
fn bevel_join_at_a_right_turn_with_a_bevel() {
    let mut verts = Vec::new();
    bevel_join(&mut verts, 0, 1, POINT_BEVEL | POINT_INNER_BEVEL, true);
    let (l, r) = (Fade::Zero, Fade::One);
    assert_eq!(
        shape(&verts),
        vec![(IL, l), (IR, r), (IL, l), (IR, r), (OL, l), (OR, r), (OL, l), (OR, r)]
    );
}

#[test]
fn bevel_join_at_a_right_turn_without_a_bevel() {
    let mut verts = Vec::new();
    bevel_join(&mut verts, 0, 1, POINT_INNER_BEVEL, false);
    let h = Fade::Half;
    assert_eq!(
        shape(&verts),
        vec![
            (IL, h),
            (IR, h),
            (IL, h),
            (C, h),
            (ML, h),
            (ML, h),
            (OL, h),
            (C, h),
            (OL, h),
            (OR, h)
        ]
    );
    let mut miter = Vec::new();
    bevel_join(&mut miter, 0, 1, 0, false);
    assert_eq!(miter[1].place, MR);
    assert_eq!(miter[9].place, MR);
}

#[test]
fn round_join_at_a_left_turn_fans_on_the_right() {
    let mut verts = Vec::new();
    round_join(&mut verts, 4, 5, POINT_LEFT | POINT_BEVEL, 3, 6, true);
    let (l, r, h) = (Fade::Zero, Fade::One, Fade::Half);
    let arc = |step| Place::JoinArc { step, steps: 3 };
    assert_eq!(
        shape(&verts),
        vec![
            (ML, l),
            (IR, r),
            (C, h),
            (arc(0), r),
            (C, h),
            (arc(1), r),
            (C, h),
            (arc(2), r),
            (ML, l),
            (OR, r)
        ]
    );
    assert!(verts.iter().all(|v| v.prev == 4 && v.point == 5 && v.core));
}

#[test]
fn round_join_at_a_right_turn_fans_on_the_left() {
    let mut verts = Vec::new();
    round_join(&mut verts, 4, 5, POINT_BEVEL | POINT_INNER_BEVEL, 2, 6, true);
    let (l, r, h) = (Fade::Zero, Fade::One, Fade::Half);
    let arc = |step| Place::JoinArc { step, steps: 2 };
    assert_eq!(
        shape(&verts),
        vec![(IL, l), (IR, r), (arc(0), l), (C, h), (arc(1), l), (C, h), (OL, l), (OR, r)]
    );
}

#[test]
fn round_join_steps_are_clamped_between_two_and_the_divisions() {
    for (arc, ncap, steps) in [(0, 6, 2), (1, 6, 2), (2, 6, 2), (5, 6, 5), (6, 6, 6), (7, 6, 6), (900, 6, 6)]
    {
        let mut verts = Vec::new();
        round_join(&mut verts, 0, 1, POINT_LEFT | POINT_BEVEL, arc, ncap, true);
        assert_eq!(verts.len(), 2 * steps + 4);
        assert_eq!(verts[3].place, Place::JoinArc { step: 0, steps });
    }
}

#[test]
fn butt_and_square_caps_are_a_fringe_pair_and_a_core_pair() {
    for square in [false, true] {
        let mut start = Vec::new();
        butt_cap_start(&mut start, 7, square, true);
        let l = Place::StartCap { left: true, square };
        let r = Place::StartCap { left: false, square };
        assert_eq!(
            start,
            vec![
                Vertex { prev: 7, point: 7, place: l, u: Fade::Zero, core: false },
                Vertex { prev: 7, point: 7, place: r, u: Fade::One, core: false },
                Vertex { prev: 7, point: 7, place: l, u: Fade::Zero, core: true },
                Vertex { prev: 7, point: 7, place: r, u: Fade::One, core: true },
            ]
        );
        let mut end = Vec::new();
        butt_cap_end(&mut end, 8, 9, square, true);
        let l = Place::EndCap { left: true, square };
        let r = Place::EndCap { left: false, square };
        assert_eq!(
            end,
            vec![
                Vertex { prev: 8, point: 9, place: l, u: Fade::Zero, core: true },
                Vertex { prev: 8, point: 9, place: r, u: Fade::One, core: true },
                Vertex { prev: 8, point: 9, place: l, u: Fade::Zero, core: false },
                Vertex { prev: 8, point: 9, place: r, u: Fade::One, core: false },
            ]
        );
    }
}

#[test]
fn round_caps_fan_around_the_end_point() {
    let mut start = Vec::new();
    round_cap_start(&mut start, 7, 3, true);
    let arc = |step| Place::StartArc { step, steps: 3 };
    assert_eq!(
        shape(&start),
        vec![
            (arc(0), Fade::Zero),
            (C, Fade::Half),
            (arc(1), Fade::Zero),
            (C, Fade::Half),
            (arc(2), Fade::Zero),
            (C, Fade::Half),
            (OL, Fade::Zero),
            (OR, Fade::One)
        ]
    );
    assert!(start.iter().all(|v| v.prev == 7 && v.point == 7 && v.core));
    let mut end = Vec::new();
    round_cap_end(&mut end, 8, 9, 2, true);
    let arc = |step| Place::EndArc { step, steps: 2 };
    assert_eq!(
        shape(&end),
        vec![
            (IL, Fade::Zero),
            (IR, Fade::One),
            (C, Fade::Half),
            (arc(0), Fade::Zero),
            (C, Fade::Half),
            (arc(1), Fade::Zero)
        ]
    );
    assert!(end.iter().all(|v| v.prev == 8 && v.point == 9 && v.core));
}

#[test]
fn reserve_of_a_sub_path_follows_the_formula() {
    // (count + nbevel * 5 + 1) * 2, and 12 for the caps of an open sub-path.
    assert_eq!(path_vertex_reserve(&path(4, 3, true), LineCap::Butt, LineJoin::Miter, 6), Some(40));
    assert_eq!(path_vertex_reserve(&path(4, 3, false), LineCap::Butt, LineJoin::Bevel, 6), Some(52));
    assert_eq!(path_vertex_reserve(&path(4, 3, false), LineCap::Square, LineJoin::Miter, 6), Some(52));
    // (count + nbevel * (ncap + 2) + 1) * 2 for round joins.
    assert_eq!(path_vertex_reserve(&path(4, 3, true), LineCap::Butt, LineJoin::Round, 6), Some(58));
    // (ncap * 2 + 2) * 2 for round caps.
    assert_eq!(path_vertex_reserve(&path(4, 3, false), LineCap::Round, LineJoin::Round, 6), Some(86));
    assert_eq!(path_vertex_reserve(&path(0, 0, true), LineCap::Round, LineJoin::Round, 6), Some(2));
    assert_eq!(path_vertex_reserve(&path(0, 0, false), LineCap::Butt, LineJoin::Miter, 6), Some(14));
}

#[test]
fn reserve_that_cannot_be_held_is_none() {
    let max = usize::MAX;
    assert_eq!(path_vertex_reserve(&path(max, 0, true), LineCap::Butt, LineJoin::Miter, 2), None);
    assert_eq!(path_vertex_reserve(&path(2, max / 2, true), LineCap::Butt, LineJoin::Miter, 2), None);
    assert_eq!(path_vertex_reserve(&path(2, 1, true), LineCap::Butt, LineJoin::Round, max), None);
    assert_eq!(path_vertex_reserve(&path(2, 0, true), LineCap::Butt, LineJoin::Round, max), Some(6));
    assert_eq!(path_vertex_reserve(&path(2, 0, false), LineCap::Round, LineJoin::Miter, max), None);
    assert_eq!(path_vertex_reserve(&path(2, 0, false), LineCap::Butt, LineJoin::Round, max), Some(18));
    assert_eq!(
        path_vertex_reserve(&path(max / 2 - 1, 0, true), LineCap::Butt, LineJoin::Miter, 2),
        Some(max - 1)
    );
}

#[test]
fn reserve_of_a_cache_is_the_sum_over_its_sub_paths() {
    let mut cache: PathCache<i32> = PathCache::new(0);
    assert_eq!(cache.vertex_reserve(LineCap::Butt, LineJoin::Miter, 6), Some(0));
    cache.paths.push(path(4, 3, true));
    cache.paths.push(path(4, 3, false));
    assert_eq!(cache.vertex_reserve(LineCap::Butt, LineJoin::Miter, 6), Some(92));
    cache.paths.push(path(usize::MAX / 2 - 1, 0, true));
    assert_eq!(cache.vertex_reserve(LineCap::Butt, LineJoin::Miter, 6), None);
}

#[test]
fn expand_wants_one_measure_per_point() {
    let mut cache = polyline(3, false);
    cache.verts.push(Vertex { prev: 0, point: 0, place: C, u: Fade::Half, core: true });
    assert!(!cache.expand_stroke(LineCap::Butt, LineJoin::Miter, 6, true, &vec![measure(true, false, false, 0); 2]));
    assert_eq!(cache.verts.len(), 1);
    assert_eq!(cache.paths[0].stroke, None);
    assert_eq!(cache.points[1].flags, POINT_CORNER);
}

#[test]
fn an_open_sub_path_is_cap_joins_cap() {
    let mut cache = polyline(3, false);
    let m = vec![measure(true, false, false, 0); 3];
    assert!(cache.expand_stroke(LineCap::Butt, LineJoin::Miter, 6, true, &m));
    let mut expected = Vec::new();
    butt_cap_start(&mut expected, 0, false, true);
    stroke_join(&mut expected, 0, 1, POINT_CORNER | POINT_LEFT, LineJoin::Miter, 0, 6, true);
    butt_cap_end(&mut expected, 1, 2, false, true);
    assert_eq!(cache.verts, expected);
    assert_eq!(cache.verts.len(), 10);
    assert_eq!(cache.paths[0].stroke, Some(PathVertexRef { first: 0, count: 10 }));
    assert!(cache.well_formed());
}

#[test]
fn square_and_round_caps_are_built_too() {
    let m = vec![measure(true, false, false, 0); 2];
    let mut cache = polyline(2, false);
    assert!(cache.expand_stroke(LineCap::Square, LineJoin::Miter, 6, true, &m));
    let mut expected = Vec::new();
    butt_cap_start(&mut expected, 0, true, true);
    butt_cap_end(&mut expected, 0, 1, true, true);
    assert_eq!(cache.verts, expected);

    let mut cache = polyline(2, false);
    assert!(cache.expand_stroke(LineCap::Round, LineJoin::Miter, 6, true, &m));
    let mut expected = Vec::new();
    round_cap_start(&mut expected, 0, 6, true);
    round_cap_end(&mut expected, 0, 1, 6, true);
    assert_eq!(cache.verts, expected);
    assert_eq!(cache.verts.len(), 28);
    assert_eq!(cache.vertex_reserve(LineCap::Round, LineJoin::Miter, 6), Some(34));
}

#[test]
fn a_closed_sub_path_is_a_ring_closed_by_its_first_two_vertices() {
    let mut cache = polyline(3, true);
    let m = vec![measure(true, false, false, 0); 3];
    assert!(cache.expand_stroke(LineCap::Round, LineJoin::Miter, 6, false, &m));
    let mut expected = Vec::new();
    let flags = POINT_CORNER | POINT_LEFT;
    stroke_join(&mut expected, 2, 0, flags, LineJoin::Miter, 0, 6, false);
    stroke_join(&mut expected, 0, 1, flags, LineJoin::Miter, 0, 6, false);
    stroke_join(&mut expected, 1, 2, flags, LineJoin::Miter, 0, 6, false);
    expected.push(expected[0]);
    expected.push(expected[1]);
    assert_eq!(cache.verts, expected);
    assert_eq!(cache.verts.len(), 8);
    assert!(cache.verts.iter().all(|v| v.u == Fade::Half && v.core));
}

#[test]
fn each_ring_is_closed_by_its_own_first_two_vertices() {
    let mut cache = polyline(3, true);
    cache.add_path();
    for k in 0..3 {
        cache.add_point(10 + k, 0, POINT_CORNER, false);
    }
    cache.close_path();
    let m = vec![measure(true, false, false, 0); 6];
    assert!(cache.expand_stroke(LineCap::Butt, LineJoin::Miter, 6, true, &m));
    assert_eq!(cache.verts.len(), 16);
    assert_eq!(cache.paths[1].stroke, Some(PathVertexRef { first: 8, count: 8 }));
    assert_eq!(cache.verts[14], cache.verts[8]);
    assert_eq!(cache.verts[15], cache.verts[9]);
    assert_eq!((cache.verts[14].prev, cache.verts[14].point), (5, 3));
    assert_eq!((cache.verts[6].prev, cache.verts[6].point), (2, 0));
}

#[test]
fn short_sub_paths_have_no_mesh() {
    let mut cache = polyline(1, true);
    cache.add_path();
    cache.add_path();
    cache.add_point(5, 5, POINT_CORNER, false);
    cache.add_point(6, 5, POINT_CORNER, false);
    let m = vec![measure(true, true, true, 0); 3];
    assert!(cache.expand_stroke(LineCap::Butt, LineJoin::Miter, 6, true, &m));
    assert_eq!(cache.paths[0].stroke, Some(PathVertexRef { first: 0, count: 0 }));
    assert_eq!(cache.paths[1].stroke, Some(PathVertexRef { first: 0, count: 0 }));
    assert_eq!(cache.paths[2].stroke, Some(PathVertexRef { first: 0, count: 8 }));
    assert_eq!(cache.verts.len(), 8);
}

#[test]
fn divisions_below_two_count_as_two() {
    let m = vec![measure(true, false, false, 0); 2];
    let mut low = polyline(2, false);
    assert!(low.expand_stroke(LineCap::Round, LineJoin::Round, 0, true, &m));
    let mut two = polyline(2, false);
    assert!(two.expand_stroke(LineCap::Round, LineJoin::Round, 2, true, &m));
    assert_eq!(low.verts, two.verts);
    assert_eq!(low.verts.len(), 12);
}

#[test]
fn expanding_again_overwrites_the_mesh() {
    let mut cache = polyline(3, false);
    let m = vec![measure(true, false, false, 0); 3];
    assert!(cache.expand_stroke(LineCap::Round, LineJoin::Miter, 6, true, &m));
    assert!(cache.expand_stroke(LineCap::Butt, LineJoin::Miter, 6, true, &m));
    assert_eq!(cache.verts.len(), 10);
    assert_eq!(cache.paths[0].stroke, Some(PathVertexRef { first: 0, count: 10 }));
}

#[test]
fn the_mesh_never_outgrows_what_is_set_aside() {
    let joins = [LineJoin::Miter, LineJoin::Bevel, LineJoin::Round];
    let caps = [LineCap::Butt, LineCap::Square, LineCap::Round];
    for n in 0..6usize {
        for closed in [false, true] {
            for bits in 0..8u32 {
                for arc in [0usize, 3, 50] {
                    for ncap in [0usize, 2, 5] {
                        for join in joins {
                            for cap in caps {
                                let mut cache = polyline(n, closed);
                                let m = vec![
                                    measure(bits & 1 != 0, bits & 2 != 0, bits & 4 != 0, arc);
                                    n
                                ];
                                assert!(cache.expand_stroke(cap, join, ncap, true, &m));
                                let ncap = curve_divs(ncap);
                                let set_aside = cache.vertex_reserve(cap, join, ncap).unwrap();
                                assert!(cache.verts.len() <= set_aside);
                                let own =
                                    path_vertex_reserve(&cache.paths[0], cap, join, ncap).unwrap();
                                assert!(cache.paths[0].stroke.unwrap().count <= own);
                                assert_eq!(cache.verts.len() % 2, 0);
                                for v in cache.verts.iter() {
                                    assert!(v.prev < n && v.point < n);
                                    match v.place {
                                        Place::JoinArc { step, steps }
                                        | Place::StartArc { step, steps }
                                        | Place::EndArc { step, steps } => {
                                            assert!(step < steps && steps >= 2)
                                        }
                                        Place::StartCap { .. } | Place::EndCap { .. } => {}
                                        _ => assert!(v.core),
                                    }
                                }
                            }
                        }
                    }
                }
            }
        }
    }
}

#[test]
fn a_closed_ring_of_round_joins_fills_what_is_set_aside() {
    let mut cache = polyline(3, true);
    let m = vec![measure(true, false, true, 50); 3];
    assert!(cache.expand_stroke(LineCap::Butt, LineJoin::Round, 4, true, &m));
    assert_eq!(cache.paths[0].nbevel, 3);
    // three joins of 2 * 4 + 4 vertices and the closing pair
    assert_eq!(cache.verts.len(), 38);
    // (3 + 3 * (4 + 2) + 1) * 2
    assert_eq!(cache.vertex_reserve(LineCap::Butt, LineJoin::Round, 4), Some(44));
}

#[test]
fn every_vertex_names_points_of_its_own_sub_path() {
    let mut cache = polyline(3, true);
    cache.add_path();
    for k in 0..4 {
        cache.add_point(10 + k, 0, POINT_CORNER, false);
    }
    let m = vec![measure(true, true, true, 3); 7];
    assert!(cache.expand_stroke(LineCap::Round, LineJoin::Round, 4, true, &m));
    for path in cache.paths.iter() {
        let r = path.stroke.unwrap();
        for v in &cache.verts[r.first..r.first + r.count] {
            assert!(path.first <= v.prev && v.prev < path.first + path.count);
            assert!(path.first <= v.point && v.point < path.first + path.count);
        }
    }
}

#[test]
fn has_edges_from_two_points_on() {
    assert!(!path(0, 0, false).has_edges());
    assert!(!path(1, 0, true).has_edges());
    assert!(path(2, 0, false).has_edges());
}
