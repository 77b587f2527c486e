use rdraw::cache::{
    Direction, PathBuilder, PathCache, PathVertexRef, POINT_BEVEL, POINT_CORNER,
    POINT_INNER_BEVEL, POINT_LEFT,
};
use rdraw::flatten::{kept_points, must_reverse, reverse_points, AreaSign, PathShape};
use rdraw::canvas::Command;
use rdraw::style::Winding;

fn xs(cache: &PathCache<i32>) -> Vec<i32> {
    cache.points.iter().map(|p| p.x).collect()
}

fn polyline(points: &[(i32, i32)]) -> PathCache<i32> {
    let mut cache = PathCache::new(0);
    cache.add_path();
    for &(x, y) in points {
        cache.add_point(x, y, POINT_CORNER, false);
    }
    cache
}

#[test]
fn flag_bits_are_distinct() {
    assert_eq!(POINT_CORNER, 1);
    assert_eq!(POINT_LEFT, 2);
    assert_eq!(POINT_BEVEL, 4);
    assert_eq!(POINT_INNER_BEVEL, 8);
}

#[test]
fn new_cache_is_empty_and_well_formed() {
    let cache: PathCache<i32> = PathCache::new(0);
    assert!(cache.points.is_empty());
    assert!(cache.paths.is_empty());
    assert!(cache.verts.is_empty());
    assert!(cache.well_formed());
    assert!(cache.last_point().is_none());
}

#[test]
fn add_path_opens_an_empty_sub_path_at_the_end() {
    let mut cache = polyline(&[(1, 1), (2, 2)]);
    cache.add_path();
    assert_eq!(cache.paths.len(), 2);
    assert_eq!(
        cache.paths[1],
        PathBuilder {
            first: 2,
            count: 0,
            closed: false,
            winding: Winding::CCW,
            nbevel: 0,
            convex: false,
            stroke: None,
        }
    );
    assert!(cache.last_point().is_none());
}

#[test]
fn add_point_without_a_sub_path_does_nothing() {
    let mut cache: PathCache<i32> = PathCache::new(0);
    cache.add_point(3, 4, POINT_CORNER, false);
    cache.add_point(3, 4, POINT_CORNER, true);
    assert!(cache.points.is_empty());
    assert!(cache.paths.is_empty());
}

#[test]
fn add_point_stores_position_flags_and_nothing_measured() {
    let mut cache: PathCache<i32> = PathCache::new(-7);
    cache.add_path();
    cache.add_point(3, 4, POINT_CORNER, false);
    assert_eq!(cache.points.len(), 1);
    let p = cache.points[0];
    assert_eq!((p.x, p.y, p.flags), (3, 4, POINT_CORNER));
    assert_eq!((p.dx, p.dy, p.len, p.dmx, p.dmy), (-7, -7, -7, -7, -7));
    assert_eq!(cache.paths[0].count, 1);
    assert_eq!(cache.last_point().map(|p| (p.x, p.y)), Some((3, 4)));
}

#[test]
fn first_point_of_a_sub_path_is_never_merged() {
    let mut cache = polyline(&[(1, 1)]);
    cache.add_path();
    cache.add_point(1, 1, POINT_CORNER, true);
    assert_eq!(cache.points.len(), 2);
    assert_eq!(cache.paths[1].first, 1);
    assert_eq!(cache.paths[1].count, 1);
}

#[test]
fn coincident_point_merges_into_the_last_with_the_union_of_flags() {
    let mut cache: PathCache<i32> = PathCache::new(0);
    cache.add_path();
    cache.add_point(5, 6, POINT_CORNER, false);
    cache.add_point(5, 6, POINT_LEFT | POINT_BEVEL, true);
    assert_eq!(cache.points.len(), 1);
    assert_eq!(cache.paths[0].count, 1);
    let p = cache.points[0];
    assert_eq!((p.x, p.y), (5, 6));
    assert_eq!(p.flags, POINT_CORNER | POINT_LEFT | POINT_BEVEL);
}

#[test]
fn merging_keeps_the_stored_position() {
    let mut cache: PathCache<i32> = PathCache::new(0);
    cache.add_path();
    cache.add_point(5, 6, 0, false);
    cache.add_point(50, 60, POINT_CORNER, true);
    assert_eq!(cache.points.len(), 1);
    assert_eq!((cache.points[0].x, cache.points[0].y), (5, 6));
    assert_eq!(cache.points[0].flags, POINT_CORNER);
}

#[test]
fn merging_twice_is_merging_once() {
    let mut cache: PathCache<i32> = PathCache::new(0);
    cache.add_path();
    cache.add_point(5, 6, POINT_CORNER, false);
    cache.add_point(5, 6, POINT_CORNER, true);
    let once = (cache.points.len(), cache.points[0].flags, cache.paths[0].count);
    cache.add_point(5, 6, POINT_CORNER, true);
    assert_eq!((cache.points.len(), cache.points[0].flags, cache.paths[0].count), once);
}

#[test]
fn close_path_and_winding_touch_the_current_sub_path_only() {
    let mut cache = polyline(&[(0, 0), (1, 0)]);
    cache.add_path();
    cache.add_point(9, 9, POINT_CORNER, false);
    cache.close_path();
    cache.path_winding(Winding::CW);
    assert!(!cache.paths[0].closed);
    assert_eq!(cache.paths[0].winding, Winding::CCW);
    assert!(cache.paths[1].closed);
    assert_eq!(cache.paths[1].winding, Winding::CW);
    assert_eq!(xs(&cache), vec![0, 1, 9]);
}

#[test]
fn close_path_and_winding_without_a_sub_path_do_nothing() {
    let mut cache: PathCache<i32> = PathCache::new(0);
    cache.close_path();
    cache.path_winding(Winding::CW);
    assert!(cache.paths.is_empty());
}

#[test]
fn clear_keeps_the_vertex_buffer() {
    let mut cache = polyline(&[(0, 0), (1, 0)]);
    let measures = vec![
        rdraw::joins::JoinMeasure { dmx: 0, dmy: 0, left: false, inner: false, sharp: false, arc: 0 };
        2
    ];
    assert!(cache.expand_stroke(
        rdraw::style::LineCap::Butt,
        rdraw::style::LineJoin::Miter,
        2,
        true,
        &measures
    ));
    assert_eq!(cache.verts.len(), 8);
    cache.clear();
    assert!(cache.points.is_empty());
    assert!(cache.paths.is_empty());
    assert_eq!(cache.verts.len(), 8);
    assert!(cache.well_formed());
}

#[test]
fn finish_paths_wants_one_shape_per_sub_path() {
    let mut cache = polyline(&[(0, 0), (1, 0), (1, 1)]);
    let before = xs(&cache);
    assert!(!cache.finish_paths(&vec![]));
    assert_eq!(xs(&cache), before);
    assert_eq!(cache.paths[0].count, 3);
    assert!(!cache.paths[0].closed);
}

#[test]
fn ends_that_meet_drop_the_last_point_and_close() {
    let mut cache = polyline(&[(0, 0), (4, 0), (4, 4), (0, 0)]);
    let shape = PathShape { ends_meet: true, area: AreaSign::Zero };
    assert!(cache.finish_paths(&vec![shape]));
    assert_eq!(cache.paths[0].count, 3);
    assert!(cache.paths[0].closed);
    assert_eq!(cache.points.len(), 4);
    assert_eq!(xs(&cache), vec![0, 4, 4, 0]);
}

#[test]
fn a_single_point_is_left_alone() {
    let mut cache = polyline(&[(0, 0)]);
    let shape = PathShape { ends_meet: true, area: AreaSign::Negative };
    assert!(cache.finish_paths(&vec![shape]));
    assert_eq!(cache.paths[0].count, 1);
    assert!(!cache.paths[0].closed);
}

#[test]
fn an_empty_sub_path_is_left_alone() {
    let mut cache: PathCache<i32> = PathCache::new(0);
    cache.add_path();
    let shape = PathShape { ends_meet: true, area: AreaSign::Negative };
    assert!(cache.finish_paths(&vec![shape]));
    assert_eq!(cache.paths[0].count, 0);
    assert!(!cache.paths[0].closed);
}

#[test]
fn wrong_winding_reverses_the_points_in_place() {
    for (winding, area) in
        [(Winding::CCW, AreaSign::Negative), (Winding::CW, AreaSign::Positive)]
    {
        let mut cache = polyline(&[(1, 0), (2, 0), (3, 0), (4, 0)]);
        cache.path_winding(winding);
        assert!(cache.finish_paths(&vec![PathShape { ends_meet: false, area }]));
        assert_eq!(xs(&cache), vec![4, 3, 2, 1]);
        assert_eq!(cache.paths[0].count, 4);
        assert!(!cache.paths[0].closed);
    }
}

#[test]
fn right_winding_and_no_area_keep_the_order() {
    for (winding, area) in [
        (Winding::CCW, AreaSign::Positive),
        (Winding::CCW, AreaSign::Zero),
        (Winding::CW, AreaSign::Negative),
        (Winding::CW, AreaSign::Zero),
    ] {
        let mut cache = polyline(&[(1, 0), (2, 0), (3, 0)]);
        cache.path_winding(winding);
        assert!(cache.finish_paths(&vec![PathShape { ends_meet: false, area }]));
        assert_eq!(xs(&cache), vec![1, 2, 3]);
    }
}

#[test]
fn two_points_are_never_reversed() {
    let mut cache = polyline(&[(1, 0), (2, 0)]);
    assert!(cache.finish_paths(&vec![PathShape { ends_meet: false, area: AreaSign::Negative }]));
    assert_eq!(xs(&cache), vec![1, 2]);
}

#[test]
fn reversal_leaves_out_the_dropped_point_and_other_sub_paths() {
    let mut cache = polyline(&[(1, 0), (2, 0), (3, 0), (1, 0)]);
    cache.add_path();
    for x in [10, 20, 30] {
        cache.add_point(x, 0, POINT_CORNER, false);
    }
    let shapes = vec![
        PathShape { ends_meet: true, area: AreaSign::Negative },
        PathShape { ends_meet: false, area: AreaSign::Positive },
    ];
    assert!(cache.finish_paths(&shapes));
    assert_eq!(xs(&cache), vec![3, 2, 1, 1, 10, 20, 30]);
    assert_eq!((cache.paths[0].first, cache.paths[0].count), (0, 3));
    assert_eq!((cache.paths[1].first, cache.paths[1].count), (4, 3));
    assert!(cache.paths[0].closed);
    assert!(!cache.paths[1].closed);
    assert!(cache.well_formed());
}

#[test]
fn reversal_carries_the_flags_with_the_points() {
    let mut cache: PathCache<i32> = PathCache::new(0);
    cache.add_path();
    cache.add_point(1, 0, POINT_CORNER, false);
    cache.add_point(2, 0, 0, false);
    cache.add_point(3, 0, POINT_LEFT, false);
    assert!(cache.finish_paths(&vec![PathShape { ends_meet: false, area: AreaSign::Negative }]));
    let got: Vec<(i32, u32)> = cache.points.iter().map(|p| (p.x, p.flags)).collect();
    assert_eq!(got, vec![(3, POINT_LEFT), (2, 0), (1, POINT_CORNER)]);
}

#[test]
fn set_directions_stores_one_direction_per_point() {
    let mut cache = polyline(&[(1, 0), (2, 0)]);
    let directions =
        vec![Direction { dx: 5, dy: 6, len: 7 }, Direction { dx: 8, dy: 9, len: 10 }];
    assert!(cache.set_directions(&directions));
    assert_eq!((cache.points[0].dx, cache.points[0].dy, cache.points[0].len), (5, 6, 7));
    assert_eq!((cache.points[1].dx, cache.points[1].dy, cache.points[1].len), (8, 9, 10));
    assert_eq!(xs(&cache), vec![1, 2]);
    assert_eq!(cache.points[0].flags, POINT_CORNER);
    assert!(!cache.set_directions(&directions[..1].to_vec()));
    assert_eq!(cache.points[1].dx, 8);
}

#[test]
fn well_formed_tells_a_broken_cache() {
    let mut cache = polyline(&[(1, 0), (2, 0)]);
    assert!(cache.well_formed());
    cache.paths[0].count = 3;
    assert!(!cache.well_formed());
    cache.paths[0].count = 2;
    cache.paths[0].stroke = Some(PathVertexRef { first: 0, count: 1 });
    assert!(!cache.well_formed());
    cache.paths[0].stroke = None;
    cache.paths.push(PathBuilder { first: 1, ..cache.paths[0] });
    assert!(!cache.well_formed());
    cache.paths[1] = PathBuilder { first: usize::MAX, count: 2, ..cache.paths[0] };
    assert!(!cache.well_formed());
    cache.paths[1] = PathBuilder { first: 2, count: 0, ..cache.paths[0] };
    assert!(cache.well_formed());
}

#[test]
fn a_move_opens_a_sub_path_with_its_point() {
    let mut cache = polyline(&[(1, 1)]);
    assert!(cache.flatten_command(&Command::MoveTo(1, 1), true).is_none());
    assert_eq!(cache.paths.len(), 2);
    assert_eq!((cache.paths[1].first, cache.paths[1].count), (1, 1));
    assert_eq!(xs(&cache), vec![1, 1]);
    assert_eq!(cache.points[1].flags, POINT_CORNER);
}

#[test]
fn a_line_stores_a_corner_or_merges_it() {
    let mut cache = polyline(&[(1, 1)]);
    assert!(cache.flatten_command(&Command::LineTo(5, 1), false).is_none());
    assert!(cache.flatten_command(&Command::LineTo(5, 1), true).is_none());
    assert_eq!(xs(&cache), vec![1, 5]);
    assert_eq!(cache.paths[0].count, 2);
    assert_eq!(cache.points[1].flags, POINT_CORNER);
}

#[test]
fn a_line_without_a_sub_path_is_dropped() {
    let mut cache: PathCache<i32> = PathCache::new(0);
    assert!(cache.flatten_command(&Command::LineTo(5, 1), false).is_none());
    assert!(cache.points.is_empty());
}

#[test]
fn a_curve_is_handed_back_from_the_last_point_on() {
    let mut cache = polyline(&[(1, 2), (3, 4)]);
    let curve = cache.flatten_command(&Command::BezierTo(5, 6, 7, 8, 9, 10), true).unwrap();
    assert_eq!(
        (curve.x1, curve.y1, curve.x2, curve.y2, curve.x3, curve.y3, curve.x4, curve.y4),
        (3, 4, 5, 6, 7, 8, 9, 10)
    );
    assert_eq!(xs(&cache), vec![1, 3]);
    let mut empty: PathCache<i32> = PathCache::new(0);
    empty.add_path();
    assert!(empty.flatten_command(&Command::BezierTo(5, 6, 7, 8, 9, 10), false).is_none());
}

#[test]
fn close_and_winding_commands_mark_the_current_sub_path() {
    let mut cache = polyline(&[(1, 2), (3, 4)]);
    assert!(cache.flatten_command(&Command::Close, false).is_none());
    assert!(cache.flatten_command(&Command::Winding(Winding::CW), false).is_none());
    assert!(cache.paths[0].closed);
    assert_eq!(cache.paths[0].winding, Winding::CW);
    assert_eq!(xs(&cache), vec![1, 3]);
}

#[test]
fn kept_points_leave_out_a_last_point_that_repeats_the_first() {
    let record = |count| PathBuilder {
        first: 0,
        count,
        closed: false,
        winding: Winding::CCW,
        nbevel: 0,
        convex: false,
        stroke: None,
    };
    assert_eq!(kept_points(&record(0), true), 0);
    assert_eq!(kept_points(&record(1), true), 1);
    assert_eq!(kept_points(&record(2), true), 1);
    assert_eq!(kept_points(&record(5), true), 4);
    assert_eq!(kept_points(&record(5), false), 5);
}

#[test]
fn must_reverse_where_winding_and_area_disagree() {
    assert!(must_reverse(Winding::CCW, AreaSign::Negative));
    assert!(!must_reverse(Winding::CCW, AreaSign::Zero));
    assert!(!must_reverse(Winding::CCW, AreaSign::Positive));
    assert!(must_reverse(Winding::CW, AreaSign::Positive));
    assert!(!must_reverse(Winding::CW, AreaSign::Zero));
    assert!(!must_reverse(Winding::CW, AreaSign::Negative));
}

#[test]
fn reverse_points_turns_a_range_around() {
    let mut cache = polyline(&[(1, 0), (2, 0), (3, 0), (4, 0), (5, 0), (6, 0)]);
    reverse_points(&mut cache.points, 1, 4);
    assert_eq!(xs(&cache), vec![1, 5, 4, 3, 2, 6]);
    reverse_points(&mut cache.points, 0, 3);
    assert_eq!(xs(&cache), vec![4, 5, 1, 3, 2, 6]);
    reverse_points(&mut cache.points, 2, 1);
    reverse_points(&mut cache.points, 6, 0);
    assert_eq!(xs(&cache), vec![4, 5, 1, 3, 2, 6]);
}
