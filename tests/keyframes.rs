use clipwave::keyframes::{
    keyframe_times_from_json, lossless_preflight_report, pick_keyframe, read_intervals, round_to_millis,
    in_point_needs_search, KeyframeSearch, SearchStep, Side,
};

#[test]
fn preflight_at_zero_has_no_shift() {
    assert!(!in_point_needs_search(0));
    let r = lossless_preflight_report(0, 10_000_000, (None, None), (Some(8_000_000), Some(12_000_000)));
    assert_eq!(r.nearest_keyframe_us, Some(0));
    assert_eq!(r.next_keyframe_us, Some(0));
    assert_eq!(r.start_shift_us, Some(0));
}

#[test]
fn preflight_shift_is_the_bracket_gap() {
    assert!(in_point_needs_search(5_000_000));
    let r = lossless_preflight_report(
        5_000_000,
        9_000_000,
        (Some(4_000_000), Some(6_000_000)),
        (Some(8_000_000), Some(10_000_000)),
    );
    assert_eq!(r.start_shift_us, Some(1_000_000));
    assert_eq!(r.end_shift_us, Some(1_000_000));
    assert_eq!(r.out_prev_keyframe_us, Some(8_000_000));
}

#[test]
fn preflight_end_on_keyframe_has_no_shift() {
    let r = lossless_preflight_report(1, 9_000_000, (None, None), (Some(9_000_000), Some(9_000_001)));
    assert_eq!(r.end_shift_us, Some(0));
    assert_eq!(r.start_shift_us, None);
}

#[test]
fn intervals_clip_at_zero_and_widen() {
    assert_eq!(read_intervals(5_000_000, Side::AtOrBefore, 0), "0.000000%5.000000");
    assert_eq!(read_intervals(700_500_000, Side::AtOrBefore, 1), "100.500000%700.500000");
    assert_eq!(read_intervals(5_000_000, Side::AtOrAfter, 2), "5.000000%3605.000000");
}

#[test]
fn picking_keyframes_on_each_side() {
    let times = vec![6_000_000, 2_000_000, 4_000_000];
    assert_eq!(pick_keyframe(&times, 5_000_000, Side::AtOrBefore), Some(6_000_000));
    assert_eq!(pick_keyframe(&times, 3_000_000, Side::AtOrAfter), Some(4_000_000));
    assert_eq!(pick_keyframe(&times, 3_999_999, Side::AtOrAfter), Some(4_000_000));
    assert_eq!(pick_keyframe(&times, 4_000_001, Side::AtOrAfter), Some(4_000_000));
    assert_eq!(pick_keyframe(&times, 7_000_000, Side::AtOrAfter), None);
    assert_eq!(pick_keyframe(&Vec::new(), 7_000_000, Side::AtOrBefore), None);
}

#[test]
fn rounding_to_milliseconds() {
    assert_eq!(round_to_millis(4_004_499), 4_004_000);
    assert_eq!(round_to_millis(4_004_500), 4_005_000);
    assert_eq!(round_to_millis(-21_333), -21_000);
    assert_eq!(round_to_millis(-21_500), -22_000);
}

#[test]
fn search_stops_at_first_window_with_a_keyframe() {
    let (mut s, q) = KeyframeSearch::start(5_000_000, Side::AtOrBefore);
    assert_eq!(q, "0.000000%5.000000");
    let step = s.advance(Some(Vec::new()));
    assert_eq!(step, SearchStep::Query("0.000000%5.000000".to_string()));
    assert_eq!(s.window, 1);
    let step = s.advance(Some(vec![1_000_000, 4_004_400]));
    assert_eq!(step, SearchStep::Found(4_004_000));
}

#[test]
fn search_gives_up_after_the_widest_window() {
    let (mut s, _) = KeyframeSearch::start(1_000_000_000, Side::AtOrAfter);
    assert_eq!(s.advance(None), SearchStep::Query("1000.000000%1600.000000".to_string()));
    assert_eq!(s.advance(Some(vec![1_000])), SearchStep::Query("1000.000000%4600.000000".to_string()));
    assert_eq!(s.advance(None), SearchStep::NotFound);
}

#[test]
fn keyframe_times_are_read_from_frames() {
    let json = br#"{"frames":[{"best_effort_timestamp_time":"4.004000"},{"pkt_pts":1},{"best_effort_timestamp_time":"-0.021333"},{"best_effort_timestamp_time":"N/A"}]}"#;
    assert_eq!(keyframe_times_from_json(json).unwrap(), vec![4_004_000, -21_333]);
    assert!(keyframe_times_from_json(b"").is_err());
    assert_eq!(keyframe_times_from_json(b"{}").unwrap(), Vec::<i64>::new());
}
