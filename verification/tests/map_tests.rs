use std::collections::VecDeque;

use vsrg_renderer::constants::{beat_snap_divisor, snap_index_for, JudgementType, DEFAULT_TIMING_GROUP_ID};
use vsrg_renderer::map::{
    assign_default_timing_groups, beat_snap_timing_points, beat_snaps, cumulative_positions,
    get_key_count, lane_index, measure_beats, record_previous_position, scroll_speed_factor_span,
    FactorSpan, GameMode, MapError, Mods, TimeSignature,
};

/// 48ths of a beat between a note and its timing point, as the renderer rounds them.
fn snap_numbers(note_times: &[f64], timing_point_start: f64, bpm: f64) -> Vec<u32> {
    let beat_length = 60000f64 / bpm;
    note_times
        .iter()
        .map(|t| (48.0 * (t - timing_point_start) / beat_length).round() as u32)
        .collect()
}

#[test]
fn test_get_key_count() {
    assert_eq!(get_key_count(&GameMode::Keys4, false, true), 4);
    assert_eq!(get_key_count(&GameMode::Keys4, true, false), 4);
    assert_eq!(get_key_count(&GameMode::Keys4, true, true), 5);
}

#[test]
fn key_count_of_seven_keys() {
    assert_eq!(get_key_count(&GameMode::Keys7, false, false), 7);
    assert_eq!(get_key_count(&GameMode::Keys7, true, true), 8);
    assert_eq!(get_key_count(&GameMode::default(), false, false), 4);
}

#[test]
fn test_initialize_beat_snaps() {
    let note_times = [0.0, 20.0, 62.5, 125.0, 250.0];
    // one timing point at 0 ms, 120 BPM
    let timing_points: Vec<i64> = vec![0];
    let note_keys: Vec<i64> = vec![0, 20, 62, 125, 250];
    let chosen = beat_snap_timing_points(&timing_points, &note_keys).unwrap();
    assert_eq!(chosen, vec![0, 0, 0, 0, 0]);

    let numbers = snap_numbers(&note_times, 0.0, 120.0);
    let snaps = beat_snaps(&numbers);
    assert_eq!(snaps, vec![0, 8, 5, 3, 1]);
}

#[test]
fn test_initialize_beat_snaps_no_timing_points() {
    let timing_points: Vec<i64> = Vec::new();
    let result = beat_snap_timing_points(&timing_points, &[500i64]);
    assert!(result.is_err());
    assert_eq!(result, Err(MapError::NoTimingPoints));
}

#[test]
fn beat_snaps_use_active_timing_point_or_first() {
    let timing_points: Vec<i64> = vec![100, 200, 200, 300];
    let notes: Vec<i64> = vec![50, 100, 150, 200, 250, 300, 400];
    let chosen = beat_snap_timing_points(&timing_points, &notes).unwrap();
    assert_eq!(chosen, vec![0, 0, 0, 2, 2, 3, 3]);
    let none: Vec<i64> = Vec::new();
    assert_eq!(beat_snap_timing_points(&timing_points, &none), Ok(vec![]));
}

#[test]
fn snap_index_is_first_dividing_snap() {
    assert_eq!(snap_index_for(0), 0);
    assert_eq!(snap_index_for(48), 0);
    assert_eq!(snap_index_for(24), 1);
    assert_eq!(snap_index_for(16), 2);
    assert_eq!(snap_index_for(36), 3);
    assert_eq!(snap_index_for(8), 4);
    assert_eq!(snap_index_for(6), 5);
    assert_eq!(snap_index_for(4), 6);
    assert_eq!(snap_index_for(3), 7);
    assert_eq!(snap_index_for(1), 8);
    assert_eq!(snap_index_for(47), 8);
    assert_eq!(snap_index_for(u32::MAX), 7);
    assert_eq!(snap_index_for(u32::MAX - 1), 8);
    let divisors: Vec<u32> = (0..9).map(beat_snap_divisor).collect();
    assert_eq!(divisors, vec![48, 24, 16, 12, 8, 6, 4, 3, 1]);
}

#[test]
fn lane_index_mirrors_lanes() {
    assert_eq!(lane_index(1, 4, false), 0);
    assert_eq!(lane_index(4, 4, false), 3);
    assert_eq!(lane_index(1, 4, true), 3);
    assert_eq!(lane_index(4, 4, true), 0);
    for lane in 1..=7 {
        assert_eq!(lane_index(lane, 7, true), lane_index(8 - lane, 7, false));
    }
}

#[test]
fn notes_without_group_join_default_group() {
    let mut groups = vec![None, Some("slow".to_string()), None, Some(DEFAULT_TIMING_GROUP_ID.to_string())];
    assign_default_timing_groups(&mut groups);
    assert_eq!(
        groups,
        vec![
            Some("$Default".to_string()),
            Some("slow".to_string()),
            Some("$Default".to_string()),
            Some("$Default".to_string()),
        ]
    );
    let again = groups.clone();
    assign_default_timing_groups(&mut groups);
    assert_eq!(groups, again);
}

#[test]
fn previous_positions_fill_then_roll() {
    let mut previous: VecDeque<i64> = VecDeque::new();
    record_previous_position(&mut previous, 7);
    assert_eq!(previous, VecDeque::from(vec![7; 10]));
    record_previous_position(&mut previous, 9);
    let mut expected = vec![9];
    expected.extend(vec![7; 9]);
    assert_eq!(previous, VecDeque::from(expected));

    let mut short: VecDeque<i64> = VecDeque::from(vec![1, 2, 3]);
    record_previous_position(&mut short, 5);
    assert_eq!(short, VecDeque::from(vec![5, 5, 5, 5, 5, 5, 5, 5, 1, 2]));

    let mut long: VecDeque<i64> = (0..12).collect();
    record_previous_position(&mut long, -1);
    let expected: VecDeque<i64> = std::iter::once(-1).chain(0..11).collect();
    assert_eq!(long, expected);
}

#[test]
fn cumulative_positions_add_up_distances() {
    assert_eq!(cumulative_positions(150, &[]), vec![150]);
    assert_eq!(cumulative_positions(100, &[50, -20, 0, 300]), vec![100, 150, 130, 130, 430]);
}

#[test]
fn scroll_speed_factor_span_cases() {
    let points: Vec<i64> = vec![0, 1000];
    assert_eq!(scroll_speed_factor_span(&points, -1), FactorSpan::BeforeFirst);
    assert_eq!(scroll_speed_factor_span(&points, 0), FactorSpan::Between(0));
    assert_eq!(scroll_speed_factor_span(&points, 999), FactorSpan::Between(0));
    assert_eq!(scroll_speed_factor_span(&points, 1000), FactorSpan::Last(1));
    let none: Vec<i64> = Vec::new();
    assert_eq!(scroll_speed_factor_span(&none, 5), FactorSpan::BeforeFirst);
}

#[test]
fn time_signatures_and_defaults() {
    assert_eq!(measure_beats(Some(TimeSignature::Quadruple)), 4);
    assert_eq!(measure_beats(Some(TimeSignature::Triple)), 3);
    assert_eq!(measure_beats(None), 4);
    assert_eq!(TimeSignature::Triple.beats(), 3);
    let mods = Mods::default();
    assert!(!mods.mirror && !mods.no_sv && !mods.no_ssf);
}

#[test]
fn map_error_messages() {
    assert_eq!(
        MapError::DefaultTimingGroupMissing.message(),
        "Default timing group '$Default' not found"
    );
    assert_eq!(MapError::NoTimingPoints.message(), "Cannot initialize beat snaps without timing points");
}

#[test]
fn judgement_names() {
    let names: Vec<String> = [
        JudgementType::Marvelous,
        JudgementType::Perfect,
        JudgementType::Great,
        JudgementType::Good,
        JudgementType::Okay,
        JudgementType::Miss,
    ]
    .iter()
    .map(|j| j.to_string())
    .collect();
    assert_eq!(names, vec!["Marvelous", "Perfect", "Great", "Good", "Okay", "Miss"]);
}
