use now_playing::position::{has_moved, nanos_to_ticks, parse_positions, ticks_to_nanos};
use now_playing::position::{PositionTracker, CHANGE_THRESHOLD_NANOS, NANOS_PER_TICK};

const SECOND: i64 = 1_000_000_000;

fn nanos(seconds: f64) -> i64 {
    (seconds * 1e9).round() as i64
}

#[test]
fn threshold_is_one_microsecond() {
    assert_eq!(CHANGE_THRESHOLD_NANOS, 1_000);
    assert_eq!(NANOS_PER_TICK, 100);
}

#[test]
fn first_sample_reports_nothing_and_stores_everything() {
    let mut tracker = PositionTracker::new();
    assert_eq!(tracker.last_position(0), None);
    assert_eq!(tracker.sample(&vec![10 * SECOND, 20 * SECOND]), None);
    assert_eq!(tracker.last_position(0), Some(10 * SECOND));
    assert_eq!(tracker.last_position(1), Some(20 * SECOND));
    assert_eq!(tracker.last_position(2), None);
}

#[test]
fn change_above_threshold_is_reported() {
    let mut tracker = PositionTracker::new();
    assert_eq!(tracker.sample(&vec![nanos(10.0), nanos(20.0)]), None);
    assert_eq!(tracker.sample(&vec![nanos(10.0), nanos(20.0001)]), Some(20_000_100_000));
    assert_eq!(tracker.last_position(1), Some(20_000_100_000));
}

#[test]
fn change_below_threshold_is_not_reported_but_stored() {
    let mut tracker = PositionTracker::new();
    assert_eq!(tracker.sample(&vec![nanos(10.0)]), None);
    assert_eq!(tracker.sample(&vec![10_000_000_499]), None);
    assert_eq!(tracker.last_position(0), Some(10_000_000_499));
}

#[test]
fn change_of_exactly_the_threshold_is_not_reported() {
    let mut tracker = PositionTracker::new();
    assert_eq!(tracker.sample(&vec![5 * SECOND]), None);
    assert_eq!(tracker.sample(&vec![5 * SECOND + 1_000]), None);
    assert_eq!(tracker.sample(&vec![5 * SECOND + 2_001]), Some(5 * SECOND + 2_001));
}

#[test]
fn backward_change_is_reported() {
    let mut tracker = PositionTracker::new();
    assert_eq!(tracker.sample(&vec![50 * SECOND]), None);
    assert_eq!(tracker.sample(&vec![0]), Some(0));
}

#[test]
fn first_changed_slot_wins_and_all_slots_are_stored() {
    let mut tracker = PositionTracker::new();
    assert_eq!(tracker.sample(&vec![1 * SECOND, 2 * SECOND, 3 * SECOND]), None);
    assert_eq!(
        tracker.sample(&vec![1 * SECOND, 4 * SECOND, 5 * SECOND]),
        Some(4 * SECOND)
    );
    assert_eq!(tracker.last_position(0), Some(1 * SECOND));
    assert_eq!(tracker.last_position(1), Some(4 * SECOND));
    assert_eq!(tracker.last_position(2), Some(5 * SECOND));
    assert_eq!(tracker.sample(&vec![1 * SECOND, 4 * SECOND, 5 * SECOND]), None);
}

#[test]
fn empty_sample_reports_nothing_and_changes_nothing() {
    let mut tracker = PositionTracker::new();
    assert_eq!(tracker.sample(&vec![7 * SECOND]), None);
    assert_eq!(tracker.sample(&Vec::new()), None);
    assert_eq!(tracker.last_position(0), Some(7 * SECOND));
}

#[test]
fn shorter_sample_keeps_the_slots_it_does_not_reach() {
    let mut tracker = PositionTracker::new();
    assert_eq!(tracker.sample(&vec![1 * SECOND, 2 * SECOND]), None);
    assert_eq!(tracker.sample(&vec![1 * SECOND]), None);
    assert_eq!(tracker.last_position(1), Some(2 * SECOND));
    assert_eq!(tracker.sample(&vec![1 * SECOND, 9 * SECOND]), Some(9 * SECOND));
}

#[test]
fn new_slot_is_not_a_change() {
    let mut tracker = PositionTracker::new();
    assert_eq!(tracker.sample(&vec![1 * SECOND]), None);
    assert_eq!(tracker.sample(&vec![1 * SECOND, 30 * SECOND]), None);
    assert_eq!(tracker.last_position(1), Some(30 * SECOND));
}

#[test]
fn extreme_positions_do_not_overflow() {
    let mut tracker = PositionTracker::new();
    assert_eq!(tracker.sample(&vec![i64::MIN]), None);
    assert_eq!(tracker.sample(&vec![i64::MAX]), Some(i64::MAX));
    assert!(has_moved(i64::MIN, i64::MAX));
    assert!(has_moved(i64::MAX, i64::MIN));
    assert!(!has_moved(i64::MAX, i64::MAX));
}

#[test]
fn has_moved_at_the_threshold() {
    assert!(!has_moved(0, 1_000));
    assert!(has_moved(0, 1_001));
    assert!(!has_moved(1_000, 0));
    assert!(has_moved(1_001, 0));
}

#[test]
fn raw_sample_detects_change() {
    let mut tracker = PositionTracker::new();
    assert_eq!(tracker.sample_raw("10.0\n20.0\n"), None);
    assert_eq!(tracker.sample_raw("10.0\n20.0001\n"), Some(20_000_100_000));
}

#[test]
fn raw_sample_below_threshold() {
    let mut tracker = PositionTracker::new();
    assert_eq!(tracker.sample_raw("10.0"), None);
    assert_eq!(tracker.sample_raw("10.000000499"), None);
    assert_eq!(tracker.last_position(0), Some(10_000_000_499));
}

#[test]
fn malformed_line_discards_the_whole_sample() {
    let mut tracker = PositionTracker::new();
    assert_eq!(tracker.sample_raw("10.0\n20.0\n30.0"), None);
    assert_eq!(tracker.sample_raw("99.0\nnotanumber\n77.0"), None);
    assert_eq!(tracker.last_position(0), Some(10 * SECOND));
    assert_eq!(tracker.last_position(1), Some(20 * SECOND));
    assert_eq!(tracker.last_position(2), Some(30 * SECOND));
    assert_eq!(tracker.sample_raw("notanumber\n20.0\n30.0"), None);
    assert_eq!(tracker.sample_raw("10.0\n20.0\nnotanumber"), None);
    assert_eq!(tracker.last_position(0), Some(10 * SECOND));
    assert_eq!(tracker.sample_raw("10.0\n25.0\n30.0"), Some(25 * SECOND));
}

#[test]
fn blank_line_inside_a_sample_is_malformed() {
    let mut tracker = PositionTracker::new();
    assert_eq!(tracker.sample_raw("10.0"), None);
    assert_eq!(tracker.sample_raw("50.0\n\n60.0"), None);
    assert_eq!(tracker.last_position(0), Some(10 * SECOND));
    assert_eq!(tracker.last_position(1), None);
}

#[test]
fn empty_raw_sample_is_an_empty_sample() {
    let mut tracker = PositionTracker::new();
    assert_eq!(tracker.sample_raw("10.0"), None);
    assert_eq!(tracker.sample_raw("  \n "), None);
    assert_eq!(tracker.last_position(0), Some(10 * SECOND));
    assert_eq!(parse_positions(""), Some(Vec::new()));
}

#[test]
fn parse_positions_reads_each_line() {
    assert_eq!(
        parse_positions(" 1.5\r\n 2 \n-3.25\n"),
        Some(vec![1_500_000_000, 2_000_000_000, -3_250_000_000])
    );
    assert_eq!(parse_positions("1.5\nx"), None);
}

#[test]
fn seek_round_trip_through_ticks() {
    let position = nanos(123.456);
    assert_eq!(position, 123_456_000_000);
    let ticks = nanos_to_ticks(position);
    assert_eq!(ticks, 1_234_560_000);
    let back = ticks_to_nanos(ticks);
    assert_eq!(back, Some(123_456_000_000));
    assert!((back.unwrap() - position).abs() < 100);
}

#[test]
fn ticks_round_toward_zero() {
    assert_eq!(nanos_to_ticks(0), 0);
    assert_eq!(nanos_to_ticks(99), 0);
    assert_eq!(nanos_to_ticks(100), 1);
    assert_eq!(nanos_to_ticks(199), 1);
    assert_eq!(nanos_to_ticks(-99), 0);
    assert_eq!(nanos_to_ticks(-100), -1);
    assert_eq!(nanos_to_ticks(-199), -1);
    assert_eq!(nanos_to_ticks(i64::MAX), 92_233_720_368_547_758);
    assert_eq!(nanos_to_ticks(i64::MIN), -92_233_720_368_547_758);
}

#[test]
fn ticks_to_nanos_multiplies_or_refuses() {
    assert_eq!(ticks_to_nanos(0), Some(0));
    assert_eq!(ticks_to_nanos(7), Some(700));
    assert_eq!(ticks_to_nanos(-7), Some(-700));
    assert_eq!(ticks_to_nanos(92_233_720_368_547_758), Some(9_223_372_036_854_775_800));
    assert_eq!(ticks_to_nanos(92_233_720_368_547_759), None);
    assert_eq!(ticks_to_nanos(-92_233_720_368_547_758), Some(-9_223_372_036_854_775_800));
    assert_eq!(ticks_to_nanos(-92_233_720_368_547_759), None);
    assert_eq!(ticks_to_nanos(i64::MAX), None);
}

#[test]
fn tick_round_trip_stays_within_one_tick() {
    for position in [0_i64, 1, 99, 100, 101, 12_345_678_901, -1, -99, -101, i64::MAX, i64::MIN] {
        let back = ticks_to_nanos(nanos_to_ticks(position)).unwrap();
        assert!((back as i128 - position as i128).abs() < 100);
        assert_eq!(nanos_to_ticks(back), nanos_to_ticks(position));
    }
}
