use practice_tracker::admission::{should_log, LogSample, ADMISSION_WINDOW_MINUTES};
use practice_tracker::time::Timestamp;

fn at(secs: i64, nanos: u32) -> Timestamp {
    Timestamp::new(secs, nanos).expect("a reading that chrono can hold")
}

const T: i64 = 1_700_000_000;

#[test]
fn window_is_five_minutes() {
    assert_eq!(ADMISSION_WINDOW_MINUTES, 5);
}

#[test]
fn first_sample_is_logged() {
    assert!(should_log(120, at(T, 0), None));
}

#[test]
fn unchanged_tempo_after_four_minutes_is_not_logged() {
    let previous = LogSample { bpm: 120, timestamp: at(T, 0) };
    assert!(!should_log(120, at(T + 4 * 60, 0), Some(previous)));
}

#[test]
fn unchanged_tempo_after_six_minutes_is_logged() {
    let previous = LogSample { bpm: 120, timestamp: at(T, 0) };
    assert!(should_log(120, at(T + 6 * 60, 0), Some(previous)));
}

#[test]
fn unchanged_tempo_at_exactly_five_minutes_is_not_logged() {
    let previous = LogSample { bpm: 120, timestamp: at(T, 500) };
    assert!(!should_log(120, at(T + 300, 500), Some(previous)));
    assert!(should_log(120, at(T + 300, 501), Some(previous)));
    assert!(!should_log(120, at(T + 300, 499), Some(previous)));
}

#[test]
fn changed_tempo_after_one_second_is_logged() {
    let previous = LogSample { bpm: 120, timestamp: at(T, 0) };
    assert!(should_log(121, at(T + 1, 0), Some(previous)));
    assert!(should_log(119, at(T + 1, 0), Some(previous)));
    assert!(should_log(-120, at(T + 1, 0), Some(previous)));
}

#[test]
fn changed_tempo_is_logged_at_the_same_instant_and_before() {
    let previous = LogSample { bpm: 120, timestamp: at(T, 0) };
    assert!(should_log(90, at(T, 0), Some(previous)));
    assert!(should_log(90, at(T - 1_000, 0), Some(previous)));
}

#[test]
fn unchanged_tempo_from_an_earlier_time_is_not_logged() {
    let previous = LogSample { bpm: 120, timestamp: at(T, 0) };
    assert!(!should_log(120, at(T - 1_000, 0), Some(previous)));
    assert!(!should_log(120, at(T, 0), Some(previous)));
}
