use chrono::{DateTime, NaiveDate, NaiveDateTime, TimeDelta};
use practice_tracker::time::{Span, Timestamp};

fn at(secs: i64, nanos: u32) -> Timestamp {
    Timestamp::new(secs, nanos).expect("a reading that chrono can hold")
}

fn naive(t: Timestamp) -> NaiveDateTime {
    DateTime::from_timestamp(t.secs(), t.nanos()).unwrap().naive_utc()
}

fn total_nanos(span: Span) -> i128 {
    (span.secs as i128) * 1_000_000_000 + (span.nanos as i128)
}

fn chrono_nanos(later: Timestamp, earlier: Timestamp) -> i128 {
    let delta: TimeDelta = naive(later).signed_duration_since(naive(earlier));
    (delta.num_seconds() as i128) * 1_000_000_000 + (delta.subsec_nanos() as i128)
}

/// The formula by which the library states the span between two readings.
fn stated_nanos(later: Timestamp, earlier: Timestamp) -> i128 {
    let later_of_day = later.secs().rem_euclid(86_400);
    let earlier_of_day = earlier.secs().rem_euclid(86_400);
    let leap: i128 = if later_of_day > earlier_of_day && earlier.nanos() >= 1_000_000_000 {
        1
    } else if later_of_day < earlier_of_day && later.nanos() >= 1_000_000_000 {
        -1
    } else {
        0
    };
    ((later.secs() as i128) - (earlier.secs() as i128) + leap) * 1_000_000_000
        + ((later.nanos() as i128) - (earlier.nanos() as i128))
}

#[test]
fn new_keeps_the_reading() {
    let t = at(1_431_648_000, 123_456_789);
    assert_eq!(t.secs(), 1_431_648_000);
    assert_eq!(t.nanos(), 123_456_789);
}

#[test]
fn new_accepts_what_chrono_accepts() {
    assert!(Timestamp::new(0, 0).is_some());
    assert!(Timestamp::new(-1, 999_999_999).is_some());
    assert!(Timestamp::new(8_210_266_876_799, 999_999_999).is_some());
    assert!(Timestamp::new(-8_334_601_228_800, 0).is_some());
}

#[test]
fn new_refuses_what_chrono_refuses() {
    assert!(Timestamp::new(i64::MAX, 0).is_none());
    assert!(Timestamp::new(i64::MIN, 0).is_none());
    assert!(Timestamp::new(8_210_266_876_800, 0).is_none());
    assert!(Timestamp::new(-8_334_601_228_801, 0).is_none());
    assert!(Timestamp::new(0, 2_000_000_000).is_none());
    // A leap second is told only in the last second of a minute.
    assert!(Timestamp::new(0, 1_000_000_000).is_none());
    assert!(Timestamp::new(59, 1_000_000_000).is_some());
    assert!(Timestamp::new(59, 1_999_999_999).is_some());
}

#[test]
fn new_agrees_with_chrono_on_samples() {
    let secs: [i64; 9] = [
        i64::MIN,
        -8_334_601_228_801,
        -8_334_601_228_800,
        -61,
        0,
        59,
        1_700_000_000,
        8_210_266_876_799,
        8_210_266_876_800,
    ];
    let nanos: [u32; 6] = [0, 1, 999_999_999, 1_000_000_000, 1_999_999_999, 2_000_000_000];
    for s in secs {
        for n in nanos {
            assert_eq!(
                Timestamp::new(s, n).is_some(),
                DateTime::from_timestamp(s, n).is_some(),
                "secs {} nanos {}",
                s,
                n
            );
        }
    }
}

#[test]
fn elapsed_is_the_difference_of_the_readings() {
    let earlier = at(1_700_000_000, 250_000_000);
    let later = at(1_700_000_240, 750_000_000);
    assert_eq!(later.elapsed_since(&earlier), Span { secs: 240, nanos: 500_000_000 });
    assert_eq!(earlier.elapsed_since(&later), Span { secs: -240, nanos: -500_000_000 });
    assert_eq!(later.elapsed_since(&later), Span { secs: 0, nanos: 0 });
}

#[test]
fn elapsed_borrows_from_the_seconds() {
    let earlier = at(100, 900_000_000);
    let later = at(102, 100_000_000);
    assert_eq!(later.elapsed_since(&earlier), Span { secs: 1, nanos: 200_000_000 });
    assert_eq!(earlier.elapsed_since(&later), Span { secs: -1, nanos: -200_000_000 });
}

#[test]
fn elapsed_counts_a_leap_second_as_chrono_does() {
    // 2015-06-30 23:59:60.5 and one hour before it.
    let leap = at(1_435_708_799, 1_500_000_000);
    let before = at(1_435_708_799 - 3_599, 0);
    assert_eq!(naive(before), NaiveDate::from_ymd_opt(2015, 6, 30).unwrap().and_hms_opt(23, 0, 0).unwrap());
    assert_eq!(leap.elapsed_since(&before), Span { secs: 3_600, nanos: 500_000_000 });
    // One hour into the next day.
    let after = at(1_435_708_800 + 3_600, 0);
    assert_eq!(after.elapsed_since(&leap), Span { secs: 3_599, nanos: 500_000_000 });
    // Later in the same day than a leap second.
    let minute_leap = at(1_435_700_000 - (1_435_700_000 % 60) + 59, 1_000_000_000);
    let soon = at(minute_leap.secs() + 1, 0);
    assert_eq!(soon.elapsed_since(&minute_leap), Span { secs: 1, nanos: 0 });
}

#[test]
fn elapsed_agrees_with_chrono_and_with_its_statement() {
    let readings: [(i64, u32); 12] = [
        (0, 0),
        (59, 1_000_000_000),
        (59, 1_999_999_999),
        (60, 0),
        (86_399, 1_500_000_000),
        (86_400, 0),
        (-1, 999_999_999),
        (-86_401, 1_250_000_000),
        (1_700_000_000, 1),
        (1_700_000_300, 1),
        (8_210_266_876_799, 1_999_999_999),
        (-8_334_601_228_800, 0),
    ];
    for a in readings {
        for b in readings {
            let later = at(a.0, a.1);
            let earlier = at(b.0, b.1);
            let span = later.elapsed_since(&earlier);
            assert_eq!(total_nanos(span), chrono_nanos(later, earlier), "{:?} {:?}", a, b);
            assert_eq!(total_nanos(span), stated_nanos(later, earlier), "{:?} {:?}", a, b);
            assert!(span.nanos.abs() < 1_000_000_000);
            assert!(total_nanos(span) < 0 || span.nanos >= 0);
            assert!(total_nanos(span) >= 0 || span.nanos <= 0);
        }
    }
}

#[test]
fn exceeds_minutes_is_strict() {
    assert!(!Span { secs: 300, nanos: 0 }.exceeds_minutes(5));
    assert!(Span { secs: 300, nanos: 1 }.exceeds_minutes(5));
    assert!(!Span { secs: 299, nanos: 999_999_999 }.exceeds_minutes(5));
    assert!(Span { secs: 301, nanos: 0 }.exceeds_minutes(5));
    assert!(!Span { secs: -301, nanos: 0 }.exceeds_minutes(5));
    assert!(Span { secs: 0, nanos: 1 }.exceeds_minutes(0));
    assert!(!Span { secs: 0, nanos: 0 }.exceeds_minutes(0));
    assert!(!Span { secs: i64::MAX, nanos: 0 }.exceeds_minutes(u32::MAX) || i64::MAX / 60 > u32::MAX as i64);
    assert!(!Span { secs: i64::MIN, nanos: -999_999_999 }.exceeds_minutes(0));
}

#[test]
fn format_writes_date_and_time() {
    let t = at(1_441_497_364, 0);
    assert_eq!(t.format("%Y-%m-%d %H:%M:%S"), Some(String::from("2015-09-05 23:56:04")));
    assert_eq!(t.format("%Y"), Some(String::from("2015")));
    assert_eq!(at(0, 0).format("%Y-%m-%d %H:%M:%S"), Some(String::from("1970-01-01 00:00:00")));
}

#[test]
fn format_agrees_with_chrono() {
    let t = at(1_700_000_000, 123_000_000);
    let expected = naive(t).format("%Y-%m-%d %H:%M:%S%.3f").to_string();
    assert_eq!(t.format("%Y-%m-%d %H:%M:%S%.3f"), Some(expected));
}

#[test]
fn format_refuses_a_pattern_that_cannot_be_applied() {
    let t = at(1_441_497_364, 0);
    // There is no zone to write.
    assert_eq!(t.format("%z"), None);
    // An unknown specifier.
    assert_eq!(t.format("%Q"), None);
}
