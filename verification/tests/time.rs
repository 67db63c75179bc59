//! Spans and moments, at their edges and in words.

use jobmanager::time::{Duration, Moment, TimeDelta, FIRST_MOMENT_SECS, LAST_MOMENT_SECS};

fn moment(secs: i64, nanos: u32) -> Moment {
    Moment::from_timestamp(secs, nanos).expect("the test moment must be dated")
}

fn millis(count: i64) -> TimeDelta {
    TimeDelta::from_millis(count).expect("the test span must be one")
}

#[test]
fn a_span_is_its_seconds_and_the_rest() {
    let span = Duration::new(3, 456_789_012).unwrap();

    assert_eq!(span.as_secs(), 3);
    assert_eq!(span.subsec_nanos(), 456_789_012);
    assert_eq!(span.as_nanos(), 3_456_789_012);
    assert_eq!(span.as_millis(), 3456);
    assert_eq!(Duration::new(0, 1_000_000_000), None);
    assert_eq!(Duration::from_millis(3456), Duration::new(3, 456_000_000).unwrap());
    assert_eq!(Duration::from_nanos(5_000_000_007), Duration::new(5, 7).unwrap());
}

#[test]
fn spans_add_and_multiply_up_to_the_longest() {
    let longest = Duration::longest();

    assert_eq!(longest.as_secs(), u64::MAX);
    assert_eq!(longest.subsec_nanos(), 999_999_999);
    assert_eq!(longest.checked_add(&Duration::from_nanos(1)), None);
    assert_eq!(longest.checked_add(&Duration::zero()), Some(longest));
    assert_eq!(longest.checked_mul(2), None);
    assert_eq!(
        Duration::from_millis(700).checked_add(&Duration::from_millis(600)),
        Some(Duration::from_millis(1300))
    );
    assert_eq!(Duration::from_millis(700).checked_mul(3), Some(Duration::from_millis(2100)));
    assert_eq!(
        Duration::from_millis(700).saturating_sub(&Duration::from_millis(600)),
        Duration::from_millis(100)
    );
    assert_eq!(
        Duration::from_millis(600).saturating_sub(&Duration::from_millis(700)),
        Duration::zero()
    );
}

#[test]
fn a_span_gets_a_sign_where_milliseconds_can_count_it() {
    assert_eq!(TimeDelta::from_std(Duration::from_millis(1500)), Some(millis(1500)));
    assert_eq!(TimeDelta::from_std(Duration::longest()), None);

    let longest = Duration::new(9_223_372_036_854_775, 807_000_000).unwrap();
    assert_eq!(TimeDelta::from_std(longest), Some(millis(i64::MAX)));
    let beyond = longest.checked_add(&Duration::from_nanos(1)).unwrap();
    assert_eq!(TimeDelta::from_std(beyond), None);
    assert_eq!(TimeDelta::from_millis(i64::MIN), None);
}

#[test]
fn whole_milliseconds_drop_the_rest() {
    assert_eq!(millis(-1500).num_milliseconds(), -1500);
    assert_eq!(millis(i64::MAX).num_milliseconds(), i64::MAX);
    let span = TimeDelta::from_std(Duration::from_nanos(1_999_999)).unwrap();
    assert_eq!(span.num_milliseconds(), 1);
    assert_eq!(TimeDelta::zero().num_milliseconds(), 0);
}

#[test]
fn a_moment_moves_by_a_span_either_way() {
    assert_eq!(moment(10, 500_000_000).checked_add_signed(millis(1500)), Some(moment(12, 0)));
    assert_eq!(moment(10, 0).checked_add_signed(millis(-1)), Some(moment(9, 999_000_000)));
    assert_eq!(moment(0, 0).checked_add_signed(millis(-500)), Some(moment(-1, 500_000_000)));
}

#[test]
fn moments_end_where_dates_do() {
    let first = moment(FIRST_MOMENT_SECS, 0);
    let last = moment(LAST_MOMENT_SECS, 999_999_999);

    assert_eq!(Moment::from_timestamp(FIRST_MOMENT_SECS - 1, 0), None);
    assert_eq!(Moment::from_timestamp(LAST_MOMENT_SECS + 1, 0), None);
    assert_eq!(Moment::from_timestamp(0, 1_000_000_000), None);
    assert_eq!(first.checked_add_signed(millis(-1)), None);
    assert_eq!(last.checked_add_signed(millis(1)), None);
    assert_eq!(last.checked_add_signed(millis(-1)), Some(moment(LAST_MOMENT_SECS, 998_999_999)));
    assert_eq!(first.checked_add_signed(millis(i64::MAX)), None);
    assert!(last.duration_since(&first).is_some());
}

#[test]
fn the_time_between_two_moments_is_none_backwards() {
    let earlier = moment(100, 250_000_000);
    let later = moment(103, 0);

    assert_eq!(later.duration_since(&earlier), Some(Duration::from_millis(2750)));
    assert_eq!(earlier.duration_since(&later), None);
    assert_eq!(earlier.duration_since(&earlier), Some(Duration::zero()));
    assert_eq!(later.saturating_duration_since(&earlier), Duration::from_millis(2750));
    assert_eq!(earlier.saturating_duration_since(&later), Duration::zero());
    assert_eq!(later.earlier(earlier), earlier);
    assert!(later.is_after(&earlier));
    assert!(!earlier.is_after(&earlier));
}

#[test]
fn a_moment_reads_as_a_date() {
    let new_year = moment(1_893_553_445, 0);

    assert_eq!(new_year.to_text(), "2030-01-02 03:04:05 UTC");
    assert_eq!(new_year.to_debug_text(), "2030-01-02T03:04:05Z");
    assert_eq!(moment(0, 5_000_000).to_text(), "1970-01-01 00:00:00.005 UTC");
}

#[test]
fn the_clock_reads_the_time() {
    let system = std::time::SystemTime::now()
        .duration_since(std::time::UNIX_EPOCH)
        .unwrap()
        .as_secs() as i64;

    let read = Moment::now();

    assert!((system - 1..=system + 5).contains(&read.timestamp()), "{read:?}");
    assert_eq!(Moment::from_timestamp(read.timestamp(), read.subsec_nanos()), Some(read));
}
