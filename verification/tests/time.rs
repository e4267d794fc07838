use order::time::{from_system_time, within_timeout, ClockTime};

fn after(secs: u64, nanos: u32) -> ClockTime {
    ClockTime { before_epoch: false, secs, nanos }
}

fn before(secs: u64, nanos: u32) -> ClockTime {
    ClockTime { before_epoch: true, secs, nanos }
}

#[test]
fn timestamps_count_whole_milliseconds() {
    assert_eq!(from_system_time(after(0, 0)), 0);
    assert_eq!(from_system_time(after(1, 999_999)), 1_000);
    assert_eq!(from_system_time(after(1_700_000_000, 123_456_789)), 1_700_000_000_123);
}

#[test]
fn timestamps_before_the_epoch_round_towards_it() {
    assert_eq!(from_system_time(before(0, 999_999)), 0);
    assert_eq!(from_system_time(before(0, 1_000_000)), -1);
    assert_eq!(from_system_time(before(2, 500_999_999)), -2_500);
}

#[test]
fn timestamps_keep_to_their_range() {
    let last: u64 = i64::MAX as u64;
    assert_eq!(from_system_time(after(last, 0)), i64::MAX);
    assert_eq!(from_system_time(before(last, 0)), i64::MIN);
    assert_eq!(from_system_time(after(last / 1_000, 807_000_000)), i64::MAX);
    assert_eq!(from_system_time(after(last / 1_000, 806_999_999)), i64::MAX - 1);
    assert_eq!(from_system_time(before(last / 1_000, 807_999_999)), -i64::MAX);
    assert_eq!(from_system_time(before(last / 1_000, 808_000_000)), i64::MIN);
}

#[test]
fn timestamps_agree_with_bson() {
    let time = std::time::SystemTime::UNIX_EPOCH + std::time::Duration::new(1_234_567, 89_012_345);
    assert_eq!(bson::DateTime::from(time).timestamp_millis(), from_system_time(after(1_234_567, 89_012_345)));
}

#[test]
fn timestamp_of_the_clock_time_of_a_timestamp_is_that_timestamp() {
    assert_eq!(from_system_time(after(1_700_000_000, 5_000_000)), 1_700_000_000_005);
    assert_eq!(from_system_time(before(1_700_000_000, 5_000_000)), -1_700_000_000_005);
}

#[test]
fn orders_may_be_pending_for_an_hour() {
    assert!(within_timeout(1_000, &after(3_601, 0)));
    assert!(!within_timeout(1_000, &after(3_601, 1)));
    assert!(within_timeout(1_001, &after(3_601, 1_000_000)));
    assert!(!within_timeout(1_001, &after(3_601, 1_000_001)));
}

#[test]
fn the_hour_may_span_the_epoch() {
    assert!(within_timeout(-1_500, &after(3_598, 500_000_000)));
    assert!(!within_timeout(-1_500, &after(3_598, 500_000_001)));
    assert!(within_timeout(-7_200_000, &before(3_600, 0)));
    assert!(!within_timeout(-7_200_000, &before(3_599, 999_999_999)));
}

#[test]
fn orders_from_the_future_may_be_placed() {
    assert!(within_timeout(i64::MAX, &after(0, 0)));
    assert!(within_timeout(5_000, &before(10, 0)));
    assert!(!within_timeout(i64::MIN, &after(0, 0)));
}

#[test]
fn what_may_be_placed_later_may_be_placed_earlier() {
    let created_at: i64 = 1_700_000_000_000;
    assert!(within_timeout(created_at, &after(1_700_003_600, 0)));
    assert!(within_timeout(created_at, &after(1_700_003_599, 999_999_999)));
    assert!(within_timeout(created_at, &after(0, 1)));
    assert!(within_timeout(created_at, &before(0, 1)));
}

#[test]
fn clock_times_are_valid_within_their_range() {
    assert!(after(i64::MAX as u64, 999_999_999).is_valid());
    assert!(!after(0, 1_000_000_000).is_valid());
    assert!(!before(i64::MAX as u64 + 1, 0).is_valid());
}
