use kapir::time::{local_now, Timestamp, MAX_SECONDS, MIN_SECONDS};

fn at(secs: i64, nanos: u32) -> Timestamp {
    Timestamp::new(secs, nanos).unwrap()
}

#[test]
fn timestamp_holds_the_years_1_to_9999() {
    assert!(Timestamp::new(MIN_SECONDS, 0).is_some());
    assert!(Timestamp::new(MAX_SECONDS, 999_999_999).is_some());
    assert!(Timestamp::new(MIN_SECONDS - 1, 0).is_none());
    assert!(Timestamp::new(MAX_SECONDS + 1, 0).is_none());
    assert!(Timestamp::new(0, 1_000_000_000).is_none());
    assert!(Timestamp::new(i64::MIN, 0).is_none());
    assert!(Timestamp::new(i64::MAX, u32::MAX).is_none());
}

#[test]
fn timestamp_gives_back_its_parts() {
    let t = at(1_700_000_000, 123_456_789);
    assert_eq!(t.seconds(), 1_700_000_000);
    assert_eq!(t.subsec_nanos(), 123_456_789);
}

#[test]
fn clamped_timestamp_is_the_nearest_in_range() {
    assert_eq!(Timestamp::clamped(5, 6), at(5, 6));
    assert_eq!(Timestamp::clamped(i64::MIN, 0), at(MIN_SECONDS, 0));
    assert_eq!(Timestamp::clamped(i64::MAX, 7), at(MAX_SECONDS, 7));
    assert_eq!(Timestamp::clamped(9, 1_500_000_000), at(9, 999_999_999));
}

#[test]
fn whole_seconds_are_rounded_toward_zero() {
    assert_eq!(at(10, 0).seconds_since(&at(7, 0)), 3);
    assert_eq!(at(7, 0).seconds_since(&at(10, 0)), -3);
    assert_eq!(at(10, 100).seconds_since(&at(7, 900)), 2);
    assert_eq!(at(10, 900).seconds_since(&at(7, 100)), 3);
    assert_eq!(at(7, 900).seconds_since(&at(10, 100)), -2);
    assert_eq!(at(7, 100).seconds_since(&at(10, 900)), -3);
    assert_eq!(at(5, 999_999_999).seconds_since(&at(5, 0)), 0);
    assert_eq!(at(5, 0).seconds_since(&at(5, 999_999_999)), 0);
    assert_eq!(at(6, 0).seconds_since(&at(5, 999_999_999)), 0);
    assert_eq!(at(5, 999_999_999).seconds_since(&at(6, 0)), 0);
    assert_eq!(at(-1, 0).seconds_since(&at(1, 0)), -2);
}

#[test]
fn the_widest_span_fits() {
    let first = at(MIN_SECONDS, 0);
    let last = at(MAX_SECONDS, 999_999_999);
    assert_eq!(last.seconds_since(&first), MAX_SECONDS - MIN_SECONDS);
    assert_eq!(first.seconds_since(&last), MIN_SECONDS - MAX_SECONDS);
}

#[test]
fn the_local_clock_gives_an_instant_of_this_age() {
    let now = local_now();
    assert!(now.seconds() > 1_600_000_000);
    assert!(now.seconds() <= MAX_SECONDS);
    assert!(now.subsec_nanos() < 1_000_000_000);
    let later = local_now();
    assert!(later.seconds_since(&now) >= -86_400);
}
