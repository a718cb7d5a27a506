use chrono::{DateTime, Duration, Utc};
use citebot::context::{
    age, context_key, context_to_resume, is_expired, is_fresh,
    is_to_be_removed, Lookup, Timestamp, UserContext, FIRST_SECOND, LAST_SECOND,
};

fn at(secs: i64, nanos: u32) -> Timestamp {
    Timestamp::new(secs, nanos).unwrap()
}

fn context(secs: i64, nanos: u32) -> UserContext {
    UserContext { thread_id: "t".to_string(), last_inquiry: at(secs, nanos) }
}

#[test]
fn timestamps_are_those_of_the_calendar() {
    let second = 1_000_000_000u32;
    for secs in [
        FIRST_SECOND - 1, FIRST_SECOND, FIRST_SECOND + 59, -61, -60, -1, 0, 59, 60, 119,
        LAST_SECOND, LAST_SECOND + 1, i64::MIN, i64::MAX,
    ] {
        for nanos in [0, second - 1, second, 2 * second - 1, 2 * second, u32::MAX] {
            let expected = DateTime::<Utc>::from_timestamp(secs, nanos).is_some();
            assert_eq!(Timestamp::new(secs, nanos).is_some(), expected, "{} {}", secs, nanos);
        }
    }
    assert_eq!(DateTime::<Utc>::MIN_UTC.timestamp(), FIRST_SECOND);
    assert_eq!(DateTime::<Utc>::MAX_UTC.timestamp(), LAST_SECOND);
    assert_eq!(at(59, 1_500_000_000).secs(), 59);
    assert_eq!(at(59, 1_500_000_000).nanos(), 1_500_000_000);
}

#[test]
fn a_context_expires_after_ten_minutes() {
    let c = context(1000, 500);
    assert!(!is_expired(&c, &at(1000, 500)));
    assert!(!is_expired(&c, &at(1599, 999_999_999)));
    assert!(!is_expired(&c, &at(1600, 500)));
    assert!(is_expired(&c, &at(1600, 501)));
    assert!(is_expired(&c, &at(5000, 0)));
    assert!(!is_expired(&c, &at(-5000, 0)));
    assert!(is_expired(&context(FIRST_SECOND, 0), &at(LAST_SECOND, 0)));
    assert!(!is_expired(&context(LAST_SECOND, 0), &at(FIRST_SECOND, 0)));
}

#[test]
fn expiry_is_that_of_the_calendar_in_leap_seconds_too() {
    let moments = [
        (59, 0), (59, 1_000_000_000), (59, 1_999_999_999), (60, 0), (659, 0), (659, 999_999_999),
        (659, 1_000_000_000), (659, 1_999_999_999), (660, 0), (660, 1), (661, 0), (86_399, 0),
        (86_399, 1_999_999_999), (86_400, 0), (86_999, 5), (86_999, 1_000_000_001), (87_000, 0),
        (-1, 1_000_000_000), (-1, 0), (599, 0), (598, 999_999_999), (599, 1_000_000_000),
    ];
    for (s1, n1) in moments {
        for (s2, n2) in moments {
            let now = DateTime::<Utc>::from_timestamp(s1, n1).unwrap();
            let then = DateTime::<Utc>::from_timestamp(s2, n2).unwrap();
            let expected = now.signed_duration_since(then) > Duration::minutes(10);
            assert_eq!(is_expired(&context(s2, n2), &at(s1, n1)), expected);
        }
    }
}

#[test]
fn the_age_of_a_context_is_counted_in_nanoseconds() {
    assert_eq!(age(&context(10, 30), &at(12, 10)), 1_999_999_980);
    assert_eq!(age(&context(12, 10), &at(10, 30)), -1_999_999_980);
    assert_eq!(age(&context(59, 1_500_000_000), &at(60, 0)), 500_000_000);
}

#[test]
fn a_context_is_fresh_for_less_than_ten_minutes() {
    assert!(is_fresh(&context(0, 0), &at(599, 999_999_999)));
    assert!(!is_fresh(&context(0, 0), &at(600, 0)));
    assert!(!is_expired(&context(0, 0), &at(600, 0)));
    assert!(is_fresh(&context(0, 0), &at(-1, 0)));
    let resumed = context_to_resume(Lookup::Found(context(5, 6)), &at(7, 0)).unwrap();
    assert_eq!(resumed.thread_id, "t");
    assert_eq!((resumed.last_inquiry.secs(), resumed.last_inquiry.nanos()), (5, 6));
    assert!(context_to_resume(Lookup::Found(context(5, 6)), &at(700, 0)).is_none());
    assert!(context_to_resume(Lookup::Missing, &at(7, 0)).is_none());
    assert!(context_to_resume(Lookup::Failed, &at(7, 0)).is_none());
}

#[test]
fn what_is_removed_would_not_be_resumed() {
    for secs in 590..620 {
        let removed = is_to_be_removed(&Lookup::Found(context(0, 0)), &at(secs, 0));
        for later in secs..630 {
            let resumed = context_to_resume(Lookup::Found(context(0, 0)), &at(later, 0));
            assert!(!removed || resumed.is_none());
        }
    }
}

#[test]
fn an_expired_context_is_removed() {
    assert!(is_to_be_removed(&Lookup::Found(context(0, 0)), &at(601, 0)));
    assert!(!is_to_be_removed(&Lookup::Found(context(0, 0)), &at(600, 0)));
    assert!(!is_to_be_removed(&Lookup::Missing, &at(601, 0)));
    assert!(!is_to_be_removed(&Lookup::Failed, &at(601, 0)));
}

#[test]
fn a_context_stays_expired() {
    let c = context(0, 7);
    assert!(is_expired(&c, &at(600, 8)));
    assert!(is_expired(&c, &at(600, 9)));
    assert!(is_expired(&c, &at(601, 0)));
}

#[test]
fn keys_of_users_are_distinct() {
    assert_eq!(context_key(-42), "-42");
    assert_eq!(context_key(42), "42");
    assert_ne!(context_key(4), context_key(42));
}
