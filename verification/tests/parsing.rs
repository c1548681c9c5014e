use reqwest_retry_after::{parse_delta_seconds, parse_retry_value, Timestamp};

#[test]
fn delta_seconds_accepts_digit_strings() {
    assert_eq!(parse_delta_seconds(b"0"), Some(0));
    assert_eq!(parse_delta_seconds(b"2"), Some(2));
    assert_eq!(parse_delta_seconds(b"120"), Some(120));
    assert_eq!(parse_delta_seconds(b"007"), Some(7));
    assert_eq!(parse_delta_seconds(b"18446744073709551615"), Some(u64::MAX));
}

#[test]
fn delta_seconds_rejects_everything_else() {
    assert_eq!(parse_delta_seconds(b""), None);
    assert_eq!(parse_delta_seconds(b"+2"), None);
    assert_eq!(parse_delta_seconds(b"-2"), None);
    assert_eq!(parse_delta_seconds(b"2x"), None);
    assert_eq!(parse_delta_seconds(b" 2"), None);
    assert_eq!(parse_delta_seconds(b"2.5"), None);
    // one past u64::MAX, and far past it
    assert_eq!(parse_delta_seconds(b"18446744073709551616"), None);
    assert_eq!(parse_delta_seconds(b"99999999999999999999999999"), None);
}

#[test]
fn retry_value_delta_is_relative_to_now() {
    let now = Timestamp { secs: 100, nanos: 5 };
    assert_eq!(
        parse_retry_value(b"2", now),
        Some(Timestamp { secs: 102, nanos: 5 })
    );
    assert_eq!(
        parse_retry_value(b"0", now),
        Some(Timestamp { secs: 100, nanos: 5 })
    );
}

#[test]
fn retry_value_delta_saturates_at_the_largest_second() {
    let now = Timestamp {
        secs: u64::MAX - 1,
        nanos: 7,
    };
    assert_eq!(
        parse_retry_value(b"5", now),
        Some(Timestamp {
            secs: u64::MAX,
            nanos: 7
        })
    );
}

#[test]
fn retry_value_http_date_is_absolute() {
    let now = Timestamp { secs: 0, nanos: 0 };
    // 2024-10-29 16:56:32 UTC is 1730220992 seconds past the Unix epoch.
    assert_eq!(
        parse_retry_value(b"Tue, 29 Oct 2024 16:56:32 GMT", now),
        Some(Timestamp {
            secs: 1730220992,
            nanos: 0
        })
    );
    // The same instant written with a +01:00 offset lies one hour earlier in UTC.
    assert_eq!(
        parse_retry_value(b"Tue, 29 Oct 2024 16:56:32 +0100", now),
        Some(Timestamp {
            secs: 1730220992 - 3600,
            nanos: 0
        })
    );
}

#[test]
fn retry_value_pre_epoch_date_clamps_to_the_epoch() {
    let now = Timestamp { secs: 50, nanos: 0 };
    assert_eq!(
        parse_retry_value(b"Wed, 31 Dec 1969 23:59:59 GMT", now),
        Some(Timestamp { secs: 0, nanos: 0 })
    );
}

#[test]
fn retry_value_rejects_garbage() {
    let now = Timestamp { secs: 100, nanos: 0 };
    assert_eq!(parse_retry_value(b"soon", now), None);
    assert_eq!(parse_retry_value(b"", now), None);
    assert_eq!(parse_retry_value(b"Tue, 29 Oct", now), None);
    // not UTF-8 at all
    assert_eq!(parse_retry_value(&[0xff, 0xfe], now), None);
}

#[test]
fn timestamp_new_carries_surplus_nanoseconds() {
    assert_eq!(
        Timestamp::new(1, 1_500_000_000),
        Timestamp {
            secs: 2,
            nanos: 500_000_000
        }
    );
    assert_eq!(Timestamp::new(3, 42), Timestamp { secs: 3, nanos: 42 });
}

#[test]
fn duration_since_borrows_across_the_second() {
    let later = Timestamp {
        secs: 102,
        nanos: 100_000,
    };
    let earlier = Timestamp {
        secs: 100,
        nanos: 200_000,
    };
    let w = later.duration_since(earlier);
    assert_eq!(w.secs, 1);
    assert_eq!(w.nanos, 999_900_000);
}
