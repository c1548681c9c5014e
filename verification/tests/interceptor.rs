use reqwest_retry_after::{DeadlineCache, RetryAfterMiddleware, Timestamp, WaitDuration};

#[test]
fn fresh_interceptor_knows_no_key() {
    let m = RetryAfterMiddleware::new();
    assert_eq!(m.lookup(b"https://example.test/"), None);
    assert_eq!(m.len(), 0);
    let now = Timestamp { secs: 1000, nanos: 0 };
    assert_eq!(m.pre_request_wait(b"https://example.test/", now), None);
}

#[test]
fn test() {
    // A response for `/` carrying `Retry-After: 2`: the next request to `/`
    // must wait two seconds, while a request to `/normal` goes through at
    // once; the following clean response for `/` lifts the restriction.
    let mut m = RetryAfterMiddleware::new();
    let now = Timestamp { secs: 1000, nanos: 0 };

    m.record_response(b"/", Some(b"2"), now);
    assert_eq!(m.lookup(b"/"), Some(Timestamp { secs: 1002, nanos: 0 }));

    let wait = m.pre_request_wait(b"/", now).unwrap();
    assert_eq!(wait, WaitDuration { secs: 2, nanos: 0 });

    // an untouched key imposes no wait
    assert_eq!(m.pre_request_wait(b"/normal", now), None);
    assert_eq!(m.lookup(b"/normal"), None);

    // the next response for `/` carries no header: restriction lifted
    let later = Timestamp { secs: 1003, nanos: 0 };
    m.record_response(b"/", None, later);
    assert_eq!(m.lookup(b"/"), None);
    assert_eq!(m.len(), 0);
}

#[test]
fn test_rfc2822() {
    // A response carrying an RFC 2822 date: requests before that instant
    // wait exactly until it, requests after it pass at once.
    let mut m = RetryAfterMiddleware::new();
    let deadline_secs: u64 = 1730220992; // Tue, 29 Oct 2024 16:56:32 GMT
    let before = Timestamp { secs: deadline_secs - 2, nanos: 0 };

    m.record_response(b"/", Some(b"Tue, 29 Oct 2024 16:56:32 GMT"), before);
    assert_eq!(
        m.lookup(b"/"),
        Some(Timestamp { secs: deadline_secs, nanos: 0 })
    );
    assert_eq!(
        m.pre_request_wait(b"/", before),
        Some(WaitDuration { secs: 2, nanos: 0 })
    );

    let after = Timestamp { secs: deadline_secs + 1, nanos: 0 };
    assert_eq!(m.pre_request_wait(b"/", after), None);
}

#[test]
fn past_date_imposes_no_wait_but_stays_cached() {
    // The stored deadline lies in the past: the next request proceeds at
    // once, and the stale entry survives until the next response for the key.
    let mut m = RetryAfterMiddleware::new();
    let now = Timestamp { secs: 1800000000, nanos: 0 };

    m.record_response(b"/", Some(b"Tue, 29 Oct 2024 16:56:32 GMT"), now);
    assert_eq!(m.pre_request_wait(b"/", now), None);
    assert_eq!(
        m.lookup(b"/"),
        Some(Timestamp { secs: 1730220992, nanos: 0 })
    );

    // only the next response for the key purges it
    m.record_response(b"/", None, now);
    assert_eq!(m.lookup(b"/"), None);
}

#[test]
fn wait_shrinks_as_time_passes() {
    let mut m = RetryAfterMiddleware::new();
    let now = Timestamp { secs: 1000, nanos: 0 };
    m.record_response(b"/", Some(b"2"), now);

    let halfway = Timestamp { secs: 1001, nanos: 500_000_000 };
    assert_eq!(
        m.pre_request_wait(b"/", halfway),
        Some(WaitDuration { secs: 0, nanos: 500_000_000 })
    );
    let done = Timestamp { secs: 1002, nanos: 0 };
    assert_eq!(m.pre_request_wait(b"/", done), None);
}

#[test]
fn keys_are_independent() {
    let mut m = RetryAfterMiddleware::new();
    let now = Timestamp { secs: 1000, nanos: 0 };

    m.record_response(b"https://a.test/x", Some(b"10"), now);
    assert_eq!(m.lookup(b"https://a.test/y"), None);
    assert_eq!(m.pre_request_wait(b"https://a.test/y", now), None);

    m.record_response(b"https://a.test/y", Some(b"20"), now);
    assert_eq!(
        m.lookup(b"https://a.test/x"),
        Some(Timestamp { secs: 1010, nanos: 0 })
    );
    assert_eq!(
        m.lookup(b"https://a.test/y"),
        Some(Timestamp { secs: 1020, nanos: 0 })
    );

    // clearing one leaves the other
    m.record_response(b"https://a.test/x", None, now);
    assert_eq!(m.lookup(b"https://a.test/x"), None);
    assert_eq!(
        m.lookup(b"https://a.test/y"),
        Some(Timestamp { secs: 1020, nanos: 0 })
    );
}

#[test]
fn recording_twice_equals_recording_once() {
    let mut once = RetryAfterMiddleware::new();
    let mut twice = RetryAfterMiddleware::new();
    let now = Timestamp { secs: 1000, nanos: 0 };

    once.record_response(b"/", Some(b"2"), now);
    twice.record_response(b"/", Some(b"2"), now);
    twice.record_response(b"/", Some(b"2"), now);

    assert_eq!(twice.len(), 1);
    assert_eq!(twice.lookup(b"/"), once.lookup(b"/"));
}

#[test]
fn newer_deadline_overwrites_older() {
    let mut m = RetryAfterMiddleware::new();
    let now = Timestamp { secs: 1000, nanos: 0 };
    m.record_response(b"/", Some(b"2"), now);
    m.record_response(b"/", Some(b"10"), now);
    assert_eq!(m.lookup(b"/"), Some(Timestamp { secs: 1010, nanos: 0 }));
    assert_eq!(m.len(), 1);
}

#[test]
fn unparseable_header_clears_like_a_clean_response() {
    let mut m = RetryAfterMiddleware::new();
    let now = Timestamp { secs: 1000, nanos: 0 };
    m.record_response(b"/", Some(b"2"), now);
    assert_eq!(m.len(), 1);

    m.record_response(b"/", Some(b"soon"), now);
    assert_eq!(m.lookup(b"/"), None);
    assert_eq!(m.len(), 0);
}

#[test]
fn deadline_cache_operations() {
    let mut c = DeadlineCache::new();
    assert_eq!(c.lookup(b"k1"), None);
    assert_eq!(c.len(), 0);

    let d1 = Timestamp { secs: 10, nanos: 1 };
    let d2 = Timestamp { secs: 20, nanos: 2 };
    c.set(b"k1".to_vec(), d1);
    assert_eq!(c.lookup(b"k1"), Some(d1));
    assert_eq!(c.len(), 1);

    // a newer write for the same key replaces the older one
    c.set(b"k1".to_vec(), d2);
    assert_eq!(c.lookup(b"k1"), Some(d2));
    assert_eq!(c.len(), 1);

    c.set(b"k2".to_vec(), d1);
    assert_eq!(c.len(), 2);

    // clearing an absent key is a no-op
    c.clear(b"k3");
    assert_eq!(c.len(), 2);

    c.clear(b"k1");
    assert_eq!(c.lookup(b"k1"), None);
    assert_eq!(c.lookup(b"k2"), Some(d1));
    assert_eq!(c.len(), 1);
}
