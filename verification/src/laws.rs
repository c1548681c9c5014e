//! The interceptor's guarantees, stated and proved once and for all over the
//! cache mapping, the bookkeeping transition `record`, and the pre-request
//! read-outs `lookup_in` and `wait_nanos`.

use vstd::prelude::*;

use crate::middleware::lookup_in;
use crate::middleware::record;
use crate::middleware::wait_nanos;
use crate::parse::digit_string_value;
use crate::parse::is_digit_string;
use crate::parse::rfc2822_nanos_of;
use crate::parse::spec_parse_retry_value;
use crate::timestamp::Timestamp;

verus! {

/// A key the cache holds no entry for — one never seen, in particular —
/// looks up to nothing and imposes no wait at any instant.
pub proof fn lemma_unknown_key_unrestricted(
    m: Map<Seq<u8>, Timestamp>,
    key: Seq<u8>,
    now: Timestamp,
)
    requires
        !m.contains_key(key),
    ensures
        lookup_in(m, key) is None,
        wait_nanos(m, key, now) == 0,
{
}

/// After a response for `key` carries a delta-seconds value `v` observed at
/// `now` — a digit string denoting `n` whole seconds — the stored deadline
/// lies exactly `n` seconds past `now`: a lookup finds it, a request issued
/// at `now` waits exactly `n` seconds, and one issued at any instant before
/// the deadline waits until it.
pub proof fn lemma_delta_seconds_delays(
    m: Map<Seq<u8>, Timestamp>,
    key: Seq<u8>,
    v: Seq<u8>,
    now: Timestamp,
)
    requires
        now.wf(),
        is_digit_string(v),
        digit_string_value(v) <= u64::MAX,
        now.secs + digit_string_value(v) <= u64::MAX,
    ensures
        ({
            let m2 = record(m, key, Some(v), now);
            let n = digit_string_value(v);
            &&& lookup_in(m2, key) matches Some(d) && d.as_nanos() == now.as_nanos() + n
                * 1_000_000_000
            &&& wait_nanos(m2, key, now) == n * 1_000_000_000
            &&& forall|t: Timestamp|
                t.wf() && t.as_nanos() < now.as_nanos() + n * 1_000_000_000 ==> wait_nanos(
                    m2,
                    key,
                    t,
                ) == now.as_nanos() + n * 1_000_000_000 - t.as_nanos()
        }),
{
    let m2 = record(m, key, Some(v), now);
    let n = digit_string_value(v);
    crate::parse::lemma_digit_value_nonneg(v);
    let d = now.spec_after_secs(n as u64);
    assert(spec_parse_retry_value(v, now) == Some(d));
    assert(d.as_nanos() == now.as_nanos() + n * 1_000_000_000);
    assert(m2 == m.insert(key, d));
}

/// After a response for `key` carries a value in the HTTP-date format — not
/// a digit string, but a valid RFC 2822 date-time lying `n` nanoseconds past
/// the Unix epoch, within the representable range — the stored deadline is
/// exactly that date, and a request issued at any instant before it waits
/// until it.  A value in neither format clears the entry instead.
pub proof fn lemma_http_date_delays(
    m: Map<Seq<u8>, Timestamp>,
    key: Seq<u8>,
    v: Seq<u8>,
    now: Timestamp,
)
    requires
        now.wf(),
        !is_digit_string(v),
    ensures
        (match rfc2822_nanos_of(v) {
            Some(n) => (0 <= n && n / 1_000_000_000 <= u64::MAX) ==> ({
                let m2 = record(m, key, Some(v), now);
                &&& lookup_in(m2, key) matches Some(d) && d.as_nanos() == n
                &&& forall|t: Timestamp|
                    t.wf() && t.as_nanos() < n ==> wait_nanos(m2, key, t) == n - t.as_nanos()
            }),
            None => record(m, key, Some(v), now) == m.remove(key),
        }),
{
    match rfc2822_nanos_of(v) {
        Some(n) => {
            if 0 <= n && n / 1_000_000_000 <= u64::MAX {
                let d = Timestamp::spec_of_unix_nanos(n as int);
                vstd::arithmetic::div_mod::lemma_fundamental_div_mod(n as int, 1_000_000_000);
                assert(d.as_nanos() == n);
                assert(record(m, key, Some(v), now) == m.insert(key, d));
            }
        }
        None => {
        }
    }
}

/// A response for `key` that carries no `Retry-After` header clears the
/// entry: afterwards a lookup finds nothing and no wait is imposed at any
/// instant, regardless of prior state.
pub proof fn lemma_absent_header_clears(
    m: Map<Seq<u8>, Timestamp>,
    key: Seq<u8>,
    now: Timestamp,
    t: Timestamp,
)
    ensures
        record(m, key, None, now) == m.remove(key),
        lookup_in(record(m, key, None, now), key) is None,
        wait_nanos(record(m, key, None, now), key, t) == 0,
{
}

/// A response for `key` whose `Retry-After` value parses in neither format
/// acts exactly like one without the header: the entry is cleared, a lookup
/// finds nothing, and no wait is imposed, regardless of prior state.
pub proof fn lemma_unparseable_header_clears(
    m: Map<Seq<u8>, Timestamp>,
    key: Seq<u8>,
    v: Seq<u8>,
    now: Timestamp,
    t: Timestamp,
)
    ensures
        spec_parse_retry_value(v, now) is None ==> {
            &&& record(m, key, Some(v), now) == m.remove(key)
            &&& lookup_in(record(m, key, Some(v), now), key) is None
            &&& wait_nanos(record(m, key, Some(v), now), key, t) == 0
        },
{
}

/// Bookkeeping for one key never touches another: recording any response for
/// `k1` leaves both the entry and the wait of a different key `k2` exactly as
/// they were.
pub proof fn lemma_other_keys_unaffected(
    m: Map<Seq<u8>, Timestamp>,
    k1: Seq<u8>,
    header: Option<Seq<u8>>,
    now: Timestamp,
    k2: Seq<u8>,
    t: Timestamp,
)
    requires
        k1 != k2,
    ensures
        lookup_in(record(m, k1, header, now), k2) == lookup_in(m, k2),
        wait_nanos(record(m, k1, header, now), k2, t) == wait_nanos(m, k2, t),
{
}

/// Recording the same response for the same key twice in a row, at the same
/// observation instant, leaves exactly the state that recording it once
/// produces.
pub proof fn lemma_record_idempotent(
    m: Map<Seq<u8>, Timestamp>,
    key: Seq<u8>,
    header: Option<Seq<u8>>,
    now: Timestamp,
)
    ensures
        record(record(m, key, header, now), key, header, now) == record(m, key, header, now),
{
    let m2 = record(m, key, header, now);
    assert(record(m2, key, header, now) =~= m2);
}

} // verus!
