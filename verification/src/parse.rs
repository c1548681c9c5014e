//! The `Retry-After` header value parser.
//!
//! HTTP permits two incompatible formats for the value: *delta-seconds* (a
//! plain string of ASCII digits, a relative wait in whole seconds) and
//! *HTTP-date* (an RFC 2822 date-time).  Delta-seconds is tried first — it is
//! cheap and unambiguous — and the date format is the fallback.  A value in
//! neither format denotes no deadline at all; that is a soft failure, never
//! an error surfaced to the caller.

use vstd::prelude::*;

use crate::timestamp::Timestamp;

verus! {

/// Whether `s` is a non-empty string of ASCII decimal digits.
pub open spec fn is_digit_string(s: Seq<u8>) -> bool {
    s.len() > 0 && forall|i: int| 0 <= i < s.len() ==> 48 <= #[trigger] s[i] <= 57
}

/// The integer that the decimal digit string `s` denotes.
pub open spec fn digit_string_value(s: Seq<u8>) -> int
    decreases s.len(),
{
    if s.len() == 0 {
        0
    } else {
        digit_string_value(s.drop_last()) * 10 + (s.last() - 48)
    }
}

/// A digit string's value only grows as more digits are appended.
proof fn lemma_digit_prefix_value_le(s: Seq<u8>, i: int, j: int)
    requires
        0 <= i <= j <= s.len(),
        forall|k: int| 0 <= k < s.len() ==> 48 <= #[trigger] s[k] <= 57,
    ensures
        digit_string_value(s.subrange(0, i)) <= digit_string_value(s.subrange(0, j)),
        0 <= digit_string_value(s.subrange(0, i)),
    decreases j - i,
{
    if i == j {
        lemma_digit_value_nonneg(s.subrange(0, i));
    } else {
        lemma_digit_prefix_value_le(s, i, j - 1);
        let shorter = s.subrange(0, j - 1);
        let longer = s.subrange(0, j);
        assert(longer.drop_last() =~= shorter);
        lemma_digit_value_nonneg(shorter);
    }
}

/// A string of digits denotes a non-negative value.
pub proof fn lemma_digit_value_nonneg(s: Seq<u8>)
    requires
        forall|k: int| 0 <= k < s.len() ==> 48 <= #[trigger] s[k] <= 57,
    ensures
        0 <= digit_string_value(s),
    decreases s.len(),
{
    if s.len() > 0 {
        lemma_digit_value_nonneg(s.drop_last());
    }
}

/// Parses `v` as the delta-seconds form of `Retry-After`: a non-empty string
/// of ASCII digits.  Yields the denoted value when there is one and it fits
/// in `u64`.
pub fn parse_delta_seconds(v: &[u8]) -> (r: Option<u64>)
    ensures
        match r {
            Some(n) => is_digit_string(v@) && n == digit_string_value(v@),
            None => !is_digit_string(v@) || digit_string_value(v@) > u64::MAX,
        },
{
    if v.len() == 0 {
        return None;
    }
    let mut acc: u64 = 0;
    let mut i: usize = 0;
    while i < v.len()
        invariant
            0 <= i <= v@.len(),
            forall|j: int| 0 <= j < i ==> 48 <= #[trigger] v@[j] <= 57,
            acc == digit_string_value(v@.subrange(0, i as int)),
        decreases v@.len() - i,
    {
        let b = v[i];
        if b < 48 || b > 57 {
            return None;
        }
        let d = (b - 48) as u64;
        let next = match acc.checked_mul(10) {
            Some(x) => x.checked_add(d),
            None => None,
        };
        proof {
            assert(v@.subrange(0, i + 1).drop_last() =~= v@.subrange(0, i as int));
        }
        match next {
            Some(x) => {
                acc = x;
            }
            None => {
                proof {
                    if is_digit_string(v@) {
                        let s1 = v@.subrange(0, i + 1);
                        assert(s1.last() == v@[i as int]);
                        assert(digit_string_value(s1) == acc * 10 + (v@[i as int] - 48));
                        lemma_digit_prefix_value_le(v@, i + 1, v@.len() as int);
                        assert(v@.subrange(0, v@.len() as int) =~= v@);
                        assert(digit_string_value(v@) > u64::MAX);
                    }
                }
                return None;
            }
        }
        i = i + 1;
    }
    proof {
        assert(v@.subrange(0, v@.len() as int) =~= v@);
    }
    Some(acc)
}

/// What `time`'s RFC 2822 parser yields for a byte string: the parsed
/// date-time as nanoseconds since the Unix epoch, or nothing when the bytes
/// are not a valid RFC 2822 date-time.
pub uninterp spec fn rfc2822_nanos_of(v: Seq<u8>) -> Option<i128>;

/// Relies on `time::OffsetDateTime::parse` with the `Rfc2822` well-known
/// format, and on `OffsetDateTime::unix_timestamp_nanos`: both compute from
/// their input alone, so the outcome is a function of the bytes.
#[verifier::external_body]
fn parse_rfc2822(v: &[u8]) -> (r: Option<i128>)
    ensures
        r == rfc2822_nanos_of(v@),
{
    let s = match core::str::from_utf8(v) {
        Ok(s) => s,
        Err(_) => return None,
    };
    match time::OffsetDateTime::parse(s, &time::format_description::well_known::Rfc2822) {
        Ok(d) => Some(d.unix_timestamp_nanos()),
        Err(_) => None,
    }
}

/// The deadline that a `Retry-After` value `v`, observed at `now`, denotes:
/// `now` plus the delta-seconds value when `v` is a digit string whose value
/// fits, otherwise the RFC 2822 date-time that `v` spells, otherwise none.
pub open spec fn spec_parse_retry_value(v: Seq<u8>, now: Timestamp) -> Option<Timestamp> {
    if is_digit_string(v) && digit_string_value(v) <= u64::MAX {
        Some(now.spec_after_secs(digit_string_value(v) as u64))
    } else {
        match rfc2822_nanos_of(v) {
            Some(n) => Some(Timestamp::spec_of_unix_nanos(n as int)),
            None => None,
        }
    }
}

/// Converts a raw `Retry-After` header value, observed at `now`, into the
/// absolute deadline it denotes, or nothing when the value is in neither of
/// the two permitted formats.
pub fn parse_retry_value(v: &[u8], now: Timestamp) -> (r: Option<Timestamp>)
    requires
        now.wf(),
    ensures
        r == spec_parse_retry_value(v@, now),
        r matches Some(d) ==> d.wf(),
{
    match parse_delta_seconds(v) {
        Some(secs) => Some(now.after_secs(secs)),
        None => match parse_rfc2822(v) {
            Some(n) => Some(Timestamp::of_unix_nanos(n)),
            None => None,
        },
    }
}

} // verus!
