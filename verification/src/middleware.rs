//! The `Retry-After` interceptor itself: a deadline cache together with the
//! request/response hooks that read and mutate it.
//!
//! The pre-request hook is a pure read: it reports how long a request must
//! still wait.  The post-response hook is the only writer: a response whose
//! `Retry-After` value parses stores a deadline for its destination, and any
//! other response clears the destination's entry (a clean response means the
//! restriction is lifted).  The surrounding pipeline performs the actual
//! sleep and the actual send, and wraps an instance in its reader/writer
//! primitive; everything the interceptor decides is decided here.

use vstd::prelude::*;

use crate::cache::DeadlineCache;
use crate::parse::parse_retry_value;
use crate::parse::spec_parse_retry_value;
use crate::timestamp::Timestamp;
use crate::timestamp::WaitDuration;

verus! {

/// The deadline stored for `key`, if any.
pub open spec fn lookup_in(m: Map<Seq<u8>, Timestamp>, key: Seq<u8>) -> Option<Timestamp> {
    if m.contains_key(key) {
        Some(m[key])
    } else {
        None
    }
}

/// How many nanoseconds a request to `key` issued at `now` must still wait:
/// the time to the stored deadline when that lies in the future, else none.
pub open spec fn wait_nanos(m: Map<Seq<u8>, Timestamp>, key: Seq<u8>, now: Timestamp) -> int {
    if m.contains_key(key) && m[key].as_nanos() > now.as_nanos() {
        m[key].as_nanos() - now.as_nanos()
    } else {
        0
    }
}

/// The cache state after the response for `key`, observed at `now`, has been
/// recorded: a parsed `Retry-After` value stores its deadline; an absent or
/// unparseable value clears the entry.
pub open spec fn record(
    m: Map<Seq<u8>, Timestamp>,
    key: Seq<u8>,
    header: Option<Seq<u8>>,
    now: Timestamp,
) -> Map<Seq<u8>, Timestamp> {
    match header {
        Some(v) => match spec_parse_retry_value(v, now) {
            Some(d) => m.insert(key, d),
            None => m.remove(key),
        },
        None => m.remove(key),
    }
}

/// The raw bytes of an optional header value.
pub open spec fn header_view(h: Option<&[u8]>) -> Option<Seq<u8>> {
    match h {
        Some(v) => Some(v@),
        None => None,
    }
}

/// The interceptor: remembers, per destination key, the deadline the server
/// most recently asked the client to wait for.  Its view is that mapping.
pub struct RetryAfterMiddleware {
    retry_after: DeadlineCache,
}

impl View for RetryAfterMiddleware {
    type V = Map<Seq<u8>, Timestamp>;

    closed spec fn view(&self) -> Map<Seq<u8>, Timestamp> {
        self.retry_after@
    }
}

impl RetryAfterMiddleware {
    /// Internal well-formedness, established by the constructor and kept by
    /// every method.
    pub closed spec fn inv(&self) -> bool {
        self.retry_after.inv()
    }

    /// Creates a new interceptor with no stored deadlines.
    pub fn new() -> (r: Self)
        ensures
            r.inv(),
            r@ == Map::<Seq<u8>, Timestamp>::empty(),
    {
        RetryAfterMiddleware { retry_after: DeadlineCache::new() }
    }

    /// The deadline currently stored for `key`, if any.
    pub fn lookup(&self, key: &[u8]) -> (r: Option<Timestamp>)
        requires
            self.inv(),
        ensures
            r == lookup_in(self@, key@),
            r matches Some(d) ==> d.wf(),
    {
        self.retry_after.lookup(key)
    }

    /// How many keys currently have a stored deadline.
    pub fn len(&self) -> (r: usize)
        requires
            self.inv(),
        ensures
            r == self@.dom().len(),
    {
        self.retry_after.len()
    }

    /// Pre-request hook: how long a request to `key` issued at `now` must
    /// still wait.  Nothing for an unknown key or a deadline already passed
    /// (stale entries are purged lazily, by the next response); otherwise
    /// exactly the time to the stored deadline.  Never mutates the cache.
    pub fn pre_request_wait(&self, key: &[u8], now: Timestamp) -> (r: Option<WaitDuration>)
        requires
            self.inv(),
            now.wf(),
        ensures
            match r {
                Some(w) => w.wf() && w.as_nanos() == wait_nanos(self@, key@, now) && w.as_nanos()
                    > 0,
                None => wait_nanos(self@, key@, now) == 0,
            },
    {
        match self.retry_after.lookup(key) {
            Some(deadline) => {
                if deadline.is_after(now) {
                    Some(deadline.duration_since(now))
                } else {
                    None
                }
            }
            None => None,
        }
    }

    /// Post-response hook: records what the response for `key`, observed at
    /// `now`, said.  `header` is the raw `Retry-After` value, or nothing when
    /// the response carried none; a value in neither permitted format counts
    /// as absent and clears the entry.  A transport failure must not reach
    /// this hook: the caller passes such a failure through with the cache
    /// untouched.
    pub fn record_response(&mut self, key: &[u8], header: Option<&[u8]>, now: Timestamp)
        requires
            old(self).inv(),
            now.wf(),
        ensures
            final(self).inv(),
            final(self)@ == record(old(self)@, key@, header_view(header), now),
    {
        match header {
            Some(v) => match parse_retry_value(v, now) {
                Some(deadline) => self.retry_after.set(vstd::slice::slice_to_vec(key), deadline),
                None => self.retry_after.clear(key),
            },
            None => self.retry_after.clear(key),
        }
    }
}

impl Default for RetryAfterMiddleware {
    /// Same as `RetryAfterMiddleware::new`.
    fn default() -> (r: Self)
        ensures
            r.inv(),
            r@ == Map::<Seq<u8>, Timestamp>::empty(),
    {
        RetryAfterMiddleware::new()
    }
}

} // verus!
