//! Absolute points in time and lengths of time, at nanosecond resolution.
//!
//! A deadline stored by the interceptor is an absolute timestamp, not a
//! duration: it is computed once, when the response is observed, so elapsed
//! processing time does not shift it.

use vstd::prelude::*;

verus! {

/// An absolute point in time: whole seconds since the Unix epoch plus a
/// sub-second nanosecond part.
#[derive(Clone, Copy, Debug, PartialEq, Eq, Structural)]
pub struct Timestamp {
    /// Whole seconds since the Unix epoch.
    pub secs: u64,
    /// Nanoseconds past `secs`; well-formed values keep this below one second.
    pub nanos: u32,
}

/// A length of time: whole seconds plus a sub-second nanosecond part.
#[derive(Clone, Copy, Debug, PartialEq, Eq, Structural)]
pub struct WaitDuration {
    /// Whole seconds.
    pub secs: u64,
    /// Nanoseconds past `secs`; well-formed values keep this below one second.
    pub nanos: u32,
}

impl WaitDuration {
    /// A duration is well-formed when its nanosecond part stays below one second.
    pub open spec fn wf(self) -> bool {
        self.nanos < 1_000_000_000
    }

    /// The whole duration in nanoseconds.
    pub open spec fn as_nanos(self) -> int {
        self.secs * 1_000_000_000 + self.nanos
    }
}

impl Timestamp {
    /// A timestamp is well-formed when its nanosecond part stays below one second.
    pub open spec fn wf(self) -> bool {
        self.nanos < 1_000_000_000
    }

    /// The whole timestamp in nanoseconds since the Unix epoch.
    pub open spec fn as_nanos(self) -> int {
        self.secs * 1_000_000_000 + self.nanos
    }

    /// Builds a well-formed timestamp from a seconds/nanoseconds pair,
    /// carrying surplus nanoseconds into the seconds (saturating at the
    /// largest representable second).
    pub fn new(secs: u64, nanos: u32) -> (r: Timestamp)
        ensures
            r.wf(),
            nanos < 1_000_000_000 ==> r == (Timestamp { secs, nanos }),
            r.as_nanos() == if secs * 1_000_000_000 + nanos <= u64::MAX * 1_000_000_000
                + 999_999_999 {
                secs * 1_000_000_000 + nanos
            } else {
                u64::MAX * 1_000_000_000 + 999_999_999
            },
    {
        if nanos < 1_000_000_000 {
            Timestamp { secs, nanos }
        } else {
            let carry: u32 = nanos / 1_000_000_000;
            let rest: u32 = nanos % 1_000_000_000;
            proof {
                assert(nanos == carry * 1_000_000_000 + rest);
            }
            match secs.checked_add(carry as u64) {
                Some(s) => Timestamp { secs: s, nanos: rest },
                None => Timestamp { secs: u64::MAX, nanos: 999_999_999 },
            }
        }
    }

    /// The deadline lying `delta` whole seconds after `self`, saturating at
    /// the largest representable second.
    pub open spec fn spec_after_secs(self, delta: u64) -> Timestamp {
        if self.secs + delta <= u64::MAX {
            Timestamp { secs: (self.secs + delta) as u64, nanos: self.nanos }
        } else {
            Timestamp { secs: u64::MAX, nanos: self.nanos }
        }
    }

    /// Adds `delta` whole seconds, saturating at the largest representable
    /// second.
    pub fn after_secs(self, delta: u64) -> (r: Timestamp)
        ensures
            r == self.spec_after_secs(delta),
            self.wf() ==> r.wf(),
            r.as_nanos() >= self.as_nanos(),
    {
        match self.secs.checked_add(delta) {
            Some(s) => Timestamp { secs: s, nanos: self.nanos },
            None => Timestamp { secs: u64::MAX, nanos: self.nanos },
        }
    }

    /// The timestamp for a signed count of nanoseconds since the Unix epoch,
    /// clamped below at the epoch itself and above at the largest
    /// representable value.
    pub open spec fn spec_of_unix_nanos(n: int) -> Timestamp {
        if n < 0 {
            Timestamp { secs: 0, nanos: 0 }
        } else if n / 1_000_000_000 > u64::MAX {
            Timestamp { secs: u64::MAX, nanos: 999_999_999 }
        } else {
            Timestamp { secs: (n / 1_000_000_000) as u64, nanos: (n % 1_000_000_000) as u32 }
        }
    }

    /// Converts a signed count of nanoseconds since the Unix epoch, clamping
    /// values that lie before the epoch or beyond the representable range.
    pub fn of_unix_nanos(n: i128) -> (r: Timestamp)
        ensures
            r == Timestamp::spec_of_unix_nanos(n as int),
            r.wf(),
    {
        if n < 0 {
            Timestamp { secs: 0, nanos: 0 }
        } else {
            let q: i128 = n / 1_000_000_000;
            let rem: i128 = n % 1_000_000_000;
            if q > u64::MAX as i128 {
                Timestamp { secs: u64::MAX, nanos: 999_999_999 }
            } else {
                Timestamp { secs: q as u64, nanos: rem as u32 }
            }
        }
    }

    /// Whether `self` lies strictly after `other`.
    pub fn is_after(self, other: Timestamp) -> (r: bool)
        requires
            self.wf(),
            other.wf(),
        ensures
            r == (self.as_nanos() > other.as_nanos()),
    {
        self.secs > other.secs || (self.secs == other.secs && self.nanos > other.nanos)
    }

    /// The length of time from `earlier` to `self`.
    pub fn duration_since(self, earlier: Timestamp) -> (r: WaitDuration)
        requires
            self.wf(),
            earlier.wf(),
            self.as_nanos() >= earlier.as_nanos(),
        ensures
            r.wf(),
            r.as_nanos() == self.as_nanos() - earlier.as_nanos(),
    {
        if self.nanos >= earlier.nanos {
            WaitDuration { secs: self.secs - earlier.secs, nanos: self.nanos - earlier.nanos }
        } else {
            WaitDuration {
                secs: self.secs - earlier.secs - 1,
                nanos: (self.nanos + 1_000_000_000) - earlier.nanos,
            }
        }
    }
}

} // verus!
