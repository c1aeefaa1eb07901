//! Spans of time and points on a monotonic clock, in whole nanoseconds.

use vstd::prelude::*;

verus! {

/// Nanoseconds in one second.
pub const NANOS_PER_SEC: u128 = 1_000_000_000;

/// Nanoseconds in one millisecond.
pub const NANOS_PER_MILLI: u128 = 1_000_000;

/// The longest duration: `u64::MAX` seconds and 999,999,999 nanoseconds.
pub const MAX_NANOS: u128 = 18_446_744_073_709_551_615_999_999_999;

/// A span of time. Its view is its length in nanoseconds.
#[derive(Clone, Copy, Debug)]
pub struct Duration {
    nanos: u128,
}

impl View for Duration {
    type V = nat;

    closed spec fn view(&self) -> nat {
        self.nanos as nat
    }
}

impl Duration {
    #[verifier::type_invariant]
    spec fn in_range(self) -> bool {
        self.nanos <= MAX_NANOS
    }

    /// The duration of `secs` seconds and `nanos` further nanoseconds, which may be more
    /// than a second.
    pub fn new(secs: u64, nanos: u32) -> (r: Duration)
        requires
            secs * NANOS_PER_SEC + nanos <= MAX_NANOS,
        ensures
            r@ == secs * NANOS_PER_SEC + nanos,
    {
        Duration { nanos: (secs as u128) * NANOS_PER_SEC + (nanos as u128) }
    }

    /// The duration of `secs` whole seconds.
    pub fn from_secs(secs: u64) -> (r: Duration)
        ensures
            r@ == secs * NANOS_PER_SEC,
    {
        Duration { nanos: (secs as u128) * NANOS_PER_SEC }
    }

    /// The duration of `millis` milliseconds.
    pub fn from_millis(millis: u64) -> (r: Duration)
        ensures
            r@ == millis * NANOS_PER_MILLI,
    {
        Duration { nanos: (millis as u128) * NANOS_PER_MILLI }
    }

    /// The number of whole seconds; what is left of a second is dropped.
    pub fn as_secs(&self) -> (r: u64)
        ensures
            r == whole_secs(self@),
    {
        proof {
            use_type_invariant(self);
        }
        (self.nanos / NANOS_PER_SEC) as u64
    }

    /// Whether this duration is at least as long as `other`.
    pub fn at_least(&self, other: &Duration) -> (r: bool)
        ensures
            r == (self@ >= other@),
    {
        self.nanos >= other.nanos
    }
}

/// The whole seconds in `nanos` nanoseconds.
pub open spec fn whole_secs(nanos: nat) -> nat {
    nanos / (NANOS_PER_SEC as nat)
}

/// A point on a monotonic clock. Its view is its distance, in nanoseconds, from
/// the origin of that clock.
#[derive(Clone, Copy, Debug)]
pub struct Instant {
    since_origin: Duration,
}

impl View for Instant {
    type V = nat;

    closed spec fn view(&self) -> nat {
        self.since_origin@
    }
}

/// The nanoseconds from `earlier` to `now`; none where `now` comes before it.
pub open spec fn elapsed(earlier: nat, now: nat) -> nat {
    if earlier <= now {
        (now - earlier) as nat
    } else {
        0
    }
}

impl Instant {
    /// The point that lies `since_origin` after the origin of the clock.
    pub fn at(since_origin: Duration) -> (r: Instant)
        ensures
            r@ == since_origin@,
    {
        Instant { since_origin }
    }

    /// The time from `earlier` to this point, or zero where `earlier` is the later one.
    pub fn saturating_duration_since(&self, earlier: &Instant) -> (r: Duration)
        ensures
            r@ == elapsed(earlier@, self@),
    {
        let from: u128 = earlier.since_origin.nanos;
        let to: u128 = self.since_origin.nanos;
        proof {
            use_type_invariant(&self.since_origin);
        }
        if from <= to {
            Duration { nanos: to - from }
        } else {
            Duration { nanos: 0 }
        }
    }
}

} // verus!
