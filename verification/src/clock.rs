//! Spans of time and points on a monotonic clock, to the nanosecond.

use vstd::prelude::*;

verus! {

/// The nanoseconds of one second.
pub const NANOS_PER_SEC: u32 = 1_000_000_000;

/// A span of time: whole seconds and the nanoseconds of the next second.
/// Its view is the span in nanoseconds.
#[derive(Debug, Clone, Copy, PartialEq, Eq, Structural)]
pub struct Duration {
    secs: u64,
    nanos: u32,
}

/// The longest span that `Duration` can hold, in nanoseconds.
pub open spec fn max_nanos() -> nat {
    (u64::MAX as nat) * 1_000_000_000 + 999_999_999
}

/// `x` without what exceeds the longest span.
pub open spec fn clipped(x: nat) -> nat {
    if x <= max_nanos() {
        x
    } else {
        max_nanos()
    }
}

impl View for Duration {
    type V = nat;

    closed spec fn view(&self) -> nat {
        self.secs as nat * 1_000_000_000 + self.nanos as nat
    }
}

impl Duration {
    #[verifier::type_invariant]
    spec fn inv(self) -> bool {
        self.nanos < NANOS_PER_SEC
    }

    /// No time at all.
    pub fn zero() -> (d: Duration)
        ensures
            d@ == 0,
    {
        Duration { secs: 0, nanos: 0 }
    }

    /// A span of whole seconds.
    pub fn from_secs(secs: u64) -> (d: Duration)
        ensures
            d@ == secs * 1_000_000_000,
    {
        Duration { secs, nanos: 0 }
    }

    /// A span of whole milliseconds.
    pub fn from_millis(millis: u64) -> (d: Duration)
        ensures
            d@ == millis * 1_000_000,
    {
        Duration { secs: millis / 1_000, nanos: (millis % 1_000) as u32 * 1_000_000 }
    }

    /// A span of whole microseconds.
    pub fn from_micros(micros: u64) -> (d: Duration)
        ensures
            d@ == micros * 1_000,
    {
        Duration { secs: micros / 1_000_000, nanos: (micros % 1_000_000) as u32 * 1_000 }
    }

    /// A span of nanoseconds.
    pub fn from_nanos(nanos: u64) -> (d: Duration)
        ensures
            d@ == nanos,
    {
        Duration { secs: nanos / 1_000_000_000, nanos: (nanos % 1_000_000_000) as u32 }
    }

    /// A span of nanoseconds, cut off at the longest span.
    pub fn from_total_nanos(nanos: u128) -> (d: Duration)
        ensures
            d@ == clipped(nanos as nat),
    {
        let secs: u128 = nanos / 1_000_000_000;
        if secs > u64::MAX as u128 {
            Duration { secs: u64::MAX, nanos: 999_999_999 }
        } else {
            Duration { secs: secs as u64, nanos: (nanos % 1_000_000_000) as u32 }
        }
    }

    /// The span in nanoseconds.
    pub fn as_nanos(&self) -> (nanos: u128)
        ensures
            nanos == self@,
            self@ <= max_nanos(),
    {
        proof {
            use_type_invariant(self);
        }
        self.secs as u128 * 1_000_000_000 + self.nanos as u128
    }

    /// Whether this is no time at all.
    pub fn is_zero(&self) -> (zero: bool)
        ensures
            zero == (self@ == 0),
    {
        self.as_nanos() == 0
    }

    /// This span without `other`, or no time if `other` is longer.
    pub fn saturating_sub(&self, other: Duration) -> (d: Duration)
        ensures
            d@ == if self@ >= other@ { (self@ - other@) as nat } else { 0 },
    {
        let a: u128 = self.as_nanos();
        let b: u128 = other.as_nanos();
        if a >= b {
            Duration::from_total_nanos(a - b)
        } else {
            Duration::zero()
        }
    }

    /// This span and `other` together, cut off at the longest span.
    pub fn saturating_add(&self, other: Duration) -> (d: Duration)
        ensures
            d@ == clipped(self@ + other@),
    {
        let a: u128 = self.as_nanos();
        let b: u128 = other.as_nanos();
        Duration::from_total_nanos(a + b)
    }

    /// Whether this span is shorter than `other`.
    pub fn is_shorter_than(&self, other: Duration) -> (shorter: bool)
        ensures
            shorter == (self@ < other@),
    {
        self.as_nanos() < other.as_nanos()
    }
}

/// A point on a monotonic clock, given by how far it lies behind the clock's
/// start. Its view is that distance in nanoseconds.
#[derive(Debug, Clone, Copy, PartialEq, Eq, Structural)]
pub struct Instant {
    since_start: Duration,
}

impl View for Instant {
    type V = nat;

    closed spec fn view(&self) -> nat {
        self.since_start@
    }
}

impl Instant {
    /// The point that lies `since_start` behind the clock's start.
    pub fn at(since_start: Duration) -> (i: Instant)
        ensures
            i@ == since_start@,
    {
        Instant { since_start }
    }

    /// The time from `earlier` to this point, or no time if `earlier` is later.
    pub fn saturating_duration_since(&self, earlier: Instant) -> (d: Duration)
        ensures
            d@ == if self@ >= earlier@ { (self@ - earlier@) as nat } else { 0 },
    {
        self.since_start.saturating_sub(earlier.since_start)
    }
}

/// A span of time is cut off at the longest there is, and left as it is below that.
pub proof fn law_spans_are_cut_off(x: nat)
    ensures
        clipped(x) <= x,
        clipped(x) <= max_nanos(),
        x <= max_nanos() ==> clipped(x) == x,
        x > max_nanos() ==> clipped(x) == max_nanos(),
        max_nanos() == u64::MAX * 1_000_000_000 + 999_999_999,
{
}

} // verus!
