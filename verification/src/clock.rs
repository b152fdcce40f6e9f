//! Points and spans of monotonic time, in nanoseconds.

use vstd::prelude::*;

verus! {

/// Span of time.
#[derive(Debug, Clone, Copy, PartialEq, Eq, Structural)]
pub struct Duration {
    nanos: u128,
}

impl View for Duration {
    type V = nat;

    closed spec fn view(&self) -> nat {
        self.nanos as nat
    }
}

impl Duration {
    /// A span of `value` seconds.
    #[must_use]
    pub fn from_secs(value: u64) -> (r: Self)
        ensures
            r@ == value * 1_000_000_000,
    {
        Duration { nanos: value as u128 * 1_000_000_000 }
    }

    /// A span of `value` milliseconds.
    #[must_use]
    pub fn from_millis(value: u64) -> (r: Self)
        ensures
            r@ == value * 1_000_000,
    {
        Duration { nanos: value as u128 * 1_000_000 }
    }

    /// A span of `value` nanoseconds.
    #[must_use]
    pub fn from_nanos(value: u128) -> (r: Self)
        ensures
            r@ == value,
    {
        Duration { nanos: value }
    }

    /// The span in nanoseconds.
    #[must_use]
    pub fn as_nanos(self) -> (r: u128)
        ensures
            r == self@,
    {
        self.nanos
    }

    /// Tells whether the span is empty.
    #[must_use]
    pub fn is_zero(self) -> (r: bool)
        ensures
            r == (self@ == 0),
    {
        self.nanos == 0
    }
}

/// The last point in time that is counted to, in nanoseconds: a signed 64-bit number of
/// seconds and all but one of the nanoseconds of the next one.
pub const INSTANT_MAX_NANOS: u128 = 9_223_372_036_854_775_807_999_999_999;

/// Point in time, counted from a fixed origin.
#[derive(Debug, Clone, Copy, PartialEq, Eq, Structural)]
pub struct Instant {
    nanos: u128,
}

impl View for Instant {
    type V = nat;

    closed spec fn view(&self) -> nat {
        self.nanos as nat
    }
}

impl Instant {
    /// The point `value` nanoseconds after the origin.
    #[must_use]
    pub fn from_nanos(value: u64) -> (r: Self)
        ensures
            r@ == value,
    {
        Instant { nanos: value as u128 }
    }

    /// The point `span` later, where it can be represented.
    #[must_use]
    pub fn checked_add(self, span: Duration) -> (r: Option<Self>)
        ensures
            match r {
                Some(later) => self@ + span@ <= INSTANT_MAX_NANOS && later@ == self@ + span@,
                None => self@ + span@ > INSTANT_MAX_NANOS,
            },
    {
        if span.nanos > INSTANT_MAX_NANOS || self.nanos > INSTANT_MAX_NANOS - span.nanos {
            None
        } else {
            Some(Instant { nanos: self.nanos + span.nanos })
        }
    }

    /// Tells whether this point is at or before `other`.
    #[must_use]
    pub fn at_or_before(self, other: Self) -> (r: bool)
        ensures
            r == (self@ <= other@),
    {
        self.nanos <= other.nanos
    }

    /// The span from `earlier` to this point, or none where `earlier` is later.
    #[must_use]
    pub fn saturating_duration_since(self, earlier: Self) -> (r: Duration)
        ensures
            r@ == if earlier@ <= self@ {
                (self@ - earlier@) as nat
            } else {
                0
            },
    {
        Duration { nanos: self.nanos.saturating_sub(earlier.nanos) }
    }
}

} // verus!
