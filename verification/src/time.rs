//! Lengths of time as plain numbers, and the clock that reads them.

use vstd::prelude::*;

verus! {

/// A length of time in whole nanoseconds. A point in time is written as the
/// span since some fixed start.
#[derive(Debug, Clone, Copy, PartialEq, Eq, Structural)]
pub struct Span {
    pub nanos: u128,
}

/// Nanoseconds in one second.
pub const NANOS_PER_SEC: u128 = 1_000_000_000;

impl Span {
    /// The empty span.
    pub fn zero() -> (r: Span)
        ensures
            r.nanos == 0,
    {
        Span { nanos: 0 }
    }

    /// The span of `secs` whole seconds.
    pub open spec fn of_secs(secs: u64) -> Span {
        Span { nanos: (secs * 1_000_000_000) as u128 }
    }

    /// A span of `secs` whole seconds.
    pub fn from_secs(secs: u64) -> (r: Span)
        ensures
            r == Span::of_secs(secs),
            r.nanos == secs * 1_000_000_000,
    {
        Span { nanos: secs as u128 * NANOS_PER_SEC }
    }

    /// A span of `nanos` nanoseconds.
    pub fn from_nanos(nanos: u128) -> (r: Span)
        ensures
            r.nanos == nanos,
    {
        Span { nanos }
    }

    /// The whole seconds in the span, capped at `u64::MAX`.
    pub fn as_secs(&self) -> (r: u64)
        ensures
            r as int == if self.nanos / NANOS_PER_SEC <= u64::MAX {
                (self.nanos / NANOS_PER_SEC) as int
            } else {
                u64::MAX as int
            },
    {
        let secs: u128 = self.nanos / NANOS_PER_SEC;
        if secs <= u64::MAX as u128 {
            secs as u64
        } else {
            u64::MAX
        }
    }

    /// Whether the span is empty.
    pub fn is_zero(&self) -> (r: bool)
        ensures
            r == (self.nanos == 0),
    {
        self.nanos == 0
    }

    /// The time that has passed at `now` since this point in time; nothing
    /// where `now` lies before it.
    pub open spec fn elapsed_at(self, now: Span) -> nat {
        if now.nanos >= self.nanos {
            (now.nanos - self.nanos) as nat
        } else {
            0
        }
    }

    /// The part of this span that is left once `other` is taken away;
    /// nothing where `other` is the longer.
    pub fn saturating_sub(&self, other: Span) -> (r: Span)
        ensures
            r.nanos == other.elapsed_at(*self),
    {
        if self.nanos >= other.nanos {
            Span { nanos: self.nanos - other.nanos }
        } else {
            Span { nanos: 0 }
        }
    }
}

/// `std::time::Instant`, a reading of the machine's monotonic clock. The
/// proofs see nothing inside it.
#[verifier::external_type_specification]
#[verifier::external_body]
pub struct ExInstant(std::time::Instant);

/// Calls `Instant::now`, which reads the machine's monotonic clock.
/// Nothing is claimed of the value.
#[verifier::external_body]
fn instant_now() -> std::time::Instant {
    std::time::Instant::now()
}

/// Calls `Instant::elapsed` and gives the result in nanoseconds
/// (`Duration::as_nanos`). It depends on the clock: nothing is claimed
/// of the value.
#[verifier::external_body]
fn nanos_since(start: &std::time::Instant) -> u128 {
    start.elapsed().as_nanos()
}

/// A clock that tells the time since it was started.
pub struct Clock {
    start: std::time::Instant,
}

impl Clock {
    /// A clock that starts now.
    pub fn start() -> Clock {
        Clock { start: instant_now() }
    }

    /// The time since the clock was started.
    pub fn now(&self) -> Span {
        Span { nanos: nanos_since(&self.start) }
    }
}

} // verus!
