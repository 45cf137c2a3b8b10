//! Spans and instants of virtual time.

use vstd::prelude::*;

verus! {

/// A span of time in whole nanoseconds.
#[derive(Debug, Clone, Copy, PartialEq, Eq, PartialOrd, Ord, Hash, Structural)]
pub struct Duration {
    /// Length in nanoseconds.
    pub nanos: u128,
}

impl Duration {
    /// The empty span.
    pub fn zero() -> (span: Self)
        ensures
            span.nanos == 0,
    {
        Duration { nanos: 0 }
    }

    /// A span of whole seconds.
    pub fn from_secs(secs: u64) -> (span: Self)
        ensures
            span.nanos == secs * 1_000_000_000,
    {
        Duration { nanos: secs as u128 * 1_000_000_000 }
    }

    /// A span of whole milliseconds.
    pub fn from_millis(millis: u64) -> (span: Self)
        ensures
            span.nanos == millis * 1_000_000,
    {
        Duration { nanos: millis as u128 * 1_000_000 }
    }

    /// The whole milliseconds of the span.
    pub fn as_millis(self) -> (millis: u128)
        ensures
            millis == self.nanos / 1_000_000,
    {
        self.nanos / 1_000_000
    }

    /// The whole microseconds of the span.
    pub fn as_micros(self) -> (micros: u128)
        ensures
            micros == self.nanos / 1_000,
    {
        self.nanos / 1_000
    }
}

/// An instant of virtual time in microseconds.
#[derive(Debug, Clone, Copy, PartialEq, Eq, PartialOrd, Ord, Hash, Structural)]
pub struct Ticks {
    /// Microseconds since the start.
    pub micros: u64,
}

impl Ticks {
    /// Wraps a number of microseconds.
    pub fn from_micros(micros: u64) -> (ticks: Self)
        ensures
            ticks.micros == micros,
    {
        Ticks { micros }
    }

    /// Returns the microseconds.
    pub fn as_micros(self) -> (micros: u64)
        ensures
            micros == self.micros,
    {
        self.micros
    }

    /// The instant that lies the whole microseconds of `span` later; the last
    /// instant where there is none.
    pub open spec fn later(self, span: Duration) -> Self {
        if self.micros + span.nanos / 1_000 <= u64::MAX {
            Ticks { micros: (self.micros + span.nanos / 1_000) as u64 }
        } else {
            Ticks { micros: u64::MAX }
        }
    }

    /// Advances by the whole microseconds of `span`, saturating.
    pub fn advance_by(self, span: Duration) -> (ticks: Self)
        ensures
            ticks == self.later(span),
    {
        let step: u128 = span.as_micros();
        if step <= (u64::MAX - self.micros) as u128 {
            Ticks { micros: self.micros + step as u64 }
        } else {
            Ticks { micros: u64::MAX }
        }
    }
}

/// Time goes on by the whole microseconds of a span, never backwards, and stops at its
/// end.
pub proof fn law_time_goes_on(ticks: Ticks, span: Duration)
    ensures
        ticks.later(span).micros >= ticks.micros,
        ticks.micros + span.nanos / 1_000 <= u64::MAX ==> ticks.later(span).micros
            == ticks.micros + span.nanos / 1_000,
        ticks.micros + span.nanos / 1_000 > u64::MAX ==> ticks.later(span).micros == u64::MAX,
        ticks.later(Duration { nanos: 0 }) == ticks,
{
}

} // verus!
