//! Time spans and points in time.

use std::time::Instant;
use vstd::prelude::*;

verus! {

/// A point in time of the monotonic clock.
#[verifier::external_type_specification]
#[verifier::external_body]
pub struct ExInstant(std::time::Instant);

/// `std::time::Instant::now`: the current time. Nothing is claimed of it.
pub assume_specification[ std::time::Instant::now ]() -> std::time::Instant
;

/// `std::time::Instant::elapsed`: the time that has passed since the instant.
/// Nothing is claimed of it: it depends on when the call is made.
pub assume_specification[ std::time::Instant::elapsed ](
    instant: &std::time::Instant,
) -> std::time::Duration
;

/// `std::time::Duration::as_nanos`: the length of the span in nanoseconds. Nothing is
/// claimed of it, as nothing is known of the spans that the clock gives.
pub assume_specification[ std::time::Duration::as_nanos ](span: &std::time::Duration) -> u128
;

/// A span of time.
#[derive(Clone, Copy, Debug, PartialEq, Eq, Structural)]
pub struct Duration {
    pub nanos: u128,
}

impl Duration {
    /// The span of `secs` seconds.
    pub fn from_secs(secs: u64) -> (r: Duration)
        ensures
            r.nanos == secs * 1_000_000_000,
    {
        Duration { nanos: secs as u128 * 1_000_000_000 }
    }

    /// The span of `millis` milliseconds.
    pub fn from_millis(millis: u64) -> (r: Duration)
        ensures
            r.nanos == millis * 1_000_000,
    {
        Duration { nanos: millis as u128 * 1_000_000 }
    }

    /// The span of `nanos` nanoseconds.
    pub fn from_nanos(nanos: u128) -> (r: Duration)
        ensures
            r.nanos == nanos,
    {
        Duration { nanos }
    }

    /// How many nanoseconds the span has.
    pub fn as_nanos(&self) -> (r: u128)
        ensures
            r == self.nanos,
    {
        self.nanos
    }
}

/// Whether `instant` is what the clock gave when it was read.
pub open spec fn clock_read(instant: Instant) -> bool {
    call_ensures(Instant::now, (), instant)
}

/// Whether `age` is the time that the clock gave as passed since `instant`, to the nanosecond.
pub open spec fn clock_measured(instant: Instant, age: Duration) -> bool {
    exists|span: std::time::Duration| #[trigger]
        call_ensures(Instant::elapsed, (&instant,), span) && call_ensures(
            std::time::Duration::as_nanos,
            (&span,),
            age.nanos,
        )
}

/// The time that has passed since `instant`, by the clock.
pub(crate) fn elapsed_since(instant: &Instant) -> (r: Duration)
    ensures
        clock_measured(*instant, r),
{
    let span = instant.elapsed();
    Duration { nanos: span.as_nanos() }
}

} // verus!
