//! The monotonic clock the harness times candidates with.
//!
//! Reading the clock is the one thing here that is taken on trust; what is
//! done with a reading is verified.

use core::time::Duration;
use std::time::Instant;
use vstd::prelude::*;

verus! {

/// `std::time::Instant`: an opaque reading of the monotonic clock.
#[verifier::external_type_specification]
#[verifier::external_body]
pub struct ExInstant(std::time::Instant);

/// `Instant::now` returns the current reading of the clock. Nothing is
/// claimed of the reading.
pub assume_specification[ std::time::Instant::now ]() -> Instant
;

/// `Instant::elapsed` returns the time that has passed since the reading was
/// taken. Nothing is claimed of the amount.
pub assume_specification[ std::time::Instant::elapsed ](start: &Instant) -> Duration
;

/// `Duration::as_nanos` returns the whole duration in nanoseconds. Nothing is
/// claimed of the number.
pub assume_specification[ core::time::Duration::as_nanos ](duration: &Duration) -> u128
;

/// The nearest 64-bit count to a count of nanoseconds.
pub open spec fn saturated(nanos: u128) -> u64 {
    if nanos > u64::MAX {
        u64::MAX
    } else {
        nanos as u64
    }
}

/// Narrows a count of nanoseconds to 64 bits, saturating.
pub fn saturate_nanos(nanos: u128) -> (r: u64)
    ensures
        r == saturated(nanos),
{
    if nanos > 0xffff_ffff_ffff_ffff {
        u64::MAX
    } else {
        nanos as u64
    }
}

/// A running stopwatch.
pub struct Stopwatch {
    started: Instant,
}

impl Stopwatch {
    /// Starts a stopwatch now.
    pub fn start() -> Stopwatch {
        Stopwatch { started: Instant::now() }
    }

    /// Nanoseconds since the stopwatch was started, saturated to 64 bits.
    pub fn elapsed_nanos(&self) -> u64 {
        let elapsed: Duration = self.started.elapsed();
        saturate_nanos(elapsed.as_nanos())
    }
}

} // verus!
