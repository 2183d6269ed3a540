//! Time as the library sees it: whole nanoseconds on a monotonic clock.
//!
//! Every time that the library takes or keeps is a count of nanoseconds
//! from an origin that the caller fixes; a span is a count of nanoseconds
//! too. The functions whose name ends in `_at` take the time from the
//! caller and say exactly what they do with it. Their namesakes without
//! the ending read a clock of the library's own, of which nothing is
//! known but that it gives some time.

use std::time::Duration;
use std::time::Instant;
use vstd::prelude::*;

verus! {

/// Nanoseconds in one second.
pub const NANOS_PER_SEC: u64 = 1_000_000_000;

/// `std::time::Instant`, carried through as an opaque value.
#[verifier::external_type_specification]
#[verifier::external_body]
pub struct ExInstant(std::time::Instant);

/// `Instant::now` reads the monotonic clock; nothing is claimed of the reading.
pub assume_specification[ Instant::now ]() -> (t: Instant);

/// `Instant::elapsed` measures the time since the instant was taken; nothing
/// is claimed of the measure.
pub assume_specification[ Instant::elapsed ](t: &Instant) -> (d: Duration);

/// `Duration::as_nanos` gives a span in whole nanoseconds; nothing is claimed
/// of the number.
pub assume_specification[ Duration::as_nanos ](d: &Duration) -> (n: u128);

/// A monotonic clock that counts nanoseconds from the moment it was started.
pub struct Clock {
    origin: Instant,
}

impl Clock {
    /// Starts a clock at the present moment.
    pub fn start() -> (clock: Clock) {
        Clock { origin: Instant::now() }
    }

    /// Nanoseconds since the clock was started, held at `u64::MAX` beyond
    /// that. Nothing is known of the reading before it is made.
    pub fn now(&self) -> (nanos: u64) {
        let span = self.origin.elapsed();
        held_nanos(span.as_nanos())
    }
}

/// A count of nanoseconds as the library keeps it: held at `u64::MAX` where
/// it is larger.
pub fn held_nanos(nanos: u128) -> (held: u64)
    ensures
        held == if nanos > u64::MAX {
            u64::MAX as int
        } else {
            nanos as int
        },
{
    if nanos > u64::MAX as u128 {
        u64::MAX
    } else {
        nanos as u64
    }
}

/// The span of `secs` seconds and `subsec_nanos` nanoseconds, in nanoseconds.
pub open spec fn span_nanos(secs: u64, subsec_nanos: u32) -> int {
    secs * NANOS_PER_SEC + subsec_nanos
}

/// Converts a span given as seconds and nanoseconds to nanoseconds, held at
/// `u64::MAX` where the sum does not fit.
pub fn nanos_from_parts(secs: u64, subsec_nanos: u32) -> (nanos: u64)
    ensures
        nanos == if span_nanos(secs, subsec_nanos) > u64::MAX {
            u64::MAX as int
        } else {
            span_nanos(secs, subsec_nanos)
        },
{
    assert(secs * NANOS_PER_SEC <= u64::MAX * NANOS_PER_SEC) by (nonlinear_arith)
        requires
            secs <= u64::MAX,
    ;
    let wide: u128 = secs as u128 * NANOS_PER_SEC as u128 + subsec_nanos as u128;
    if wide > u64::MAX as u128 {
        u64::MAX
    } else {
        wide as u64
    }
}

} // verus!
