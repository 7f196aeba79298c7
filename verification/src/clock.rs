//! Trusted access to the wall clock. A timing sample depends on when the
//! call happens, so none of these items promises anything about the value
//! measured: whatever a caller proves holds for every possible reading.

use vstd::prelude::*;
use std::time::Duration;
use std::time::Instant;

verus! {

#[verifier::external_type_specification]
#[verifier::external_body]
pub struct ExInstant(Instant);

/// Relies on `std::time::Instant::now`: an opaque timestamp for the moment
/// of the call.
#[verifier::external_body]
pub fn now() -> Instant {
    Instant::now()
}

/// Relies on `std::time::Instant::duration_since`: the time from `earlier`
/// to `later`, or a zero duration if `earlier` is in fact the later of the
/// two (the call saturates instead of failing).
#[verifier::external_body]
fn duration_between(later: Instant, earlier: Instant) -> Duration {
    later.duration_since(earlier)
}

/// Relies on `std::time::Duration::as_micros`: the duration in whole
/// microseconds, rounding down.
#[verifier::external_body]
fn duration_micros(d: Duration) -> u128 {
    d.as_micros()
}

/// The wall-clock time elapsed since `start`, in whole microseconds.
pub fn since(start: Instant) -> u128 {
    let stop = now();
    duration_micros(duration_between(stop, start))
}

} // verus!
