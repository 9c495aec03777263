//! The quanta high-precision clock that executors read to decide which
//! node is due.

use vstd::prelude::*;

use quanta::{Clock, Instant};

verus! {

#[verifier::external_type_specification]
#[verifier::external_body]
pub struct ExQuantaClock(quanta::Clock);

#[verifier::external_type_specification]
#[verifier::external_body]
pub struct ExQuantaInstant(quanta::Instant);

/// Calls `quanta::Clock::new`.
#[verifier::external_body]
pub(crate) fn new_clock() -> Clock {
    Clock::new()
}

/// Calls `quanta::Clock::now`.  The reading depends on the time, so
/// nothing is claimed of it.
#[verifier::external_body]
pub(crate) fn clock_now(clock: &Clock) -> Instant {
    clock.now()
}

/// Calls `quanta::Instant::duration_since` and reads the result in whole
/// microseconds.  quanta returns a zero duration when `earlier` is not
/// earlier; nothing more is claimed, as an instant is opaque here.
#[verifier::external_body]
pub(crate) fn micros_since(later: Instant, earlier: Instant) -> u128 {
    later.duration_since(earlier).as_micros()
}

/// Calls `quanta::Instant::duration_since` and reads the result in whole
/// milliseconds.  Nothing is claimed of the reading.
#[verifier::external_body]
pub(crate) fn millis_since(later: Instant, earlier: Instant) -> u128 {
    later.duration_since(earlier).as_millis()
}

} // verus!
