//! Reading the time. The engine counts in whole milliseconds since it was
//! made; the calls that read the machine's clock stand here.
use vstd::prelude::*;
use std::time::{Duration, Instant};

verus! {

/// A moment on the monotonic clock of `std`.
#[verifier::external_type_specification]
#[verifier::external_body]
pub struct ExInstant(Instant);

/// `Instant::now`: the current moment. Nothing is claimed of it.
#[verifier::external_body]
pub(crate) fn clock_start() -> Instant {
    Instant::now()
}

/// `Instant::elapsed`: the time that has passed since `start`. Nothing is
/// claimed of it.
#[verifier::external_body]
pub(crate) fn clock_elapsed(start: &Instant) -> Duration {
    start.elapsed()
}

/// `Duration::as_millis`: the whole milliseconds in a duration. Nothing is
/// claimed of the number.
#[verifier::external_body]
pub(crate) fn whole_millis(duration: &Duration) -> u128 {
    duration.as_millis()
}

/// Milliseconds since `start`, held at the largest number that fits.
/// Whatever the clock shows may come back: the time is the machine's to
/// tell, and `held_millis` says what becomes of each number it tells.
pub(crate) fn millis_since(start: &Instant) -> u64 {
    let elapsed = clock_elapsed(start);
    let millis = whole_millis(&elapsed);
    held_millis(millis)
}

/// A count of milliseconds as the engine holds it: the count itself, or
/// the largest number that fits where the count is larger.
pub open spec fn spec_held_millis(millis: u128) -> u64 {
    if millis > u64::MAX {
        u64::MAX
    } else {
        millis as u64
    }
}

/// Brings a count of milliseconds into the range of the engine's times: a
/// count that does not fit is held at the largest time.
pub fn held_millis(millis: u128) -> (held: u64)
    ensures
        held == spec_held_millis(millis),
{
    if millis > 0xffff_ffff_ffff_ffff {
        0xffff_ffff_ffff_ffff
    } else {
        millis as u64
    }
}

} // verus!
