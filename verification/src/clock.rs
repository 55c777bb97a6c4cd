//! The machine's clocks.

use std::time::Instant;
use vstd::prelude::*;

verus! {

/// `std::time::Instant`, a point on the monotonic clock.
#[verifier::external_type_specification]
#[verifier::external_body]
pub struct ExInstant(Instant);

/// `SystemTime::now().duration_since(UNIX_EPOCH)`: the seconds since the Unix
/// epoch by the machine's clock, or `None` where the clock is set before it.
#[verifier::external_body]
pub(crate) fn unix_seconds() -> (r: Option<u64>) {
    std::time::SystemTime::now().duration_since(std::time::UNIX_EPOCH).ok().map(|d| d.as_secs())
}

/// `Instant::now`: the present point on the monotonic clock.
#[verifier::external_body]
pub(crate) fn instant_now() -> (r: Instant) {
    Instant::now()
}

/// `Instant::elapsed`, in milliseconds: the time since `start`, or `None` where
/// the count does not fit 64 bits.
#[verifier::external_body]
pub(crate) fn millis_since(start: &Instant) -> (r: Option<u64>) {
    u64::try_from(start.elapsed().as_millis()).ok()
}

/// The count of milliseconds that is reported for what the clock gave: the
/// count itself, or the largest number where the clock's count did not fit.
pub fn millis_or_max(elapsed: Option<u64>) -> (r: u64)
    ensures
        r == match elapsed {
            Some(ms) => ms,
            None => u64::MAX,
        },
{
    match elapsed {
        Some(ms) => ms,
        None => u64::MAX,
    }
}

} // verus!
