//! Wall-clock time, as far as the consensus logic needs it.
use vstd::prelude::*;
use std::time::{Duration, Instant};

verus! {

/// `std::time::Instant`, carried through opaquely.
#[verifier::external_type_specification]
#[verifier::external_body]
pub struct ExInstant(Instant);

/// `std::time::Instant::now`: the current instant.
/// Trusted: nothing is stated of the value, which depends on the clock.
#[verifier::external_body]
pub(crate) fn instant_now() -> Instant {
    Instant::now()
}

/// `std::time::Instant::elapsed` in whole seconds.
/// Trusted: nothing is stated of the value, which depends on the clock.
#[verifier::external_body]
pub(crate) fn elapsed_secs(start: &Instant) -> u64 {
    start.elapsed().as_secs()
}

/// `std::time::Duration::as_secs`: whole seconds of `d`.
/// Trusted: nothing is stated of the value; the duration is opaque here.
#[verifier::external_body]
pub(crate) fn duration_secs(d: &Duration) -> u64 {
    d.as_secs()
}

/// `std::time::SystemTime::now` as seconds since the Unix epoch.
/// Trusted: nothing is stated of the value, which depends on the clock; the call
/// panics if the clock is before 1970, as the underlying `unwrap` does.
#[verifier::external_body]
pub(crate) fn unix_now_secs() -> u64 {
    std::time::SystemTime::now().duration_since(std::time::UNIX_EPOCH).unwrap().as_secs()
}

} // verus!
