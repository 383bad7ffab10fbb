use vstd::prelude::*;

verus! {

/// `std::time::Instant` is carried through opaquely: the library only ever
/// asks how many milliseconds have passed since one was taken.
#[verifier::external_type_specification]
#[verifier::external_body]
pub struct ExInstant(std::time::Instant);

/// Relies on `Instant::now`: the current reading of the monotonic clock.
#[verifier::external_body]
pub(crate) fn instant_now() -> (r: std::time::Instant) {
    std::time::Instant::now()
}

/// Relies on `Instant::elapsed`: whole milliseconds since `origin`, read from
/// the monotonic clock (saturating at `u64::MAX`, which no process reaches).
#[verifier::external_body]
pub(crate) fn millis_since(origin: &std::time::Instant) -> (r: u64) {
    u64::try_from(origin.elapsed().as_millis()).unwrap_or(u64::MAX)
}

} // verus!
