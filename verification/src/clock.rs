//! Monotonic time as the library sees it: instants are opaque, and the only
//! number drawn from them is the nanoseconds elapsed since one of them.
use std::time::{Duration, Instant};
use vstd::prelude::*;

verus! {

/// A point in time on the monotonic clock (`std::time::Instant`).
#[verifier::external_type_specification]
#[verifier::external_body]
pub struct ExInstant(Instant);

/// Calls `Instant::now`. Trusted; nothing is claimed of the instant it
/// returns, which depends on when it is called.
#[verifier::external_body]
pub(crate) fn instant_now() -> Instant {
    Instant::now()
}

/// Calls `Instant::elapsed`. Trusted; nothing is claimed of the duration it
/// returns, which depends on when it is called (it saturates at zero and
/// does not panic).
#[verifier::external_body]
pub(crate) fn instant_elapsed(origin: &Instant) -> Duration {
    origin.elapsed()
}

/// Calls `Duration::as_nanos`. Trusted only to return; a duration is opaque
/// here, so nothing is claimed of the number.
#[verifier::external_body]
pub(crate) fn duration_as_nanos(d: &Duration) -> u128 {
    d.as_nanos()
}

/// Nanoseconds elapsed since `origin`, read from the monotonic clock.
pub fn nanos_since(origin: &Instant) -> u128 {
    let d = instant_elapsed(origin);
    duration_as_nanos(&d)
}

/// Nanoseconds from `since` to `now`, zero when `now` is not later.
pub open spec fn elapsed_ns(now: u128, since: u128) -> int {
    if now >= since {
        now - since
    } else {
        0
    }
}

/// `elapsed_ns` computed without overflow.
pub fn elapsed_between(now: u128, since: u128) -> (r: u128)
    ensures
        r == elapsed_ns(now, since),
{
    if now >= since {
        now - since
    } else {
        0
    }
}

/// A span of milliseconds in nanoseconds.
pub open spec fn ms_to_ns(ms: u64) -> int {
    ms * 1_000_000
}

/// `ms_to_ns` computed without overflow.
pub fn millis_to_nanos(ms: u64) -> (r: u128)
    ensures
        r == ms_to_ns(ms),
{
    (ms as u128) * 1_000_000
}

} // verus!
