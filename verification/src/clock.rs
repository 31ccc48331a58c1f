//! The system's clocks. Nothing can be said of what they show.

use std::time::{Instant, SystemTime, UNIX_EPOCH};

use vstd::prelude::*;

verus! {

/// `std::time::Instant`, a reading of the monotonic clock.
#[verifier::external_type_specification]
#[verifier::external_body]
pub struct ExInstant(Instant);

/// `Instant::now`. Its value depends on when it is called.
#[verifier::external_body]
pub(crate) fn instant_now() -> (r: Instant)
{
    Instant::now()
}

/// `Instant::elapsed`, in nanoseconds. Its value depends on when it is called.
#[verifier::external_body]
pub(crate) fn elapsed_ns(at: &Instant) -> (r: u64)
{
    at.elapsed().as_nanos() as u64
}

/// `SystemTime::now`, in milliseconds since 1970; 0 where the clock stands before that. Its value
/// depends on when it is called.
#[verifier::external_body]
pub(crate) fn now_ms() -> (r: u64)
{
    SystemTime::now().duration_since(UNIX_EPOCH).unwrap_or_default().as_millis() as u64
}

} // verus!
