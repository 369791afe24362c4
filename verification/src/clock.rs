//! The monitor's clock: nanoseconds since the clock was started.

use vstd::prelude::*;

verus! {

/// A point in time of `tokio`'s monotonic clock.
#[verifier::external_type_specification]
#[verifier::external_body]
pub struct ExInstant(tokio::time::Instant);

/// Calls `tokio::time::Instant::now`. Nothing is claimed of the result: it
/// is the time of the call.
#[verifier::external_body]
fn instant_now() -> tokio::time::Instant {
    tokio::time::Instant::now()
}

/// Calls `tokio::time::Instant::elapsed` and hands out the nanoseconds, at
/// most `u64::MAX`. Nothing is claimed of the result: it is the time that
/// has passed at the call.
#[verifier::external_body]
fn nanos_since(origin: &tokio::time::Instant) -> u64 {
    u64::try_from(origin.elapsed().as_nanos()).unwrap_or(u64::MAX)
}

/// A clock that counts the nanoseconds since it was started.
pub struct Clock {
    origin: tokio::time::Instant,
}

impl Clock {
    /// A clock that starts now.
    pub fn start() -> Clock {
        Clock { origin: instant_now() }
    }

    /// The nanoseconds that have passed since the clock was started.
    pub fn now(&self) -> u64 {
        nanos_since(&self.origin)
    }
}

} // verus!
