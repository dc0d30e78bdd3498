//! Where the library reads a clock. Every rule that depends on time is stated
//! over a time in milliseconds that the caller hands in; the functions here
//! only supply that time to callers that have none of their own.

use vstd::prelude::*;
use std::time::{Instant, SystemTime, UNIX_EPOCH};

verus! {

#[verifier::external_type_specification]
#[verifier::external_body]
pub struct ExInstant(Instant);

/// `Instant::now` of std: the present moment on the monotonic clock. Nothing
/// is claimed of it.
#[verifier::external_body]
fn instant_now() -> Instant {
    Instant::now()
}

/// `Instant::elapsed` of std, in whole milliseconds: the time since `origin`
/// on the monotonic clock. Nothing is claimed of it.
#[verifier::external_body]
fn elapsed_ms(origin: &Instant) -> u64 {
    origin.elapsed().as_millis() as u64
}

#[verifier::external_type_specification]
#[verifier::external_body]
pub struct ExSystemTime(SystemTime);

/// `SystemTime::now` of std: the present moment on the system clock.
/// Nothing is claimed of it.
#[verifier::external_body]
fn system_now() -> SystemTime {
    SystemTime::now()
}

/// `SystemTime::duration_since` of std against the Unix epoch, in whole
/// milliseconds; nothing for a moment before the epoch. Nothing is claimed
/// of the number.
#[verifier::external_body]
fn millis_since_epoch(moment: &SystemTime) -> Option<u64> {
    match moment.duration_since(UNIX_EPOCH) {
        Ok(since) => Some(since.as_millis() as u64),
        Err(_) => None,
    }
}

/// The system clock's time in milliseconds since the Unix epoch; 0 if the
/// clock stands before the epoch.
pub(crate) fn unix_time_ms() -> u64 {
    let moment = system_now();
    match millis_since_epoch(&moment) {
        Some(ms) => ms,
        None => 0,
    }
}

/// A monotonic clock that counts milliseconds from the moment it was made.
#[derive(Debug, Clone, Copy)]
pub struct MonotonicClock {
    origin: Instant,
}

impl MonotonicClock {
    pub fn new() -> MonotonicClock {
        MonotonicClock { origin: instant_now() }
    }

    /// Milliseconds since the clock was made.
    pub fn now_ms(&self) -> u64 {
        elapsed_ms(&self.origin)
    }
}

} // verus!
