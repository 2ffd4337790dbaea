//! The two clocks of the firewall: wall-clock seconds for signed cookies and
//! a monotonic nanosecond counter for rate limits and sessions.
//!
//! Nothing is promised of what a clock reads. Every decision that depends on
//! the time is made by a function that takes the reading as an argument.

use vstd::prelude::*;

verus! {

/// `std::time::Instant`, of which nothing is known but that it can be asked
/// how much time has passed.
#[verifier::external_type_specification]
#[verifier::external_body]
pub struct ExInstant(std::time::Instant);

/// `SystemTime::now`, as whole seconds since the Unix epoch; 0 where the
/// system clock stands before the epoch.
#[verifier::external_body]
pub(crate) fn system_time_secs() -> u64 {
    match std::time::SystemTime::now().duration_since(std::time::UNIX_EPOCH) {
        Ok(d) => d.as_secs(),
        Err(_) => 0,
    }
}

/// `SystemTime::now`, as nanoseconds since the Unix epoch; 0 where the
/// system clock stands before the epoch.
#[verifier::external_body]
pub(crate) fn system_time_nanos() -> u128 {
    match std::time::SystemTime::now().duration_since(std::time::UNIX_EPOCH) {
        Ok(d) => d.as_nanos(),
        Err(_) => 0,
    }
}

/// `Instant::now`.
#[verifier::external_body]
pub(crate) fn instant_now() -> std::time::Instant {
    std::time::Instant::now()
}

/// `Instant::elapsed`, in nanoseconds.
#[verifier::external_body]
pub(crate) fn instant_elapsed_nanos(origin: &std::time::Instant) -> u128 {
    origin.elapsed().as_nanos()
}

/// Nanoseconds in a second.
pub const NANOS_PER_SEC: u64 = 1_000_000_000;

/// A monotonic clock that counts nanoseconds from the moment it was made.
#[derive(Debug)]
pub struct Clock {
    origin: std::time::Instant,
}

impl Clock {
    /// A clock that starts now.
    pub fn new() -> Clock {
        Clock { origin: instant_now() }
    }

    /// Nanoseconds since the clock was made, held at `u64::MAX` once the
    /// count no longer fits (after some 584 years).
    pub fn now_nanos(&self) -> u64 {
        let n = instant_elapsed_nanos(&self.origin);
        if n > u64::MAX as u128 {
            u64::MAX
        } else {
            n as u64
        }
    }
}

/// The age, at `now`, of something stamped `timestamp` on the same clock; a
/// stamp from the future counts as new.
pub open spec fn age(now: u64, timestamp: u64) -> int {
    if now >= timestamp {
        now - timestamp
    } else {
        0
    }
}

/// Seconds since the Unix epoch on the system clock.
pub fn unix_now_secs() -> u64 {
    system_time_secs()
}

/// Nanoseconds since the Unix epoch on the system clock.
pub fn unix_now_nanos() -> u128 {
    system_time_nanos()
}

} // verus!
