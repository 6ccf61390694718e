//! Readings of the system's clocks.

use std::time::Duration;
use std::time::Instant;
use std::time::SystemTime;
use vstd::prelude::*;

verus! {

/// `std::time::SystemTime`, carried through unopened.
#[verifier::external_type_specification]
#[verifier::external_body]
pub struct ExSystemTime(std::time::SystemTime);

/// `std::time::Instant`, carried through unopened.
#[verifier::external_type_specification]
#[verifier::external_body]
pub struct ExInstant(std::time::Instant);

/// Calls `SystemTime::now`. Nothing is claimed of the reading.
#[verifier::external_body]
fn system_now() -> SystemTime {
    SystemTime::now()
}

/// Calls `SystemTime::duration_since` with the Unix epoch; `None` if the clock stands before it.
/// Nothing is claimed of the result: it rests on the clock.
#[verifier::external_body]
fn since_epoch(t: SystemTime) -> Option<Duration> {
    t.duration_since(SystemTime::UNIX_EPOCH).ok()
}

/// Calls `Duration::as_millis`. Nothing is claimed of the number: it rests on the clock.
#[verifier::external_body]
fn as_millis(d: Duration) -> u128 {
    d.as_millis()
}

/// Calls `Duration::as_nanos`. Nothing is claimed of the number: it rests on the clock.
#[verifier::external_body]
fn as_nanos(d: Duration) -> u128 {
    d.as_nanos()
}

/// Calls `Instant::now`. Nothing is claimed of the reading.
#[verifier::external_body]
fn instant_now() -> Instant {
    Instant::now()
}

/// Calls `Instant::elapsed`. Nothing is claimed of the result: it rests on the clock.
#[verifier::external_body]
fn elapsed(start: &Instant) -> Duration {
    start.elapsed()
}

/// Milliseconds since the Unix epoch; 0 if the clock stands before it.
pub fn now_millis() -> u64 {
    match since_epoch(system_now()) {
        Some(d) => (as_millis(d) % 0x1_0000_0000_0000_0000) as u64,
        None => 0,
    }
}

/// Milliseconds and nanoseconds since the Unix epoch, of one reading; 0 if the clock stands before
/// it. Of the nanoseconds the low 64 bits are kept.
pub fn now_exact() -> (u64, u64) {
    match since_epoch(system_now()) {
        Some(d) => (
            (as_millis(d) % 0x1_0000_0000_0000_0000) as u64,
            (as_nanos(d) % 0x1_0000_0000_0000_0000) as u64,
        ),
        None => (0, 0),
    }
}

/// A clock that never runs backwards: milliseconds since it was made.
pub struct Clock {
    start: Instant,
}

impl Clock {
    /// A clock that starts now.
    pub fn new() -> Clock {
        Clock { start: instant_now() }
    }

    /// Milliseconds since the clock was made.
    pub fn millis(&self) -> u64 {
        (as_millis(elapsed(&self.start)) % 0x1_0000_0000_0000_0000) as u64
    }
}

} // verus!
