//! The clocks that instants are read from, in microseconds since the Unix
//! epoch: the wall clock, and a monotonic clock that counts on from the
//! wall clock's reading at its start.

use std::time::{Duration, Instant, SystemTime, SystemTimeError};
use vstd::prelude::*;

verus! {

#[verifier::external_type_specification]
#[verifier::external_body]
pub struct ExSystemTime(SystemTime);

#[verifier::external_type_specification]
#[verifier::external_body]
pub struct ExSystemTimeError(SystemTimeError);

#[verifier::external_type_specification]
#[verifier::external_body]
pub struct ExInstant(Instant);

/// Calls `Instant::now`. Nothing is claimed of the reading.
#[verifier::external_body]
pub(crate) fn monotonic_now() -> (reading: Instant) {
    Instant::now()
}

/// Calls `Instant::saturating_duration_since`: the time from `earlier` to
/// `later`, or none where `earlier` is the later one. Nothing is claimed
/// of the result.
#[verifier::external_body]
pub(crate) fn monotonic_between(later: &Instant, earlier: &Instant) -> (elapsed: Duration) {
    later.saturating_duration_since(*earlier)
}

/// Calls `SystemTime::now`. Nothing is claimed of the reading.
#[verifier::external_body]
pub(crate) fn system_now() -> (reading: SystemTime) {
    SystemTime::now()
}

/// Calls `SystemTime::duration_since` with the Unix epoch as the earlier
/// instant. Nothing is claimed of the result: it is an error for a clock
/// that is set before the epoch.
#[verifier::external_body]
pub(crate) fn since_epoch(reading: &SystemTime) -> (elapsed: Result<Duration, SystemTimeError>) {
    reading.duration_since(std::time::UNIX_EPOCH)
}

/// Calls `Duration::as_micros`. Nothing is claimed of the number.
#[verifier::external_body]
pub(crate) fn whole_micros(elapsed: &Duration) -> (micros: u128) {
    elapsed.as_micros()
}

/// The instant that a reading of the clock stands for, in microseconds
/// since the Unix epoch: the microseconds that have passed since the
/// epoch, at most the largest number; zero where the clock is set before
/// the epoch and no time has passed since it.
pub open spec fn instant_of(elapsed: Option<u128>) -> u64 {
    match elapsed {
        Some(micros) => if micros > u64::MAX {
            u64::MAX
        } else {
            micros as u64
        },
        None => 0,
    }
}

/// The instant that a reading of the clock stands for: `elapsed` holds the
/// microseconds since the Unix epoch, or nothing for a clock that is set
/// before it.
pub fn instant_from(elapsed: Option<u128>) -> (now: u64)
    ensures
        now == instant_of(elapsed),
{
    match elapsed {
        Some(micros) => {
            if micros > u64::MAX as u128 {
                u64::MAX
            } else {
                micros as u64
            }
        },
        None => 0,
    }
}

/// The clock reading in microseconds since the Unix epoch, as
/// `instant_from` gives it for what the clock says. Nothing is promised
/// of the reading itself.
pub fn now_micros() -> (now: u64) {
    let reading = system_now();
    let elapsed = match since_epoch(&reading) {
        Ok(elapsed) => Some(whole_micros(&elapsed)),
        Err(_) => None,
    };
    instant_from(elapsed)
}

/// The instant that lies `elapsed` microseconds after `anchor`, at most
/// the largest number.
pub open spec fn instant_past(anchor: u64, elapsed: u128) -> u64 {
    if anchor + elapsed > u64::MAX {
        u64::MAX
    } else {
        (anchor + elapsed) as u64
    }
}

/// The instant that lies `elapsed` microseconds after `anchor`.
pub fn instant_after_anchor(anchor: u64, elapsed: u128) -> (now: u64)
    ensures
        now == instant_past(anchor, elapsed),
        now >= anchor,
{
    if elapsed > (u64::MAX - anchor) as u128 {
        u64::MAX
    } else {
        anchor + elapsed as u64
    }
}

/// A monotonic clock. Its readings are microseconds since the Unix epoch:
/// the instant it is anchored at, and the time that has passed on the
/// monotonic clock since it was started.
#[derive(Debug)]
pub struct Clock {
    origin: Instant,
    anchor: u64,
}

impl Clock {
    /// The instant that the clock counts on from.
    pub closed spec fn anchor(&self) -> u64 {
        self.anchor
    }

    /// A clock that counts on from the wall clock's reading of now.
    pub fn start() -> (clock: Self) {
        Clock { origin: monotonic_now(), anchor: now_micros() }
    }

    /// A clock that counts on from `anchor` as of now.
    pub fn anchored_at(anchor: u64) -> (clock: Self)
        ensures
            clock.anchor() == anchor,
    {
        Clock { origin: monotonic_now(), anchor }
    }

    /// The instant that the clock counts on from.
    pub fn anchored(&self) -> (anchor: u64)
        ensures
            anchor == self.anchor(),
    {
        self.anchor
    }

    /// The reading of the clock: never before its anchor. What it is
    /// beyond that is for the monotonic clock to say.
    pub fn now(&self) -> (now: u64)
        ensures
            now >= self.anchor(),
    {
        let reading = monotonic_now();
        let elapsed = monotonic_between(&reading, &self.origin);
        instant_after_anchor(self.anchor, whole_micros(&elapsed))
    }
}

} // verus!
