//! The wall clock.

use std::time::{Duration, SystemTime, SystemTimeError};
use vstd::prelude::*;

verus! {

/// A reading of the system's wall clock.
#[verifier::external_type_specification]
#[verifier::external_body]
pub struct ExSystemTime(std::time::SystemTime);

/// What `SystemTime::duration_since` returns when the clock stands before the
/// instant that it is measured from.
#[verifier::external_type_specification]
#[verifier::external_body]
pub struct ExSystemTimeError(std::time::SystemTimeError);

/// `SystemTime::now` reads the system's clock. Nothing is claimed of what it
/// reads: the clock can be set, forwards and backwards.
pub assume_specification[ std::time::SystemTime::now ]() -> SystemTime
;

/// The length of a duration in nanoseconds.
pub uninterp spec fn nanos_of(d: Duration) -> nat;

/// `Duration::as_secs` gives the whole seconds of a duration, rounded down.
pub assume_specification[ std::time::Duration::as_secs ](d: &Duration) -> (r: u64)
    ensures
        r == nanos_of(*d) / 1_000_000_000,
;

/// How long after the Unix epoch a reading of the clock stands, if it does
/// not stand before it.
pub uninterp spec fn epoch_distance(t: SystemTime) -> Option<Duration>;

/// `SystemTime::duration_since`, measured from the Unix epoch, gives the time
/// between the epoch and a reading, and fails on a reading before the epoch.
/// It depends on the reading alone.
#[verifier::external_body]
fn since_epoch(t: SystemTime) -> (r: Result<Duration, SystemTimeError>)
    ensures
        match r {
            Ok(d) => epoch_distance(t) == Some(d),
            Err(_) => epoch_distance(t) is None,
        },
{
    t.duration_since(SystemTime::UNIX_EPOCH)
}

/// The whole seconds from the Unix epoch to a reading of the clock. A clock
/// that stands before the epoch reads as zero.
pub open spec fn epoch_secs(t: SystemTime) -> nat {
    match epoch_distance(t) {
        Some(d) => nanos_of(d) / 1_000_000_000,
        None => 0,
    }
}

/// The two clocks at the moment at which a request is handled.
#[derive(Clone, Copy, PartialEq, Eq, Structural, Debug)]
pub struct Moment {
    /// Whole seconds since the Unix epoch.
    pub now: u64,
    /// Nanoseconds on a clock that never goes back, from an arbitrary origin.
    pub clock: u64,
}

/// Seconds since the Unix epoch at a reading of the clock.
pub fn seconds_at(t: SystemTime) -> (r: u64)
    ensures
        r == epoch_secs(t),
{
    match since_epoch(t) {
        Ok(elapsed) => elapsed.as_secs(),
        Err(_) => 0,
    }
}

/// Seconds since the Unix epoch on the system's clock: those of some reading
/// of it.
pub fn now() -> (r: u64)
    ensures
        exists|t: SystemTime| r == #[trigger] epoch_secs(t),
{
    let t = SystemTime::now();
    seconds_at(t)
}

/// As long as the clock is not set back, the seconds do not go back.
pub proof fn law_seconds_follow_the_clock(earlier: SystemTime, later: SystemTime)
    requires
        epoch_distance(earlier) matches Some(d) ==> (epoch_distance(later) matches Some(e)
            && nanos_of(d) <= nanos_of(e)),
    ensures
        epoch_secs(earlier) <= epoch_secs(later),
{
}

/// The seconds of a reading are the whole seconds that have passed: no more
/// have, and one more has not. A reading before the epoch counts none.
pub proof fn law_seconds_are_whole(t: SystemTime)
    ensures
        epoch_distance(t) matches Some(d) ==> epoch_secs(t) * 1_000_000_000 <= nanos_of(d) < (
        epoch_secs(t) + 1) * 1_000_000_000,
        epoch_distance(t) is None ==> epoch_secs(t) == 0,
{
}

} // verus!
