//! Clock abstraction and durations.
//!
//! [`Clock`] lets tests inject deterministic time: production code uses
//! [`SystemClock`], tests use [`FixedClock`], which always answers the same
//! Unix second.

use std::time::Duration;
use std::time::SystemTime;
use std::time::SystemTimeError;

use vstd::prelude::*;

verus! {

/// The number of whole seconds in a duration, as `Duration::as_secs`
/// reports it.
pub uninterp spec fn duration_secs(d: Duration) -> u64;

/// Calls `Duration::as_secs`.
///
/// Claims that the result is the whole number of seconds of `d`, the
/// same for the same duration.
#[verifier::external_body]
pub(crate) fn secs_of(d: Duration) -> (s: u64)
    ensures
        s == duration_secs(d),
{
    d.as_secs()
}

/// Calls `Duration::from_secs`.
///
/// Claims what its documentation says: the duration is `secs` whole
/// seconds, so `Duration::as_secs` gives `secs` back.
#[verifier::external_body]
pub(crate) fn duration_from_secs(secs: u64) -> (d: Duration)
    ensures
        duration_secs(d) == secs,
{
    Duration::from_secs(secs)
}

#[verifier::external_type_specification]
#[verifier::external_body]
pub struct ExSystemTime(SystemTime);

#[verifier::external_type_specification]
#[verifier::external_body]
pub struct ExSystemTimeError(SystemTimeError);

/// Calls `SystemTime::now`. Nothing is claimed of the instant it returns.
#[verifier::external_body]
pub fn system_time_now() -> SystemTime {
    SystemTime::now()
}

/// Calls `SystemTime::duration_since` with the Unix epoch. Nothing is
/// claimed of the duration or of when the call fails (it fails when the
/// instant lies before the epoch).
#[verifier::external_body]
pub fn since_unix_epoch(t: &SystemTime) -> Result<Duration, SystemTimeError> {
    t.duration_since(std::time::UNIX_EPOCH)
}

/// Source of the current time as Unix seconds.
pub trait Clock {
    fn now(&self) -> u64;
}

/// Wall-clock time. The default in production.
#[derive(Debug, Clone, Copy)]
pub struct SystemClock;

impl Default for SystemClock {
    fn default() -> (c: Self) {
        SystemClock
    }
}

/// The reading of a clock whose time lies the duration `since` after the
/// Unix epoch: its whole seconds, or 0 for a time before the epoch.
pub open spec fn clock_seconds(since: Result<Duration, SystemTimeError>) -> u64 {
    match since {
        Ok(d) => duration_secs(d),
        Err(_) => 0,
    }
}

/// What a system clock reads: the whole seconds since the Unix epoch, with
/// no offset; a time before the epoch reads as 0.
pub proof fn clock_reads_seconds_since_epoch(since: Result<Duration, SystemTimeError>)
    ensures
        since matches Ok(d) ==> clock_seconds(since) == duration_secs(d),
        since is Err ==> clock_seconds(since) == 0,
{
}

impl Clock for SystemClock {
    /// Seconds since the Unix epoch of the system time it reads; a system
    /// clock set before the epoch reads as 0.
    fn now(&self) -> (s: u64)
        ensures
            exists|t: SystemTime, since: Result<Duration, SystemTimeError>|
                #![trigger call_ensures(system_time_now, (), t), call_ensures(since_unix_epoch, (&t,), since)]
                call_ensures(system_time_now, (), t) && call_ensures(
                    since_unix_epoch,
                    (&t,),
                    since,
                ) && s == clock_seconds(since),
    {
        let t = system_time_now();
        let since = since_unix_epoch(&t);
        proof {
            assert(call_ensures(system_time_now, (), t));
            assert(call_ensures(since_unix_epoch, (&t,), since));
        }
        match since {
            Ok(d) => secs_of(d),
            Err(_) => 0,
        }
    }
}

/// A clock that always returns the same timestamp.
#[derive(Debug, Clone, Copy)]
pub struct FixedClock(pub u64);

impl Clock for FixedClock {
    fn now(&self) -> (t: u64)
        ensures
            t == self.0,
    {
        self.0
    }
}

} // verus!
