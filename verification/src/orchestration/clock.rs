//! The clock orchestration stamps acquisitions with.
//!
//! Sources receive no timestamp and cannot substitute one; the instant a unit
//! is admitted comes from here. Wall-clock time names when an acquisition
//! happened ([`Clock::timestamp`]); monotonic time measures how long it took
//! ([`Clock::instant`]), since differencing wall-clock instants would let a
//! clock step masquerade as a duration.

use std::time::Instant;
use std::time::SystemTime;

use vstd::prelude::*;

use crate::schema::value::Timestamp;
use crate::system_time::{duration_secs, duration_subsec_nanos, error_duration, instant_now, since_epoch, system_now, system_time_offset};

verus! {

/// Where acquisition instants and durations come from. Injected rather than
/// called, so a simulated run can drive the same code on a virtual timeline.
pub trait Clock {
    /// The wall-clock instant that stamps an acquisition, or `None` when the
    /// clock reads further from the epoch than a signed 64-bit second count
    /// reaches.
    fn timestamp(&self) -> Option<Timestamp>;

    /// A monotonic instant for duration measurement.
    fn instant(&self) -> Instant;
}

/// The system clock: the one bridge from [`SystemTime`] to the contract's
/// [`Timestamp`].
#[derive(Clone, Copy, Debug, Default)]
#[non_exhaustive]
pub struct SystemClock;

impl Clock for SystemClock {
    fn timestamp(&self) -> Option<Timestamp> {
        timestamp_from(system_now())
    }

    fn instant(&self) -> Instant {
        instant_now()
    }
}

/// The instant an offset from the epoch names, as whole seconds and
/// nanoseconds within the second: after the epoch, or before it.
pub open spec fn offset_instant(before_epoch: bool, seconds: u64, nanos: u32) -> int {
    if before_epoch {
        -(seconds * 1_000_000_000 + nanos)
    } else {
        seconds * 1_000_000_000 + nanos
    }
}

/// Spells an offset from the epoch as a timestamp: seconds go negative before
/// the epoch while nanos stay within one second, which is the contract's only
/// bound.
///
/// Returns `None` only when the offset lies more than `i64::MAX` seconds from
/// the epoch.
pub fn timestamp_from_offset(before_epoch: bool, seconds: u64, nanos: u32) -> (stamp: Option<Timestamp>)
    requires
        nanos < 1_000_000_000,
    ensures
        match stamp {
            Some(stamp) => stamp.at_nanos() == offset_instant(before_epoch, seconds, nanos),
            None => seconds > i64::MAX,
        },
        stamp is Some <==> seconds <= i64::MAX,
{
    if seconds > i64::MAX as u64 {
        return None;
    }
    let whole = seconds as i64;
    let (seconds, nanos) = if !before_epoch {
        (whole, nanos)
    } else if nanos == 0 {
        (-whole, 0)
    } else {
        (-whole - 1, 1_000_000_000 - nanos)
    };
    match Timestamp::new(seconds, nanos) {
        Ok(stamp) => Some(stamp),
        Err(_) => None,
    }
}

/// Represents any [`SystemTime`] honestly, including one before the epoch:
/// the stamp lies at the reading's offset from the epoch.
///
/// Returns `None` only when the instant is more than `i64::MAX` seconds from
/// the epoch, which no host clock reports.
pub fn timestamp_from(now: SystemTime) -> (stamp: Option<Timestamp>)
    ensures
        match stamp {
            Some(stamp) => stamp.at_nanos() == offset_instant(
                system_time_offset(now).0,
                system_time_offset(now).1,
                system_time_offset(now).2,
            ),
            None => system_time_offset(now).1 > i64::MAX,
        },
        stamp is Some <==> system_time_offset(now).1 <= i64::MAX,
{
    match since_epoch(now) {
        Ok(since) => {
            let nanos = duration_subsec_nanos(&since);
            timestamp_from_offset(false, duration_secs(&since), nanos)
        },
        Err(error) => {
            let before = error_duration(&error);
            let nanos = duration_subsec_nanos(&before);
            timestamp_from_offset(true, duration_secs(&before), nanos)
        },
    }
}

} // verus!
