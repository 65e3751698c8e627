//! The standard library's clock types, as far as the model reads them.
//!
//! A system time is held opaquely; the model only ever asks for its offset
//! from the Unix epoch as whole seconds and a sub-second remainder, and builds
//! one back from such an offset. What the standard library computes from a
//! given value is named, so contracts can say what the model does with it.

use std::time::Duration;
use std::time::Instant;
use std::time::SystemTime;
use std::time::SystemTimeError;
use std::time::UNIX_EPOCH;

use vstd::prelude::*;

verus! {

#[verifier::external_type_specification]
#[verifier::external_body]
pub struct ExSystemTime(SystemTime);

#[verifier::external_type_specification]
#[verifier::external_body]
pub struct ExSystemTimeError(SystemTimeError);

#[verifier::external_type_specification]
#[verifier::external_body]
pub struct ExInstant(Instant);

/// What `SystemTime::duration_since(UNIX_EPOCH)` returns for `value`.
pub uninterp spec fn since_epoch_of(value: SystemTime) -> Result<Duration, SystemTimeError>;

/// What `SystemTimeError::duration` returns for `error`.
pub uninterp spec fn error_duration_of(error: SystemTimeError) -> Duration;

/// What `Duration::as_secs` returns for `value`.
pub uninterp spec fn duration_seconds(value: Duration) -> u64;

/// What `Duration::subsec_nanos` returns for `value`.
pub uninterp spec fn duration_nanos(value: Duration) -> u32;

/// The offset of `value` from the Unix epoch as `(before_epoch, seconds,
/// nanos)`: the duration since the epoch when `value` is not before it, else
/// the duration the error reports, each read as whole seconds and the
/// nanoseconds within the second.
pub open spec fn system_time_offset(value: SystemTime) -> (bool, u64, u32) {
    match since_epoch_of(value) {
        Ok(after) => (false, duration_seconds(after), duration_nanos(after)),
        Err(error) => (true, duration_seconds(error_duration_of(error)), duration_nanos(error_duration_of(error))),
    }
}

/// `SystemTime::duration_since(UNIX_EPOCH)`: `Ok` with how far after the
/// epoch `value` lies, or the error for an instant before it. The result is
/// a function of `value` alone, named `since_epoch_of`.
#[verifier::external_body]
pub(crate) fn since_epoch(value: SystemTime) -> (offset: Result<Duration, SystemTimeError>)
    ensures
        offset == since_epoch_of(value),
{
    value.duration_since(UNIX_EPOCH)
}

/// `SystemTimeError::duration`: how far before the epoch the instant lay, a
/// function of the error alone, named `error_duration_of`.
/// The documentation calls that duration positive: the instant lay strictly
/// before the epoch, so the duration is not zero.
#[verifier::external_body]
pub(crate) fn error_duration(error: &SystemTimeError) -> (before: Duration)
    ensures
        before == error_duration_of(*error),
        duration_seconds(before) > 0 || duration_nanos(before) > 0,
{
    error.duration()
}

/// `SystemTime::now`: the current wall-clock time. Nothing is stated of it.
#[verifier::external_body]
pub(crate) fn system_now() -> (now: SystemTime) {
    SystemTime::now()
}

/// `Instant::now`: the current monotonic instant. Nothing is stated of it.
#[verifier::external_body]
pub(crate) fn instant_now() -> (now: Instant) {
    Instant::now()
}

/// `Duration::as_secs`: the whole seconds of a duration, named
/// `duration_seconds`.
#[verifier::external_body]
pub(crate) fn duration_secs(value: &Duration) -> (seconds: u64)
    ensures
        seconds == duration_seconds(*value),
{
    value.as_secs()
}

/// `Duration::subsec_nanos`: the fractional part in nanoseconds, named
/// `duration_nanos`, which the documentation states is always below one
/// billion.
#[verifier::external_body]
pub(crate) fn duration_subsec_nanos(value: &Duration) -> (nanos: u32)
    ensures
        nanos == duration_nanos(*value),
        nanos < 1_000_000_000,
{
    value.subsec_nanos()
}

/// `Duration::new`, which cannot overflow (its only panic) when the
/// nanoseconds are already below one second; nothing then carries, so the
/// duration's whole seconds and sub-second nanoseconds are the arguments.
#[verifier::external_body]
pub(crate) fn duration_new(seconds: u64, nanos: u32) -> (duration: Duration)
    requires
        nanos < 1_000_000_000,
    ensures
        duration_seconds(duration) == seconds,
        duration_nanos(duration) == nanos,
{
    Duration::new(seconds, nanos)
}

/// `UNIX_EPOCH.checked_add`: the instant `duration` after the epoch, or
/// `None` when the platform cannot represent it.
///
/// A system time that already lies exactly `duration` after the epoch (as
/// whole seconds and nanoseconds) is representable, and adding `duration`
/// back to the epoch gives that time.
#[verifier::external_body]
pub(crate) fn epoch_plus(duration: Duration) -> (instant: Option<SystemTime>)
    ensures
        forall|v: SystemTime|
            #![trigger since_epoch_of(v)]
            (since_epoch_of(v) matches Ok(after) && duration_seconds(after) == duration_seconds(duration) && duration_nanos(after)
                == duration_nanos(duration)) ==> instant == Some(v),
{
    UNIX_EPOCH.checked_add(duration)
}

/// `UNIX_EPOCH.checked_sub`: the instant `duration` before the epoch, or
/// `None` when the platform cannot represent it.
///
/// A system time that already lies exactly `duration` before the epoch (as
/// `duration_since` reports through its error) is representable, and taking
/// `duration` from the epoch gives that time.
#[verifier::external_body]
pub(crate) fn epoch_minus(duration: Duration) -> (instant: Option<SystemTime>)
    ensures
        forall|v: SystemTime|
            #![trigger since_epoch_of(v)]
            (since_epoch_of(v) matches Err(error) && duration_seconds(error_duration_of(error)) == duration_seconds(duration)
                && duration_nanos(error_duration_of(error)) == duration_nanos(duration)) ==> instant == Some(v),
{
    UNIX_EPOCH.checked_sub(duration)
}

} // verus!
