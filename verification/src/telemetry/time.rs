//! Timestamps, durations, and observation windows.
//!
//! Both [`Timestamp`] and [`DurationValue`] split a signed quantity into whole
//! seconds and a non-negative sub-second remainder held below one second, so
//! one instant (or one length) has exactly one representation.

use std::time::SystemTime;

use vstd::prelude::*;

use crate::text::{append, append_decimal, decimal};
use crate::system_time::{
    duration_new, duration_secs, duration_subsec_nanos, epoch_minus, epoch_plus,
    since_epoch, error_duration, system_time_offset,
};

verus! {

/// Nanoseconds in one second.
pub const NANOS_PER_SECOND: u32 = 1_000_000_000u32;

/// The signed count of nanoseconds a seconds/nanoseconds pair stands for.
pub open spec fn split_total(seconds: int, nanoseconds: int) -> int {
    seconds * 1_000_000_000 + nanoseconds
}

/// The signed nanoseconds an offset from the epoch stands for: `seconds`
/// whole seconds and `nanoseconds` more, after the epoch or before it.
pub open spec fn offset_total(before_epoch: bool, seconds: u64, nanoseconds: u32) -> int {
    if before_epoch {
        -split_total(seconds as int, nanoseconds as int)
    } else {
        split_total(seconds as int, nanoseconds as int)
    }
}

/// Whether a [`Timestamp`] can spell an offset from the epoch: its seconds
/// field must reach the whole seconds, one further before the epoch when
/// there is a sub-second part.
pub open spec fn offset_fits(before_epoch: bool, seconds: u64, nanoseconds: u32) -> bool {
    if before_epoch && nanoseconds > 0 {
        seconds < i64::MAX
    } else {
        seconds <= i64::MAX
    }
}

/// The offset from the epoch a timestamp lies at, as `(before_epoch,
/// seconds, nanoseconds)` with the nanoseconds below one second: the fields
/// themselves from the epoch on, and before it the whole seconds and the
/// remainder back to the epoch.
pub open spec fn timestamp_offset(t: Timestamp) -> (bool, u64, u32) {
    if t.secs() >= 0 {
        (false, t.secs() as u64, t.nanos())
    } else if t.nanos() == 0 {
        (true, (-t.secs()) as u64, 0)
    } else {
        (true, (-t.secs() - 1) as u64, (1_000_000_000 - t.nanos()) as u32)
    }
}

/// A rejected timestamp, duration, or observation window.
#[derive(Clone, Copy, Debug, PartialEq, Eq, Structural)]
#[non_exhaustive]
pub enum TimeError {
    InvalidNanoseconds(u32),
    WindowEndsBeforeStart,
    OutOfRange,
}

/// What a rejected time value says of itself.
pub open spec fn time_error_text(error: TimeError) -> Seq<char> {
    match error {
        TimeError::InvalidNanoseconds(value) => "nanoseconds must be below 1,000,000,000, got "@ + decimal(value as nat),
        TimeError::WindowEndsBeforeStart => "observation window ends before it starts"@,
        TimeError::OutOfRange => "timestamp is outside the supported range"@,
    }
}

impl TimeError {
    /// The human-readable description of the rejection.
    pub fn message(&self) -> (text: String)
        ensures
            text@ == time_error_text(*self),
    {
        match self {
            TimeError::InvalidNanoseconds(value) => {
                let mut text = String::new();
                append(&mut text, "nanoseconds must be below 1,000,000,000, got ");
                append_decimal(&mut text, *value as u64);
                text
            },
            TimeError::WindowEndsBeforeStart => {
                let mut text = String::new();
                append(&mut text, "observation window ends before it starts");
                proof {
                    assert(text@ =~= time_error_text(*self));
                }
                text
            },
            TimeError::OutOfRange => {
                let mut text = String::new();
                append(&mut text, "timestamp is outside the supported range");
                proof {
                    assert(text@ =~= time_error_text(*self));
                }
                text
            },
        }
    }
}

/// A wall-clock timestamp represented as signed Unix seconds and nanoseconds.
///
/// This is an instant, not a span: see [`DurationValue`], which shares the
/// representation but is deliberately a separate type.
#[derive(Clone, Copy, Debug, PartialEq, Eq, Structural, Ord, Hash)]
pub struct Timestamp {
    seconds: i64,
    nanoseconds: u32,
}

impl Timestamp {
    #[verifier::type_invariant]
    spec fn within_second(self) -> bool {
        self.nanoseconds < NANOS_PER_SECOND
    }

    pub closed spec fn secs(self) -> i64 {
        self.seconds
    }

    pub closed spec fn nanos(self) -> u32 {
        self.nanoseconds
    }

    /// Signed nanoseconds since the Unix epoch.
    pub open spec fn total_nanos(self) -> int {
        split_total(self.secs() as int, self.nanos() as int)
    }

    /// Builds a timestamp from a Unix second count and a sub-second offset.
    ///
    /// Returns [`TimeError::InvalidNanoseconds`] if the sub-second part is not
    /// below one second.
    pub fn new(seconds: i64, nanoseconds: u32) -> (made: Result<Timestamp, TimeError>)
        ensures
            match made {
                Ok(t) => nanoseconds < NANOS_PER_SECOND && t.secs() == seconds && t.nanos() == nanoseconds,
                Err(e) => nanoseconds >= NANOS_PER_SECOND && e == TimeError::InvalidNanoseconds(nanoseconds),
            },
    {
        match check_nanoseconds(nanoseconds) {
            Err(error) => Err(error),
            Ok(()) => Ok(Timestamp { seconds, nanoseconds }),
        }
    }

    pub fn seconds(self) -> (seconds: i64)
        ensures
            seconds == self.secs(),
    {
        self.seconds
    }

    pub fn nanoseconds(self) -> (nanoseconds: u32)
        ensures
            nanoseconds == self.nanos(),
            nanoseconds < NANOS_PER_SECOND,
    {
        proof {
            use_type_invariant(self);
        }
        self.nanoseconds
    }

    /// Builds a timestamp from an offset from the epoch: `seconds` whole
    /// seconds and `nanoseconds` more, after the epoch or before it.
    ///
    /// Returns [`TimeError::OutOfRange`] when the instant falls outside what a
    /// signed 64-bit second count addresses the way this type spells it.
    pub fn from_epoch_offset(before_epoch: bool, seconds: u64, nanoseconds: u32) -> (made: Result<Timestamp, TimeError>)
        requires
            nanoseconds < NANOS_PER_SECOND,
        ensures
            match made {
                Ok(t) => t.total_nanos() == offset_total(before_epoch, seconds, nanoseconds),
                Err(e) => e == TimeError::OutOfRange,
            },
            made is Ok <==> offset_fits(before_epoch, seconds, nanoseconds),
    {
        if seconds > i64::MAX as u64 {
            return Err(TimeError::OutOfRange);
        }
        let whole = seconds as i64;
        if !before_epoch {
            Ok(Timestamp { seconds: whole, nanoseconds })
        } else if nanoseconds == 0 {
            Ok(Timestamp { seconds: -whole, nanoseconds: 0 })
        } else if whole == i64::MAX {
            Err(TimeError::OutOfRange)
        } else {
            let t = Timestamp { seconds: -(whole + 1), nanoseconds: NANOS_PER_SECOND - nanoseconds };
            assert(t.total_nanos() == -split_total(seconds as int, nanoseconds as int)) by (nonlinear_arith)
                requires
                    t.secs() == -(whole + 1),
                    t.nanos() == 1_000_000_000 - nanoseconds,
                    whole == seconds,
            ;
            Ok(t)
        }
    }

    /// The offset from the epoch this timestamp lies at, as `(before_epoch,
    /// seconds, nanoseconds)` with the nanoseconds below one second.
    pub fn epoch_offset(self) -> (offset: (bool, u64, u32))
        ensures
            offset.2 < NANOS_PER_SECOND,
            self.total_nanos() == if offset.0 {
                -split_total(offset.1 as int, offset.2 as int)
            } else {
                split_total(offset.1 as int, offset.2 as int)
            },
            offset.0 == (self.secs() < 0),
            offset == timestamp_offset(self),
    {
        proof {
            use_type_invariant(self);
        }
        if self.seconds >= 0 {
            return (false, self.seconds as u64, self.nanoseconds);
        }
        let absolute: u64 = if self.seconds == i64::MIN {
            9_223_372_036_854_775_808u64
        } else {
            (-self.seconds) as u64
        };
        assert(absolute == -self.secs());
        if self.nanoseconds == 0 {
            (true, absolute, 0)
        } else {
            let offset = (true, absolute - 1, NANOS_PER_SECOND - self.nanoseconds);
            assert(self.total_nanos() == -split_total(offset.1 as int, offset.2 as int)) by (nonlinear_arith)
                requires
                    offset.1 == absolute - 1,
                    absolute == -self.secs(),
                    offset.2 == 1_000_000_000 - self.nanos(),
            ;
            offset
        }
    }

    /// Converts from a system clock reading: the reading's offset from the
    /// epoch, on either side of it, spelled as a timestamp.
    ///
    /// Returns [`TimeError::OutOfRange`] if the instant falls outside the
    /// range a 64-bit second count can address.
    pub fn from_system_time(value: SystemTime) -> (made: Result<Timestamp, TimeError>)
        ensures
            match made {
                Ok(t) => t.total_nanos() == offset_total(
                    system_time_offset(value).0,
                    system_time_offset(value).1,
                    system_time_offset(value).2,
                ),
                Err(e) => e == TimeError::OutOfRange,
            },
            made is Ok <==> offset_fits(system_time_offset(value).0, system_time_offset(value).1, system_time_offset(value).2),
            made matches Ok(t) ==> timestamp_offset(t) == system_time_offset(value),
    {
        let (before_epoch, seconds, nanos) = match since_epoch(value) {
            Ok(after) => (false, duration_secs(&after), duration_subsec_nanos(&after)),
            Err(error) => {
                let before = error_duration(&error);
                (true, duration_secs(&before), duration_subsec_nanos(&before))
            },
        };
        let made = Timestamp::from_epoch_offset(before_epoch, seconds, nanos);
        if let Ok(t) = made {
            proof {
                use_type_invariant(t);
                lemma_offset_unique(t, before_epoch, seconds, nanos);
            }
        }
        made
    }

    /// Converts to a system clock reading.
    ///
    /// Returns [`TimeError::OutOfRange`] if the instant is not representable
    /// as a [`SystemTime`] on this platform.
    ///
    /// A system time lying at this timestamp's offset from the epoch is
    /// representable, and it is what comes back: this undoes
    /// [`Timestamp::from_system_time`].
    pub fn to_system_time(self) -> (converted: Result<SystemTime, TimeError>)
        ensures
            converted matches Err(e) ==> e == TimeError::OutOfRange,
            forall|v: SystemTime|
                #![trigger system_time_offset(v)]
                system_time_offset(v) == timestamp_offset(self) ==> converted == Ok::<SystemTime, TimeError>(v),
    {
        let (before_epoch, seconds, nanoseconds) = self.epoch_offset();
        let duration = duration_new(seconds, nanoseconds);
        let instant = if before_epoch {
            epoch_minus(duration)
        } else {
            epoch_plus(duration)
        };
        match instant {
            Some(instant) => Ok(instant),
            None => Err(TimeError::OutOfRange),
        }
    }
}

/// Rejects a sub-second remainder that is not below one second, which is the
/// only thing either type can get wrong.
fn check_nanoseconds(nanoseconds: u32) -> (checked: Result<(), TimeError>)
    ensures
        checked is Ok <==> nanoseconds < NANOS_PER_SECOND,
        checked matches Err(e) ==> e == TimeError::InvalidNanoseconds(nanoseconds),
{
    if nanoseconds >= NANOS_PER_SECOND {
        return Err(TimeError::InvalidNanoseconds(nanoseconds));
    }
    Ok(())
}

/// A signed span of time with nanosecond precision.
///
/// The nanosecond component is always a non-negative offset applied toward
/// positive infinity, as on [`Timestamp`]. Minus half a second is therefore
/// `seconds = -1, nanoseconds = 500_000_000`.
#[derive(Clone, Copy, Debug, PartialEq, Eq, Structural, Ord, Hash)]
pub struct DurationValue {
    seconds: i64,
    nanoseconds: u32,
}

impl DurationValue {
    #[verifier::type_invariant]
    spec fn within_second(self) -> bool {
        self.nanoseconds < NANOS_PER_SECOND
    }

    pub closed spec fn secs(self) -> i64 {
        self.seconds
    }

    pub closed spec fn nanos(self) -> u32 {
        self.nanoseconds
    }

    pub open spec fn total_nanos(self) -> int {
        split_total(self.secs() as int, self.nanos() as int)
    }

    /// Builds a duration from a second count and a sub-second offset.
    ///
    /// Returns [`TimeError::InvalidNanoseconds`] if the sub-second part is not
    /// below one second.
    pub fn new(seconds: i64, nanoseconds: u32) -> (made: Result<DurationValue, TimeError>)
        ensures
            match made {
                Ok(d) => nanoseconds < NANOS_PER_SECOND && d.secs() == seconds && d.nanos() == nanoseconds,
                Err(e) => nanoseconds >= NANOS_PER_SECOND && e == TimeError::InvalidNanoseconds(nanoseconds),
            },
    {
        match check_nanoseconds(nanoseconds) {
            Err(error) => Err(error),
            Ok(()) => Ok(DurationValue { seconds, nanoseconds }),
        }
    }

    pub fn seconds(self) -> (seconds: i64)
        ensures
            seconds == self.secs(),
    {
        self.seconds
    }

    pub fn nanoseconds(self) -> (nanoseconds: u32)
        ensures
            nanoseconds == self.nanos(),
            nanoseconds < NANOS_PER_SECOND,
    {
        proof {
            use_type_invariant(self);
        }
        self.nanoseconds
    }

    /// Returns the total signed duration in nanoseconds.
    pub fn as_nanos(self) -> (total: i128)
        ensures
            total == self.total_nanos(),
    {
        proof {
            use_type_invariant(self);
            assert(-9_223_372_036_854_775_808 * 1_000_000_000 <= self.secs() * 1_000_000_000 <= 9_223_372_036_854_775_807 * 1_000_000_000) by (nonlinear_arith)
                requires
                    -9_223_372_036_854_775_808 <= self.secs() <= 9_223_372_036_854_775_807,
            ;
        }
        self.seconds as i128 * NANOS_PER_SECOND as i128 + self.nanoseconds as i128
    }
}

/// Whether `left` is strictly later than `right`.
fn timestamp_after(left: Timestamp, right: Timestamp) -> (after: bool)
    ensures
        after == (left.total_nanos() > right.total_nanos()),
{
    proof {
        use_type_invariant(left);
        use_type_invariant(right);
        lemma_split_order(left.secs() as int, left.nanos() as int, right.secs() as int, right.nanos() as int);
    }
    left.seconds > right.seconds || (left.seconds == right.seconds && left.nanoseconds > right.nanoseconds)
}

/// A timestamp at a nonzero-before-the-epoch offset with nanoseconds below one
/// second lies exactly at that offset's spelling.
proof fn lemma_offset_unique(t: Timestamp, before_epoch: bool, seconds: u64, nanos: u32)
    requires
        t.nanos() < 1_000_000_000,
        nanos < 1_000_000_000,
        before_epoch ==> seconds > 0 || nanos > 0,
        t.total_nanos() == offset_total(before_epoch, seconds, nanos),
    ensures
        timestamp_offset(t) == (before_epoch, seconds, nanos),
{
    let s = t.secs() as int;
    let n = t.nanos() as int;
    if !before_epoch {
        lemma_split_order(s, n, seconds as int, nanos as int);
        lemma_split_order(s, n, 0, 0);
    } else {
        lemma_split_order(seconds as int, nanos as int, 0, 0);
        lemma_split_order(s, n, 0, 0);
        if n == 0 {
            lemma_split_order(seconds as int, nanos as int, -s, 0);
        } else {
            lemma_split_order(seconds as int, nanos as int, -s - 1, 1_000_000_000 - n);
        }
    }
}

/// Seconds and sub-second parts below one second compare as the instants or
/// spans they spell: by the seconds, then by the nanoseconds.
pub proof fn lemma_fields_order(s1: i64, n1: u32, s2: i64, n2: u32)
    requires
        n1 < NANOS_PER_SECOND,
        n2 < NANOS_PER_SECOND,
    ensures
        (split_total(s1 as int, n1 as int) < split_total(s2 as int, n2 as int)) == (s1 < s2 || (s1 == s2 && n1 < n2)),
        (split_total(s1 as int, n1 as int) == split_total(s2 as int, n2 as int)) == (s1 == s2 && n1 == n2),
{
    lemma_split_order(s1 as int, n1 as int, s2 as int, n2 as int);
    lemma_split_order(s2 as int, n2 as int, s1 as int, n1 as int);
}

/// With sub-second parts below one second, split pairs order as their seconds
/// and then their nanoseconds.
pub proof fn lemma_split_order(s1: int, n1: int, s2: int, n2: int)
    requires
        0 <= n1 < 1_000_000_000,
        0 <= n2 < 1_000_000_000,
    ensures
        (split_total(s1, n1) > split_total(s2, n2)) == (s1 > s2 || (s1 == s2 && n1 > n2)),
        (split_total(s1, n1) == split_total(s2, n2)) == (s1 == s2 && n1 == n2),
{
    if s1 > s2 {
        assert(s1 * 1_000_000_000 >= s2 * 1_000_000_000 + 1_000_000_000) by (nonlinear_arith)
            requires
                s1 > s2,
        ;
    } else if s1 < s2 {
        assert(s2 * 1_000_000_000 >= s1 * 1_000_000_000 + 1_000_000_000) by (nonlinear_arith)
            requires
                s1 < s2,
        ;
    }
}

/// The wall-clock interval during which an observation was acquired.
#[derive(Clone, Copy, Debug, PartialEq, Eq, Structural, Hash)]
pub struct ObservationWindow {
    started_at: Timestamp,
    completed_at: Timestamp,
}

impl ObservationWindow {
    #[verifier::type_invariant]
    spec fn ordered(self) -> bool {
        self.started_at.total_nanos() <= self.completed_at.total_nanos()
    }

    pub closed spec fn start(self) -> Timestamp {
        self.started_at
    }

    pub closed spec fn end(self) -> Timestamp {
        self.completed_at
    }

    /// Builds a window spanning two instants.
    ///
    /// Returns [`TimeError::WindowEndsBeforeStart`] if the end precedes the
    /// start.
    pub fn new(started_at: Timestamp, completed_at: Timestamp) -> (made: Result<ObservationWindow, TimeError>)
        ensures
            match made {
                Ok(w) => w.start() == started_at && w.end() == completed_at,
                Err(e) => e == TimeError::WindowEndsBeforeStart,
            },
            made is Ok <==> started_at.total_nanos() <= completed_at.total_nanos(),
    {
        if timestamp_after(started_at, completed_at) {
            return Err(TimeError::WindowEndsBeforeStart);
        }
        Ok(ObservationWindow { started_at, completed_at })
    }

    pub fn point(observed_at: Timestamp) -> (made: ObservationWindow)
        ensures
            made.start() == observed_at,
            made.end() == observed_at,
    {
        ObservationWindow { started_at: observed_at, completed_at: observed_at }
    }

    pub fn started_at(self) -> (started_at: Timestamp)
        ensures
            started_at == self.start(),
    {
        self.started_at
    }

    pub fn completed_at(self) -> (completed_at: Timestamp)
        ensures
            completed_at == self.end(),
            self.start().total_nanos() <= completed_at.total_nanos(),
    {
        proof {
            use_type_invariant(self);
        }
        self.completed_at
    }
}

/// Reading a timestamp's offset from the epoch and building a timestamp from
/// that offset gives the same timestamp back: the offset is always accepted,
/// and the rebuilt timestamp is the original. This holds for every timestamp
/// whose second lies above the least a signed 64-bit count holds.
pub proof fn lemma_epoch_offset_round_trip(t: Timestamp, before_epoch: bool, seconds: u64, nanoseconds: u32, back: Timestamp)
    requires
        t.nanos() < NANOS_PER_SECOND,
        back.nanos() < NANOS_PER_SECOND,
        t.secs() > i64::MIN,
        nanoseconds < NANOS_PER_SECOND,
        before_epoch == (t.secs() < 0),
        t.total_nanos() == if before_epoch {
            -split_total(seconds as int, nanoseconds as int)
        } else {
            split_total(seconds as int, nanoseconds as int)
        },
        back.total_nanos() == t.total_nanos(),
    ensures
        if before_epoch && nanoseconds > 0 {
            seconds < i64::MAX
        } else {
            seconds <= i64::MAX
        },
        back == t,
{
    if before_epoch {
        lemma_split_order(-(t.secs() as int), 0, seconds as int, nanoseconds as int);
        if nanoseconds > 0 {
            assert(seconds < -(t.secs() as int)) by (nonlinear_arith)
                requires
                    -(t.secs() * 1_000_000_000 + t.nanos()) == seconds * 1_000_000_000 + nanoseconds,
                    0 < nanoseconds < 1_000_000_000,
                    0 <= t.nanos() < 1_000_000_000,
            ;
        } else {
            assert(seconds <= -(t.secs() as int)) by (nonlinear_arith)
                requires
                    -(t.secs() * 1_000_000_000 + t.nanos()) == seconds * 1_000_000_000,
                    0 <= t.nanos() < 1_000_000_000,
            ;
        }
    } else {
        assert(seconds <= t.secs()) by (nonlinear_arith)
            requires
                t.secs() * 1_000_000_000 + t.nanos() == seconds * 1_000_000_000 + nanoseconds,
                0 <= nanoseconds < 1_000_000_000,
                0 <= t.nanos() < 1_000_000_000,
        ;
    }
    lemma_split_injective(t.secs() as int, t.nanos() as int, back.secs() as int, back.nanos() as int);
}

/// A second count and a sub-second remainder below one second name one
/// instant, and no other pair names it.
pub proof fn lemma_split_injective(s1: int, n1: int, s2: int, n2: int)
    requires
        0 <= n1 < NANOS_PER_SECOND,
        0 <= n2 < NANOS_PER_SECOND,
        split_total(s1, n1) == split_total(s2, n2),
    ensures
        s1 == s2,
        n1 == n2,
{
    assert(s1 == s2) by (nonlinear_arith)
        requires
            s1 * 1_000_000_000 + n1 == s2 * 1_000_000_000 + n2,
            0 <= n1 < 1_000_000_000,
            0 <= n2 < 1_000_000_000,
    ;
}

} // verus!
