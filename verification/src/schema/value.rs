//! The validated instant and numeric sample of the contract.

use vstd::prelude::*;

use crate::schema::invalid::{Fault, Invalid, Violation, reports};
use crate::schema::wire;
use crate::telemetry::number::{Finite, is_finite_bits, normalized_bits, SIGN_BIT};

verus! {

/// The rule an instant's sub-second part obeys.
pub const NANOS_WITHIN_SECOND: &'static str = "nanoseconds must fall within the second";

/// An instant in time, UTC.
///
/// One instant has exactly one representation: nanoseconds are bounded below
/// one second, so equal instants compare and hash equal.
#[derive(Clone, Copy, Debug, PartialEq, Eq, Structural, PartialOrd, Ord, Hash)]
pub struct Timestamp {
    seconds: i64,
    nanos: u32,
}

/// What is wrong with an instant given as seconds and nanoseconds, if
/// anything.
pub open spec fn timestamp_fault(nanos: u32) -> Option<Fault> {
    if nanos >= 1_000_000_000 {
        Some(("nanos"@, Violation::Rule(NANOS_WITHIN_SECOND)))
    } else {
        None
    }
}

/// An instant's position on the time line, in nanoseconds from the epoch.
pub open spec fn instant_nanos(seconds: i64, nanos: u32) -> int {
    seconds * 1_000_000_000 + nanos
}

impl Timestamp {
    #[verifier::type_invariant]
    spec fn within_second(self) -> bool {
        self.nanos < 1_000_000_000
    }

    /// Seconds since the Unix epoch.
    pub closed spec fn secs(self) -> i64 {
        self.seconds
    }

    /// Nanoseconds within the second.
    pub closed spec fn subsec(self) -> u32 {
        self.nanos
    }

    /// The instant's position on the time line.
    pub open spec fn at_nanos(self) -> int {
        instant_nanos(self.secs(), self.subsec())
    }

    /// An instant `seconds` from the Unix epoch, plus `nanos` within the
    /// second.
    ///
    /// Refuses `nanos` of one second or more: carrying a second in the
    /// nanosecond field would give one instant two representations.
    pub fn new(seconds: i64, nanos: u32) -> (made: Result<Timestamp, Invalid>)
        ensures
            reports(made, timestamp_fault(nanos)),
            made matches Ok(t) ==> t.secs() == seconds && t.subsec() == nanos,
    {
        if nanos >= 1_000_000_000 {
            return Err(Invalid::field("nanos", Violation::Rule(NANOS_WITHIN_SECOND)));
        }
        Ok(Timestamp { seconds, nanos })
    }

    /// Seconds since the Unix epoch.
    pub fn seconds(self) -> (seconds: i64)
        ensures
            seconds == self.secs(),
    {
        self.seconds
    }

    /// Nanoseconds within the second, always below one second.
    pub fn nanos(self) -> (nanos: u32)
        ensures
            nanos == self.subsec(),
            nanos < 1_000_000_000,
    {
        proof {
            use_type_invariant(self);
        }
        self.nanos
    }

    /// Whether this instant falls strictly after `other`.
    pub fn is_after(self, other: Timestamp) -> (after: bool)
        ensures
            after == (self.at_nanos() > other.at_nanos()),
    {
        proof {
            use_type_invariant(self);
            use_type_invariant(other);
            assert((self.secs() > other.secs()) ==> self.at_nanos() > other.at_nanos()) by (nonlinear_arith)
                requires
                    self.subsec() < 1_000_000_000,
                    other.subsec() < 1_000_000_000,
            ;
            assert((self.secs() < other.secs()) ==> self.at_nanos() < other.at_nanos()) by (nonlinear_arith)
                requires
                    self.subsec() < 1_000_000_000,
                    other.subsec() < 1_000_000_000,
            ;
        }
        self.seconds > other.seconds || (self.seconds == other.seconds && self.nanos > other.nanos)
    }
}

/// What decoding a wire instant reports, if anything: each absent field in
/// turn, then the sub-second rule.
pub open spec fn wire_timestamp_fault(wire: wire::Timestamp) -> Option<Fault> {
    match (wire.seconds, wire.nanos) {
        (None, _) => Some(("seconds"@, Violation::Absent)),
        (Some(_), None) => Some(("nanos"@, Violation::Absent)),
        (Some(_), Some(nanos)) => timestamp_fault(nanos),
    }
}

/// The instant a wire timestamp carrying both fields stands for.
pub closed spec fn timestamp_of_wire(wire: wire::Timestamp) -> Timestamp {
    Timestamp {
        seconds: match wire.seconds {
            Some(seconds) => seconds,
            None => 0,
        },
        nanos: match wire.nanos {
            Some(nanos) => nanos,
            None => 0,
        },
    }
}

impl TryFrom<wire::Timestamp> for Timestamp {
    type Error = Invalid;

    fn try_from(wire: wire::Timestamp) -> (made: Result<Timestamp, Invalid>)
        ensures
            reports(made, wire_timestamp_fault(wire)),
            made matches Ok(t) ==> Some(t.secs()) == wire.seconds && Some(t.subsec()) == wire.nanos && t == timestamp_of_wire(wire),
    {
        let seconds = match wire.seconds {
            Some(seconds) => seconds,
            None => {
                return Err(Invalid::field("seconds", Violation::Absent));
            },
        };
        let nanos = match wire.nanos {
            Some(nanos) => nanos,
            None => {
                return Err(Invalid::field("nanos", Violation::Absent));
            },
        };
        Timestamp::new(seconds, nanos)
    }
}

impl vstd::std_specs::convert::TryFromSpecImpl<wire::Timestamp> for Timestamp {
    open spec fn obeys_try_from_spec() -> bool {
        false
    }

    open spec fn try_from_spec(wire: wire::Timestamp) -> Result<Timestamp, Invalid> {
        arbitrary()
    }
}

impl From<Timestamp> for wire::Timestamp {
    fn from(timestamp: Timestamp) -> (wire: wire::Timestamp)
        ensures
            wire.seconds == Some(timestamp.secs()),
            wire.nanos == Some(timestamp.subsec()),
            timestamp_of_wire(wire) == timestamp,
            wire_timestamp_fault(wire) is None,
    {
        proof {
            use_type_invariant(timestamp);
        }
        wire::Timestamp { seconds: Some(timestamp.seconds), nanos: Some(timestamp.nanos) }
    }
}

impl vstd::std_specs::convert::FromSpecImpl<Timestamp> for wire::Timestamp {
    open spec fn obeys_from_spec() -> bool {
        true
    }

    open spec fn from_spec(timestamp: Timestamp) -> wire::Timestamp {
        wire::Timestamp { seconds: Some(timestamp.secs()), nanos: Some(timestamp.subsec()) }
    }
}

/// What a double's bits say about a finite field: nothing when finite.
pub open spec fn double_fault(bits: u64) -> Option<Fault> {
    if is_finite_bits(bits) {
        None
    } else {
        Some(("double_value"@, Violation::NotFinite))
    }
}

/// A numeric sample: one of the three arms the schema declares, chosen by the
/// source field's declared type rather than by the value observed.
///
/// Every arm's payload already upholds its own invariant, so constructing an
/// arm directly cannot construct an invalid sample.
#[derive(Clone, Copy, Debug, PartialEq, Eq, Structural)]
#[non_exhaustive]
pub enum NumericValue {
    /// A finite double.
    Double(Finite),
    /// A signed integer.
    Int(i64),
    /// An unsigned integer: the arm a 64-bit counter takes, which a double
    /// would silently truncate above 2^53.
    Uint(u64),
}

impl NumericValue {
    /// A double sample, from the double's bits.
    ///
    /// Refuses `NaN` and the infinities: a non-finite reading is a fabricated
    /// observation, reported as an invalid field rather than carried.
    pub fn double(bits: u64) -> (made: Result<NumericValue, Invalid>)
        ensures
            reports(made, double_fault(bits)),
            made matches Ok(value) ==> value matches NumericValue::Double(f) && f.bits_of() == normalized_bits(bits),
    {
        match Finite::from_bits(bits) {
            Ok(value) => Ok(NumericValue::Double(value)),
            Err(_) => Err(Invalid::field("double_value", Violation::NotFinite)),
        }
    }
}

/// What decoding a wire numeric sample reports, if anything.
pub open spec fn wire_numeric_fault(wire: wire::NumericValue) -> Option<Fault> {
    match wire.kind {
        None => Some(("kind"@, Violation::Absent)),
        Some(wire::NumericArm::DoubleValue(bits)) => double_fault(bits),
        Some(_) => None,
    }
}

/// Whether `value` is what the wire sample `wire` stands for.
pub open spec fn numeric_decodes(wire: wire::NumericValue, value: NumericValue) -> bool {
    match (wire.kind, value) {
        (Some(wire::NumericArm::DoubleValue(bits)), NumericValue::Double(f)) => f.bits_of() == normalized_bits(bits),
        (Some(wire::NumericArm::IntValue(a)), NumericValue::Int(b)) => a == b,
        (Some(wire::NumericArm::UintValue(a)), NumericValue::Uint(b)) => a == b,
        _ => false,
    }
}

impl TryFrom<wire::NumericValue> for NumericValue {
    type Error = Invalid;

    fn try_from(wire: wire::NumericValue) -> (made: Result<NumericValue, Invalid>)
        ensures
            reports(made, wire_numeric_fault(wire)),
            made matches Ok(value) ==> numeric_decodes(wire, value),
    {
        match wire.kind {
            None => Err(Invalid::field("kind", Violation::Absent)),
            Some(wire::NumericArm::DoubleValue(bits)) => NumericValue::double(bits),
            Some(wire::NumericArm::IntValue(value)) => Ok(NumericValue::Int(value)),
            Some(wire::NumericArm::UintValue(value)) => Ok(NumericValue::Uint(value)),
        }
    }
}

impl vstd::std_specs::convert::TryFromSpecImpl<wire::NumericValue> for NumericValue {
    open spec fn obeys_try_from_spec() -> bool {
        false
    }

    open spec fn try_from_spec(wire: wire::NumericValue) -> Result<NumericValue, Invalid> {
        arbitrary()
    }
}

impl From<NumericValue> for wire::NumericValue {
    fn from(value: NumericValue) -> (wire: wire::NumericValue)
        ensures
            numeric_decodes(wire, value),
            wire_numeric_fault(wire) is None,
    {
        let kind = match value {
            NumericValue::Double(value) => {
                let bits = value.to_bits();
                proof {
                    assert(normalized_bits(bits) == bits);
                }
                wire::NumericArm::DoubleValue(bits)
            },
            NumericValue::Int(value) => wire::NumericArm::IntValue(value),
            NumericValue::Uint(value) => wire::NumericArm::UintValue(value),
        };
        wire::NumericValue { kind: Some(kind) }
    }
}

impl vstd::std_specs::convert::FromSpecImpl<NumericValue> for wire::NumericValue {
    open spec fn obeys_from_spec() -> bool {
        false
    }

    open spec fn from_spec(value: NumericValue) -> wire::NumericValue {
        arbitrary()
    }
}

} // verus!
