//! The contract's enums, reshaped: the unspecified value is unrepresentable,
//! and a value newer than this build survives as `Unrecognized` instead of
//! failing, so additive schema evolution does not break older consumers.

use vstd::prelude::*;

use crate::schema::invalid::Violation;

verus! {
/// Validated form of the contract's `FailureClass` of an acquisition status.
///
/// The unspecified value is unrepresentable. A value newer than this build
/// decodes as [`FailureClass::Unrecognized`] instead of failing.
#[derive(Clone, Copy, Debug, PartialEq, Eq, Structural, Hash)]
#[non_exhaustive]
pub enum FailureClass {
    Connectivity,
    Authentication,
    Timeout,
    Protocol,
    Unsupported,
    Device,
    Internal,
    /// A value newer than this build. Interpreting it is the consumer's
    /// decision; re-encoding preserves it.
    Unrecognized(i32),
}

/// The `FailureClass` of an acquisition status a wire number stands for: zero is refused, numbers this
/// build does not know are kept.
pub open spec fn failure_class_of(value: i32) -> Result<FailureClass, Violation> {
    if value == 0 {
        Err(Violation::Unspecified)
    } else if value == 1 {
        Ok(FailureClass::Connectivity)
    } else if value == 2 {
        Ok(FailureClass::Authentication)
    } else if value == 3 {
        Ok(FailureClass::Timeout)
    } else if value == 4 {
        Ok(FailureClass::Protocol)
    } else if value == 5 {
        Ok(FailureClass::Unsupported)
    } else if value == 6 {
        Ok(FailureClass::Device)
    } else if value == 7 {
        Ok(FailureClass::Internal)
    } else {
        Ok(FailureClass::Unrecognized(value))
    }
}

/// The wire number of a `FailureClass` of an acquisition status.
pub open spec fn failure_class_of_number(value: FailureClass) -> i32 {
    match value {
        FailureClass::Connectivity => 1,
        FailureClass::Authentication => 2,
        FailureClass::Timeout => 3,
        FailureClass::Protocol => 4,
        FailureClass::Unsupported => 5,
        FailureClass::Device => 6,
        FailureClass::Internal => 7,
        FailureClass::Unrecognized(other) => other,
    }
}

impl TryFrom<i32> for FailureClass {
    type Error = Violation;

    fn try_from(value: i32) -> (made: Result<FailureClass, Violation>)
        ensures
            made == failure_class_of(value),
    {
        match value {
            0 => Err(Violation::Unspecified),
            1 => Ok(FailureClass::Connectivity),
            2 => Ok(FailureClass::Authentication),
            3 => Ok(FailureClass::Timeout),
            4 => Ok(FailureClass::Protocol),
            5 => Ok(FailureClass::Unsupported),
            6 => Ok(FailureClass::Device),
            7 => Ok(FailureClass::Internal),
            other => Ok(FailureClass::Unrecognized(other)),
        }
    }
}

impl vstd::std_specs::convert::TryFromSpecImpl<i32> for FailureClass {
    open spec fn obeys_try_from_spec() -> bool {
        true
    }

    open spec fn try_from_spec(value: i32) -> Result<FailureClass, Violation> {
        failure_class_of(value)
    }
}

impl From<FailureClass> for i32 {
    fn from(value: FailureClass) -> (number: i32)
        ensures
            number == failure_class_of_number(value),
    {
        match value {
            FailureClass::Connectivity => 1,
            FailureClass::Authentication => 2,
            FailureClass::Timeout => 3,
            FailureClass::Protocol => 4,
            FailureClass::Unsupported => 5,
            FailureClass::Device => 6,
            FailureClass::Internal => 7,
            FailureClass::Unrecognized(other) => other,
        }
    }
}

impl vstd::std_specs::convert::FromSpecImpl<FailureClass> for i32 {
    open spec fn obeys_from_spec() -> bool {
        true
    }

    open spec fn from_spec(value: FailureClass) -> i32 {
        failure_class_of_number(value)
    }
}

/// Validated form of the contract's `Outcome` of an acquisition status.
///
/// The unspecified value is unrepresentable. A value newer than this build
/// decodes as [`Outcome::Unrecognized`] instead of failing.
#[derive(Clone, Copy, Debug, PartialEq, Eq, Structural, Hash)]
#[non_exhaustive]
pub enum Outcome {
    Succeeded,
    Failed,
    /// A value newer than this build. Interpreting it is the consumer's
    /// decision; re-encoding preserves it.
    Unrecognized(i32),
}

/// The `Outcome` of an acquisition status a wire number stands for: zero is refused, numbers this
/// build does not know are kept.
pub open spec fn outcome_of(value: i32) -> Result<Outcome, Violation> {
    if value == 0 {
        Err(Violation::Unspecified)
    } else if value == 1 {
        Ok(Outcome::Succeeded)
    } else if value == 2 {
        Ok(Outcome::Failed)
    } else {
        Ok(Outcome::Unrecognized(value))
    }
}

/// The wire number of a `Outcome` of an acquisition status.
pub open spec fn outcome_of_number(value: Outcome) -> i32 {
    match value {
        Outcome::Succeeded => 1,
        Outcome::Failed => 2,
        Outcome::Unrecognized(other) => other,
    }
}

impl TryFrom<i32> for Outcome {
    type Error = Violation;

    fn try_from(value: i32) -> (made: Result<Outcome, Violation>)
        ensures
            made == outcome_of(value),
    {
        match value {
            0 => Err(Violation::Unspecified),
            1 => Ok(Outcome::Succeeded),
            2 => Ok(Outcome::Failed),
            other => Ok(Outcome::Unrecognized(other)),
        }
    }
}

impl vstd::std_specs::convert::TryFromSpecImpl<i32> for Outcome {
    open spec fn obeys_try_from_spec() -> bool {
        true
    }

    open spec fn try_from_spec(value: i32) -> Result<Outcome, Violation> {
        outcome_of(value)
    }
}

impl From<Outcome> for i32 {
    fn from(value: Outcome) -> (number: i32)
        ensures
            number == outcome_of_number(value),
    {
        match value {
            Outcome::Succeeded => 1,
            Outcome::Failed => 2,
            Outcome::Unrecognized(other) => other,
        }
    }
}

impl vstd::std_specs::convert::FromSpecImpl<Outcome> for i32 {
    open spec fn obeys_from_spec() -> bool {
        true
    }

    open spec fn from_spec(value: Outcome) -> i32 {
        outcome_of_number(value)
    }
}

/// Validated form of the contract's `Completeness`.
///
/// The unspecified value is unrepresentable. A value newer than this build
/// decodes as [`Completeness::Unrecognized`] instead of failing.
#[derive(Clone, Copy, Debug, PartialEq, Eq, Structural, Hash)]
#[non_exhaustive]
pub enum Completeness {
    Complete,
    Partial,
    /// A value newer than this build. Interpreting it is the consumer's
    /// decision; re-encoding preserves it.
    Unrecognized(i32),
}

/// The `Completeness` a wire number stands for: zero is refused, numbers this
/// build does not know are kept.
pub open spec fn completeness_of(value: i32) -> Result<Completeness, Violation> {
    if value == 0 {
        Err(Violation::Unspecified)
    } else if value == 1 {
        Ok(Completeness::Complete)
    } else if value == 2 {
        Ok(Completeness::Partial)
    } else {
        Ok(Completeness::Unrecognized(value))
    }
}

/// The wire number of a `Completeness`.
pub open spec fn completeness_of_number(value: Completeness) -> i32 {
    match value {
        Completeness::Complete => 1,
        Completeness::Partial => 2,
        Completeness::Unrecognized(other) => other,
    }
}

impl TryFrom<i32> for Completeness {
    type Error = Violation;

    fn try_from(value: i32) -> (made: Result<Completeness, Violation>)
        ensures
            made == completeness_of(value),
    {
        match value {
            0 => Err(Violation::Unspecified),
            1 => Ok(Completeness::Complete),
            2 => Ok(Completeness::Partial),
            other => Ok(Completeness::Unrecognized(other)),
        }
    }
}

impl vstd::std_specs::convert::TryFromSpecImpl<i32> for Completeness {
    open spec fn obeys_try_from_spec() -> bool {
        true
    }

    open spec fn try_from_spec(value: i32) -> Result<Completeness, Violation> {
        completeness_of(value)
    }
}

impl From<Completeness> for i32 {
    fn from(value: Completeness) -> (number: i32)
        ensures
            number == completeness_of_number(value),
    {
        match value {
            Completeness::Complete => 1,
            Completeness::Partial => 2,
            Completeness::Unrecognized(other) => other,
        }
    }
}

impl vstd::std_specs::convert::FromSpecImpl<Completeness> for i32 {
    open spec fn obeys_from_spec() -> bool {
        true
    }

    open spec fn from_spec(value: Completeness) -> i32 {
        completeness_of_number(value)
    }
}

/// Validated form of the contract's `Severity`.
///
/// The unspecified value is unrepresentable. A value newer than this build
/// decodes as [`Severity::Unrecognized`] instead of failing.
#[derive(Clone, Copy, Debug, PartialEq, Eq, Structural, Hash)]
#[non_exhaustive]
pub enum Severity {
    Debug,
    Info,
    Warning,
    Error,
    Critical,
    /// A value newer than this build. Interpreting it is the consumer's
    /// decision; re-encoding preserves it.
    Unrecognized(i32),
}

/// The `Severity` a wire number stands for: zero is refused, numbers this
/// build does not know are kept.
pub open spec fn severity_of(value: i32) -> Result<Severity, Violation> {
    if value == 0 {
        Err(Violation::Unspecified)
    } else if value == 1 {
        Ok(Severity::Debug)
    } else if value == 2 {
        Ok(Severity::Info)
    } else if value == 3 {
        Ok(Severity::Warning)
    } else if value == 4 {
        Ok(Severity::Error)
    } else if value == 5 {
        Ok(Severity::Critical)
    } else {
        Ok(Severity::Unrecognized(value))
    }
}

/// The wire number of a `Severity`.
pub open spec fn severity_of_number(value: Severity) -> i32 {
    match value {
        Severity::Debug => 1,
        Severity::Info => 2,
        Severity::Warning => 3,
        Severity::Error => 4,
        Severity::Critical => 5,
        Severity::Unrecognized(other) => other,
    }
}

impl TryFrom<i32> for Severity {
    type Error = Violation;

    fn try_from(value: i32) -> (made: Result<Severity, Violation>)
        ensures
            made == severity_of(value),
    {
        match value {
            0 => Err(Violation::Unspecified),
            1 => Ok(Severity::Debug),
            2 => Ok(Severity::Info),
            3 => Ok(Severity::Warning),
            4 => Ok(Severity::Error),
            5 => Ok(Severity::Critical),
            other => Ok(Severity::Unrecognized(other)),
        }
    }
}

impl vstd::std_specs::convert::TryFromSpecImpl<i32> for Severity {
    open spec fn obeys_try_from_spec() -> bool {
        true
    }

    open spec fn try_from_spec(value: i32) -> Result<Severity, Violation> {
        severity_of(value)
    }
}

impl From<Severity> for i32 {
    fn from(value: Severity) -> (number: i32)
        ensures
            number == severity_of_number(value),
    {
        match value {
            Severity::Debug => 1,
            Severity::Info => 2,
            Severity::Warning => 3,
            Severity::Error => 4,
            Severity::Critical => 5,
            Severity::Unrecognized(other) => other,
        }
    }
}

impl vstd::std_specs::convert::FromSpecImpl<Severity> for i32 {
    open spec fn obeys_from_spec() -> bool {
        true
    }

    open spec fn from_spec(value: Severity) -> i32 {
        severity_of_number(value)
    }
}

/// The contract's wire numbers of `FailureClass`: Connectivity 1, Authentication 2, Timeout 3, Protocol 4, Unsupported 5, Device 6, Internal 7. Zero is the
/// unspecified value and is refused, and every other number decodes to the
/// value that encodes back to it.
pub proof fn law_failure_class_numbers(value: i32)
    ensures
        failure_class_of(0) == Err::<FailureClass, Violation>(Violation::Unspecified),
        failure_class_of(1) == Ok::<FailureClass, Violation>(FailureClass::Connectivity),
        failure_class_of(2) == Ok::<FailureClass, Violation>(FailureClass::Authentication),
        failure_class_of(3) == Ok::<FailureClass, Violation>(FailureClass::Timeout),
        failure_class_of(4) == Ok::<FailureClass, Violation>(FailureClass::Protocol),
        failure_class_of(5) == Ok::<FailureClass, Violation>(FailureClass::Unsupported),
        failure_class_of(6) == Ok::<FailureClass, Violation>(FailureClass::Device),
        failure_class_of(7) == Ok::<FailureClass, Violation>(FailureClass::Internal),
        failure_class_of_number(FailureClass::Connectivity) == 1,
        failure_class_of_number(FailureClass::Authentication) == 2,
        failure_class_of_number(FailureClass::Timeout) == 3,
        failure_class_of_number(FailureClass::Protocol) == 4,
        failure_class_of_number(FailureClass::Unsupported) == 5,
        failure_class_of_number(FailureClass::Device) == 6,
        failure_class_of_number(FailureClass::Internal) == 7,
        value != 0 ==> (failure_class_of(value) matches Ok(decoded) && failure_class_of_number(decoded) == value),
{
}

/// The contract's wire numbers of `Outcome`: Succeeded 1, Failed 2. Zero is the
/// unspecified value and is refused, and every other number decodes to the
/// value that encodes back to it.
pub proof fn law_outcome_numbers(value: i32)
    ensures
        outcome_of(0) == Err::<Outcome, Violation>(Violation::Unspecified),
        outcome_of(1) == Ok::<Outcome, Violation>(Outcome::Succeeded),
        outcome_of(2) == Ok::<Outcome, Violation>(Outcome::Failed),
        outcome_of_number(Outcome::Succeeded) == 1,
        outcome_of_number(Outcome::Failed) == 2,
        value != 0 ==> (outcome_of(value) matches Ok(decoded) && outcome_of_number(decoded) == value),
{
}

/// The contract's wire numbers of `Completeness`: Complete 1, Partial 2. Zero is the
/// unspecified value and is refused, and every other number decodes to the
/// value that encodes back to it.
pub proof fn law_completeness_numbers(value: i32)
    ensures
        completeness_of(0) == Err::<Completeness, Violation>(Violation::Unspecified),
        completeness_of(1) == Ok::<Completeness, Violation>(Completeness::Complete),
        completeness_of(2) == Ok::<Completeness, Violation>(Completeness::Partial),
        completeness_of_number(Completeness::Complete) == 1,
        completeness_of_number(Completeness::Partial) == 2,
        value != 0 ==> (completeness_of(value) matches Ok(decoded) && completeness_of_number(decoded) == value),
{
}

/// The contract's wire numbers of `Severity`: Debug 1, Info 2, Warning 3, Error 4, Critical 5. Zero is the
/// unspecified value and is refused, and every other number decodes to the
/// value that encodes back to it.
pub proof fn law_severity_numbers(value: i32)
    ensures
        severity_of(0) == Err::<Severity, Violation>(Violation::Unspecified),
        severity_of(1) == Ok::<Severity, Violation>(Severity::Debug),
        severity_of(2) == Ok::<Severity, Violation>(Severity::Info),
        severity_of(3) == Ok::<Severity, Violation>(Severity::Warning),
        severity_of(4) == Ok::<Severity, Violation>(Severity::Error),
        severity_of(5) == Ok::<Severity, Violation>(Severity::Critical),
        severity_of_number(Severity::Debug) == 1,
        severity_of_number(Severity::Info) == 2,
        severity_of_number(Severity::Warning) == 3,
        severity_of_number(Severity::Error) == 4,
        severity_of_number(Severity::Critical) == 5,
        value != 0 ==> (severity_of(value) matches Ok(decoded) && severity_of_number(decoded) == value),
{
}

} // verus!
