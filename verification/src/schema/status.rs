//! The validated acquisition status: what one acquisition attempt did.

use vstd::prelude::*;

use crate::schema::enums::{FailureClass, Outcome, failure_class_of, failure_class_of_number, outcome_of, outcome_of_number};
use crate::schema::identity::optional_text;
use crate::schema::invalid::{
    Fault, Invalid, Violation, check_optional_text, check_text, fault_at, first_fault, optional_text_fault, reports, text_fault,
};
use crate::schema::limits::{
    ACQUISITIONSTATUS_DETAIL_MAX_LEN, ACQUISITIONSTATUS_ENDPOINT_ID_MAX_LEN, ACQUISITIONSTATUS_PROVIDER_MAX_LEN,
    ACQUISITIONSTATUS_REQUEST_CLASS_MAX_LEN,
};
use crate::schema::value::{Timestamp, timestamp_of_wire, wire_timestamp_fault};
use crate::schema::wire;

verus! {

/// The rule a failed acquisition obeys.
pub const FAILURE_NAMES_ITS_CLASS: &'static str = "a failed acquisition names its failure class";

/// The rule a successful acquisition obeys.
pub const SUCCESS_HAS_NO_FAILURE_CLASS: &'static str = "a successful acquisition carries no failure class";

/// What the outcome and failure class say of each other, if they disagree:
/// a failure must name its class and a success must not carry one.
pub open spec fn outcome_fault(outcome: Outcome, failure_class: Option<FailureClass>) -> Option<Fault> {
    match (outcome, failure_class) {
        (Outcome::Failed, None) => Some(("failure_class"@, Violation::Rule(FAILURE_NAMES_ITS_CLASS))),
        (Outcome::Succeeded, Some(_)) => Some(("failure_class"@, Violation::Rule(SUCCESS_HAS_NO_FAILURE_CLASS))),
        _ => None,
    }
}

/// The parts of a status as the contracts speak of them.
pub struct StatusParts {
    pub endpoint_id: Seq<char>,
    pub provider: Seq<char>,
    pub request_class: Seq<char>,
    pub outcome: Outcome,
    pub failure_class: Option<FailureClass>,
    pub retryable: Option<bool>,
    pub started_at: Timestamp,
    pub duration_nanos: Option<u64>,
    pub detail: Option<Seq<char>>,
}

/// What is wrong with a status's fields, checked in order, if anything.
pub open spec fn status_fault(parts: StatusParts) -> Option<Fault> {
    first_fault(
        text_fault("endpoint_id"@, parts.endpoint_id, ACQUISITIONSTATUS_ENDPOINT_ID_MAX_LEN),
        first_fault(
            text_fault("provider"@, parts.provider, ACQUISITIONSTATUS_PROVIDER_MAX_LEN),
            first_fault(
                text_fault("request_class"@, parts.request_class, ACQUISITIONSTATUS_REQUEST_CLASS_MAX_LEN),
                first_fault(
                    optional_text_fault("detail"@, parts.detail, ACQUISITIONSTATUS_DETAIL_MAX_LEN),
                    outcome_fault(parts.outcome, parts.failure_class),
                ),
            ),
        ),
    )
}

/// Validated form of the contract's `AcquisitionStatus`.
///
/// Holds its invariants for as long as it exists: built through
/// [`AcquisitionStatusBuilder`] or decoded from the wire, both of which run
/// the same checks, including the rule tying the outcome to the failure
/// class.
#[derive(Debug, PartialEq, Eq)]
pub struct AcquisitionStatus {
    endpoint_id: String,
    provider: String,
    request_class: String,
    outcome: Outcome,
    failure_class: Option<FailureClass>,
    retryable: Option<bool>,
    started_at: Timestamp,
    duration_nanos: Option<u64>,
    detail: Option<String>,
}

impl AcquisitionStatus {
    #[verifier::type_invariant]
    spec fn valid(self) -> bool {
        status_fault(self.parts()) is None
    }

    /// The status's parts.
    pub closed spec fn parts(self) -> StatusParts {
        StatusParts {
            endpoint_id: self.endpoint_id@,
            provider: self.provider@,
            request_class: self.request_class@,
            outcome: self.outcome,
            failure_class: self.failure_class,
            retryable: self.retryable,
            started_at: self.started_at,
            duration_nanos: self.duration_nanos,
            detail: optional_text(self.detail),
        }
    }

    /// A builder holding nothing yet.
    pub fn builder() -> (builder: AcquisitionStatusBuilder)
        ensures
            builder.endpoint_id_part() is None,
            builder.provider_part() is None,
            builder.request_class_part() is None,
            builder.outcome_part() is None,
            builder.failure_class_part() is None,
            builder.retryable_part() is None,
            builder.started_at_part() is None,
            builder.duration_nanos_part() is None,
            builder.detail_part() is None,
    {
        AcquisitionStatusBuilder {
            endpoint_id: None,
            provider: None,
            request_class: None,
            outcome: None,
            failure_class: None,
            retryable: None,
            started_at: None,
            duration_nanos: None,
            detail: None,
        }
    }

    /// The `endpoint_id`.
    pub fn endpoint_id(&self) -> (endpoint_id: &str)
        ensures
            endpoint_id@ == self.parts().endpoint_id,
    {
        self.endpoint_id.as_str()
    }

    /// The `provider`.
    pub fn provider(&self) -> (provider: &str)
        ensures
            provider@ == self.parts().provider,
    {
        self.provider.as_str()
    }

    /// The `request_class`.
    pub fn request_class(&self) -> (request_class: &str)
        ensures
            request_class@ == self.parts().request_class,
    {
        self.request_class.as_str()
    }

    /// The `outcome`.
    pub fn outcome(&self) -> (outcome: Outcome)
        ensures
            outcome == self.parts().outcome,
    {
        self.outcome
    }

    /// The `failure_class`, when present; present exactly on a failure.
    pub fn failure_class(&self) -> (failure_class: Option<FailureClass>)
        ensures
            failure_class == self.parts().failure_class,
            outcome_fault(self.parts().outcome, failure_class) is None,
    {
        proof {
            use_type_invariant(self);
        }
        self.failure_class
    }

    /// The `retryable`, when present.
    pub fn retryable(&self) -> (retryable: Option<bool>)
        ensures
            retryable == self.parts().retryable,
    {
        self.retryable
    }

    /// The `started_at`.
    pub fn started_at(&self) -> (started_at: &Timestamp)
        ensures
            *started_at == self.parts().started_at,
    {
        &self.started_at
    }

    /// The `duration_nanos`, when present.
    pub fn duration_nanos(&self) -> (duration_nanos: Option<u64>)
        ensures
            duration_nanos == self.parts().duration_nanos,
    {
        self.duration_nanos
    }

    /// The `detail`, when present.
    pub fn detail(&self) -> (detail: Option<&str>)
        ensures
            match detail {
                Some(text) => self.parts().detail == Some(text@),
                None => self.parts().detail is None,
            },
    {
        match &self.detail {
            Some(text) => Some(text.as_str()),
            None => None,
        }
    }

    /// Validates complete parts, in the order the contract checks them.
    fn checked(
        endpoint_id: String,
        provider: String,
        request_class: String,
        outcome: Outcome,
        failure_class: Option<FailureClass>,
        retryable: Option<bool>,
        started_at: Timestamp,
        duration_nanos: Option<u64>,
        detail: Option<String>,
    ) -> (made: Result<AcquisitionStatus, Invalid>)
        ensures
            ({
                let parts = StatusParts {
                    endpoint_id: endpoint_id@,
                    provider: provider@,
                    request_class: request_class@,
                    outcome,
                    failure_class,
                    retryable,
                    started_at,
                    duration_nanos,
                    detail: optional_text(detail),
                };
                &&& reports(made, status_fault(parts))
                &&& made matches Ok(status) ==> status.parts() == parts
            }),
    {
        match check_text("endpoint_id", endpoint_id.as_str(), ACQUISITIONSTATUS_ENDPOINT_ID_MAX_LEN) {
            Ok(()) => {},
            Err(error) => {
                return Err(error);
            },
        }
        match check_text("provider", provider.as_str(), ACQUISITIONSTATUS_PROVIDER_MAX_LEN) {
            Ok(()) => {},
            Err(error) => {
                return Err(error);
            },
        }
        match check_text("request_class", request_class.as_str(), ACQUISITIONSTATUS_REQUEST_CLASS_MAX_LEN) {
            Ok(()) => {},
            Err(error) => {
                return Err(error);
            },
        }
        match check_optional_text("detail", &detail, ACQUISITIONSTATUS_DETAIL_MAX_LEN) {
            Ok(()) => {},
            Err(error) => {
                return Err(error);
            },
        }
        match (outcome, failure_class) {
            (Outcome::Failed, None) => {
                return Err(Invalid::field("failure_class", Violation::Rule(FAILURE_NAMES_ITS_CLASS)));
            },
            (Outcome::Succeeded, Some(_)) => {
                return Err(Invalid::field("failure_class", Violation::Rule(SUCCESS_HAS_NO_FAILURE_CLASS)));
            },
            _ => {},
        }
        Ok(
            AcquisitionStatus {
                endpoint_id,
                provider,
                request_class,
                outcome,
                failure_class,
                retryable,
                started_at,
                duration_nanos,
                detail,
            },
        )
    }
}

impl Clone for AcquisitionStatus {
    fn clone(&self) -> (copy: AcquisitionStatus)
        ensures
            copy.parts() == self.parts(),
    {
        proof {
            use_type_invariant(self);
        }
        AcquisitionStatus {
            endpoint_id: self.endpoint_id.clone(),
            provider: self.provider.clone(),
            request_class: self.request_class.clone(),
            outcome: self.outcome,
            failure_class: self.failure_class,
            retryable: self.retryable,
            started_at: self.started_at,
            duration_nanos: self.duration_nanos,
            detail: self.detail.clone(),
        }
    }
}

/// Builds an [`AcquisitionStatus`]. Setters are infallible;
/// [`build`](AcquisitionStatusBuilder::build) validates everything at once,
/// exactly as decoding does.
#[derive(Debug)]
pub struct AcquisitionStatusBuilder {
    endpoint_id: Option<String>,
    provider: Option<String>,
    request_class: Option<String>,
    outcome: Option<Outcome>,
    failure_class: Option<FailureClass>,
    retryable: Option<bool>,
    started_at: Option<Timestamp>,
    duration_nanos: Option<u64>,
    detail: Option<String>,
}

/// Whether `status` holds exactly the parts `builder` was given.
pub open spec fn built_from(status: AcquisitionStatus, builder: AcquisitionStatusBuilder) -> bool {
    &&& Some(status.parts().endpoint_id) == builder.endpoint_id_part()
    &&& Some(status.parts().provider) == builder.provider_part()
    &&& Some(status.parts().request_class) == builder.request_class_part()
    &&& Some(status.parts().outcome) == builder.outcome_part()
    &&& status.parts().failure_class == builder.failure_class_part()
    &&& status.parts().retryable == builder.retryable_part()
    &&& Some(status.parts().started_at) == builder.started_at_part()
    &&& status.parts().duration_nanos == builder.duration_nanos_part()
    &&& status.parts().detail == builder.detail_part()
}

/// Whether two statuses agree on every part but the one numbered `field`
/// (in declaration order, 0 to 8).
pub open spec fn parts_same_except(a: StatusParts, b: StatusParts, field: int) -> bool {
    &&& (field != 0 ==> a.endpoint_id == b.endpoint_id)
    &&& (field != 1 ==> a.provider == b.provider)
    &&& (field != 2 ==> a.request_class == b.request_class)
    &&& (field != 3 ==> a.outcome == b.outcome)
    &&& (field != 4 ==> a.failure_class == b.failure_class)
    &&& (field != 5 ==> a.retryable == b.retryable)
    &&& (field != 6 ==> a.started_at == b.started_at)
    &&& (field != 7 ==> a.duration_nanos == b.duration_nanos)
    &&& (field != 8 ==> a.detail == b.detail)
}

/// Setting one part of a builder changes nothing else: where the builder
/// builds both before and after the setter, the two statuses agree on every
/// other part.
pub proof fn law_setter_changes_one_part(
    before: AcquisitionStatusBuilder,
    after: AcquisitionStatusBuilder,
    field: int,
    first: AcquisitionStatus,
    second: AcquisitionStatus,
)
    requires
        after.same_except(before, field),
        built_from(first, before),
        built_from(second, after),
    ensures
        parts_same_except(second.parts(), first.parts(), field),
{
}

/// Copies a text that may be absent.
fn copy_text(value: &Option<String>) -> (copy: Option<String>)
    ensures
        optional_text(copy) == optional_text(*value),
{
    match value {
        Some(text) => Some(text.clone()),
        None => None,
    }
}

impl Clone for AcquisitionStatusBuilder {
    fn clone(&self) -> (copy: AcquisitionStatusBuilder)
        ensures
            copy.same_except(*self, -1),
    {
        AcquisitionStatusBuilder {
            endpoint_id: copy_text(&self.endpoint_id),
            provider: copy_text(&self.provider),
            request_class: copy_text(&self.request_class),
            outcome: self.outcome,
            failure_class: self.failure_class,
            retryable: self.retryable,
            started_at: self.started_at,
            duration_nanos: self.duration_nanos,
            detail: copy_text(&self.detail),
        }
    }
}

/// What assembling a status from optional parts reports, if anything: each
/// absent required part in turn, then the status's own checks.
pub open spec fn status_parts_fault(
    endpoint_id: Option<Seq<char>>,
    provider: Option<Seq<char>>,
    request_class: Option<Seq<char>>,
    outcome: Option<Outcome>,
    failure_class: Option<FailureClass>,
    retryable: Option<bool>,
    started_at: Option<Timestamp>,
    duration_nanos: Option<u64>,
    detail: Option<Seq<char>>,
) -> Option<Fault> {
    match (endpoint_id, provider, request_class, outcome, started_at) {
        (None, _, _, _, _) => Some(("endpoint_id"@, Violation::Absent)),
        (Some(_), None, _, _, _) => Some(("provider"@, Violation::Absent)),
        (Some(_), Some(_), None, _, _) => Some(("request_class"@, Violation::Absent)),
        (Some(_), Some(_), Some(_), None, _) => Some(("outcome"@, Violation::Absent)),
        (Some(_), Some(_), Some(_), Some(_), None) => Some(("started_at"@, Violation::Absent)),
        (Some(endpoint_id), Some(provider), Some(request_class), Some(outcome), Some(started_at)) => status_fault(
            StatusParts {
                endpoint_id,
                provider,
                request_class,
                outcome,
                failure_class,
                retryable,
                started_at,
                duration_nanos,
                detail,
            },
        ),
    }
}

impl AcquisitionStatusBuilder {
    pub closed spec fn endpoint_id_part(self) -> Option<Seq<char>> {
        optional_text(self.endpoint_id)
    }

    pub closed spec fn provider_part(self) -> Option<Seq<char>> {
        optional_text(self.provider)
    }

    pub closed spec fn request_class_part(self) -> Option<Seq<char>> {
        optional_text(self.request_class)
    }

    pub closed spec fn outcome_part(self) -> Option<Outcome> {
        self.outcome
    }

    pub closed spec fn failure_class_part(self) -> Option<FailureClass> {
        self.failure_class
    }

    pub closed spec fn retryable_part(self) -> Option<bool> {
        self.retryable
    }

    pub closed spec fn started_at_part(self) -> Option<Timestamp> {
        self.started_at
    }

    pub closed spec fn duration_nanos_part(self) -> Option<u64> {
        self.duration_nanos
    }

    pub closed spec fn detail_part(self) -> Option<Seq<char>> {
        optional_text(self.detail)
    }

    /// The fault building would report, if any.
    pub open spec fn fault(self) -> Option<Fault> {
        status_parts_fault(
            self.endpoint_id_part(),
            self.provider_part(),
            self.request_class_part(),
            self.outcome_part(),
            self.failure_class_part(),
            self.retryable_part(),
            self.started_at_part(),
            self.duration_nanos_part(),
            self.detail_part(),
        )
    }

    /// Every part but the one a setter changes is as it was.
    pub open spec fn same_except(self, other: AcquisitionStatusBuilder, field: int) -> bool {
        &&& (field != 0 ==> self.endpoint_id_part() == other.endpoint_id_part())
        &&& (field != 1 ==> self.provider_part() == other.provider_part())
        &&& (field != 2 ==> self.request_class_part() == other.request_class_part())
        &&& (field != 3 ==> self.outcome_part() == other.outcome_part())
        &&& (field != 4 ==> self.failure_class_part() == other.failure_class_part())
        &&& (field != 5 ==> self.retryable_part() == other.retryable_part())
        &&& (field != 6 ==> self.started_at_part() == other.started_at_part())
        &&& (field != 7 ==> self.duration_nanos_part() == other.duration_nanos_part())
        &&& (field != 8 ==> self.detail_part() == other.detail_part())
    }

    /// Sets `endpoint_id`.
    pub fn endpoint_id(self, endpoint_id: &str) -> (builder: AcquisitionStatusBuilder)
        ensures
            builder.endpoint_id_part() == Some(endpoint_id@),
            builder.same_except(self, 0),
    {
        AcquisitionStatusBuilder { endpoint_id: Some(endpoint_id.to_owned()), ..self }
    }

    /// Sets `provider`.
    pub fn provider(self, provider: &str) -> (builder: AcquisitionStatusBuilder)
        ensures
            builder.provider_part() == Some(provider@),
            builder.same_except(self, 1),
    {
        AcquisitionStatusBuilder { provider: Some(provider.to_owned()), ..self }
    }

    /// Sets `request_class`.
    pub fn request_class(self, request_class: &str) -> (builder: AcquisitionStatusBuilder)
        ensures
            builder.request_class_part() == Some(request_class@),
            builder.same_except(self, 2),
    {
        AcquisitionStatusBuilder { request_class: Some(request_class.to_owned()), ..self }
    }

    /// Sets `outcome`.
    pub fn outcome(self, outcome: Outcome) -> (builder: AcquisitionStatusBuilder)
        ensures
            builder.outcome_part() == Some(outcome),
            builder.same_except(self, 3),
    {
        AcquisitionStatusBuilder { outcome: Some(outcome), ..self }
    }

    /// Sets `failure_class`.
    pub fn failure_class(self, failure_class: FailureClass) -> (builder: AcquisitionStatusBuilder)
        ensures
            builder.failure_class_part() == Some(failure_class),
            builder.same_except(self, 4),
    {
        AcquisitionStatusBuilder { failure_class: Some(failure_class), ..self }
    }

    /// Sets `retryable`.
    pub fn retryable(self, retryable: bool) -> (builder: AcquisitionStatusBuilder)
        ensures
            builder.retryable_part() == Some(retryable),
            builder.same_except(self, 5),
    {
        AcquisitionStatusBuilder { retryable: Some(retryable), ..self }
    }

    /// Sets `started_at`.
    pub fn started_at(self, started_at: Timestamp) -> (builder: AcquisitionStatusBuilder)
        ensures
            builder.started_at_part() == Some(started_at),
            builder.same_except(self, 6),
    {
        AcquisitionStatusBuilder { started_at: Some(started_at), ..self }
    }

    /// Sets `duration_nanos`.
    pub fn duration_nanos(self, duration_nanos: u64) -> (builder: AcquisitionStatusBuilder)
        ensures
            builder.duration_nanos_part() == Some(duration_nanos),
            builder.same_except(self, 7),
    {
        AcquisitionStatusBuilder { duration_nanos: Some(duration_nanos), ..self }
    }

    /// Sets `detail`.
    pub fn detail(self, detail: &str) -> (builder: AcquisitionStatusBuilder)
        ensures
            builder.detail_part() == Some(detail@),
            builder.same_except(self, 8),
    {
        AcquisitionStatusBuilder { detail: Some(detail.to_owned()), ..self }
    }

    /// Validates and builds.
    ///
    /// Returns [`Invalid`] naming the first field that is absent or breaks
    /// its schema invariants, or the failure class when it disagrees with
    /// the outcome.
    pub fn build(self) -> (made: Result<AcquisitionStatus, Invalid>)
        ensures
            reports(made, self.fault()),
            made matches Ok(status) ==> built_from(status, self),
    {
        let endpoint_id = match self.endpoint_id {
            Some(value) => value,
            None => {
                return Err(Invalid::field("endpoint_id", Violation::Absent));
            },
        };
        let provider = match self.provider {
            Some(value) => value,
            None => {
                return Err(Invalid::field("provider", Violation::Absent));
            },
        };
        let request_class = match self.request_class {
            Some(value) => value,
            None => {
                return Err(Invalid::field("request_class", Violation::Absent));
            },
        };
        let outcome = match self.outcome {
            Some(value) => value,
            None => {
                return Err(Invalid::field("outcome", Violation::Absent));
            },
        };
        let started_at = match self.started_at {
            Some(value) => value,
            None => {
                return Err(Invalid::field("started_at", Violation::Absent));
            },
        };
        AcquisitionStatus::checked(
            endpoint_id,
            provider,
            request_class,
            outcome,
            self.failure_class,
            self.retryable,
            started_at,
            self.duration_nanos,
            self.detail,
        )
    }
}

/// The failure class a wire number decodes to, if it decodes.
pub open spec fn decoded_failure_class(number: Option<i32>) -> Option<FailureClass> {
    match number {
        Some(number) => match failure_class_of(number) {
            Ok(class) => Some(class),
            Err(_) => None,
        },
        None => None,
    }
}

/// What decoding a wire status reports, if anything: absent and malformed
/// fields in the order they are read, then the status's own checks.
pub open spec fn wire_status_fault(wire: wire::AcquisitionStatus) -> Option<Fault> {
    match (wire.endpoint_id, wire.provider, wire.request_class, wire.outcome) {
        (None, _, _, _) => Some(("endpoint_id"@, Violation::Absent)),
        (Some(_), None, _, _) => Some(("provider"@, Violation::Absent)),
        (Some(_), Some(_), None, _) => Some(("request_class"@, Violation::Absent)),
        (Some(_), Some(_), Some(_), None) => Some(("outcome"@, Violation::Absent)),
        (Some(endpoint_id), Some(provider), Some(request_class), Some(outcome)) => match outcome_of(outcome) {
            Err(violation) => Some(("outcome"@, violation)),
            Ok(outcome) => match wire.failure_class {
                Some(number) if failure_class_of(number) is Err => Some(
                    ("failure_class"@, failure_class_of(number)->Err_0),
                ),
                _ => match wire.started_at {
                    None => Some(("started_at"@, Violation::Absent)),
                    Some(started_at) => match wire_timestamp_fault(started_at) {
                        Some(fault) => fault_at("started_at"@, Some(fault)),
                        None => status_fault(
                            StatusParts {
                                endpoint_id: endpoint_id@,
                                provider: provider@,
                                request_class: request_class@,
                                outcome,
                                failure_class: decoded_failure_class(wire.failure_class),
                                retryable: wire.retryable,
                                started_at: timestamp_of_wire(started_at),
                                duration_nanos: wire.duration_nanos,
                                detail: optional_text(wire.detail),
                            },
                        ),
                    },
                },
            },
        },
    }
}

/// Whether `status` is what the wire status `wire` stands for: every field
/// read as decoding reads it.
pub open spec fn status_decodes(wire: wire::AcquisitionStatus, status: AcquisitionStatus) -> bool {
    &&& optional_text(wire.endpoint_id) == Some(status.parts().endpoint_id)
    &&& optional_text(wire.provider) == Some(status.parts().provider)
    &&& optional_text(wire.request_class) == Some(status.parts().request_class)
    &&& wire.outcome matches Some(number) && outcome_of(number) == Ok::<Outcome, Violation>(status.parts().outcome)
    &&& status.parts().failure_class == decoded_failure_class(wire.failure_class)
    &&& status.parts().retryable == wire.retryable
    &&& wire.started_at matches Some(started_at) && timestamp_of_wire(started_at) == status.parts().started_at
    &&& status.parts().duration_nanos == wire.duration_nanos
    &&& status.parts().detail == optional_text(wire.detail)
}

impl TryFrom<wire::AcquisitionStatus> for AcquisitionStatus {
    type Error = Invalid;

    fn try_from(wire: wire::AcquisitionStatus) -> (made: Result<AcquisitionStatus, Invalid>)
        ensures
            reports(made, wire_status_fault(wire)),
            made matches Ok(status) ==> status_decodes(wire, status),
    {
        let endpoint_id = match wire.endpoint_id {
            Some(value) => value,
            None => {
                return Err(Invalid::field("endpoint_id", Violation::Absent));
            },
        };
        let provider = match wire.provider {
            Some(value) => value,
            None => {
                return Err(Invalid::field("provider", Violation::Absent));
            },
        };
        let request_class = match wire.request_class {
            Some(value) => value,
            None => {
                return Err(Invalid::field("request_class", Violation::Absent));
            },
        };
        let outcome = match wire.outcome {
            Some(value) => value,
            None => {
                return Err(Invalid::field("outcome", Violation::Absent));
            },
        };
        let outcome = match Outcome::try_from(outcome) {
            Ok(outcome) => outcome,
            Err(violation) => {
                return Err(Invalid::field("outcome", violation));
            },
        };
        let failure_class = match wire.failure_class {
            Some(number) => match FailureClass::try_from(number) {
                Ok(class) => Some(class),
                Err(violation) => {
                    return Err(Invalid::field("failure_class", violation));
                },
            },
            None => None,
        };
        let started_at = match wire.started_at {
            Some(value) => value,
            None => {
                return Err(Invalid::field("started_at", Violation::Absent));
            },
        };
        let started_at = match Timestamp::try_from(started_at) {
            Ok(started_at) => started_at,
            Err(error) => {
                return Err(error.at("started_at"));
            },
        };
        AcquisitionStatus::checked(
            endpoint_id,
            provider,
            request_class,
            outcome,
            failure_class,
            wire.retryable,
            started_at,
            wire.duration_nanos,
            wire.detail,
        )
    }
}

impl vstd::std_specs::convert::TryFromSpecImpl<wire::AcquisitionStatus> for AcquisitionStatus {
    open spec fn obeys_try_from_spec() -> bool {
        false
    }

    open spec fn try_from_spec(wire: wire::AcquisitionStatus) -> Result<AcquisitionStatus, Invalid> {
        arbitrary()
    }
}

impl From<AcquisitionStatus> for wire::AcquisitionStatus {
    fn from(value: AcquisitionStatus) -> (wire: wire::AcquisitionStatus)
        ensures
            optional_text(wire.endpoint_id) == Some(value.parts().endpoint_id),
            optional_text(wire.provider) == Some(value.parts().provider),
            optional_text(wire.request_class) == Some(value.parts().request_class),
            wire.outcome == Some(outcome_of_number(value.parts().outcome)),
            wire.failure_class == match value.parts().failure_class {
                Some(class) => Some(failure_class_of_number(class)),
                None => None,
            },
            wire.retryable == value.parts().retryable,
            wire.started_at == Some(
                wire::Timestamp { seconds: Some(value.parts().started_at.secs()), nanos: Some(value.parts().started_at.subsec()) },
            ),
            wire.duration_nanos == value.parts().duration_nanos,
            optional_text(wire.detail) == value.parts().detail,
    {
        let failure_class = match value.failure_class {
            Some(class) => Some(i32::from(class)),
            None => None,
        };
        wire::AcquisitionStatus {
            endpoint_id: Some(value.endpoint_id),
            provider: Some(value.provider),
            request_class: Some(value.request_class),
            outcome: Some(i32::from(value.outcome)),
            failure_class,
            retryable: value.retryable,
            started_at: Some(wire::Timestamp::from(value.started_at)),
            duration_nanos: value.duration_nanos,
            detail: value.detail,
        }
    }
}

impl vstd::std_specs::convert::FromSpecImpl<AcquisitionStatus> for wire::AcquisitionStatus {
    open spec fn obeys_from_spec() -> bool {
        false
    }

    open spec fn from_spec(value: AcquisitionStatus) -> wire::AcquisitionStatus {
        arbitrary()
    }
}

} // verus!
