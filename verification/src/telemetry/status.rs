//! Operational status of acquisition attempts, kept apart from observations.

use std::sync::Arc;

use vstd::prelude::*;

use crate::telemetry::context::{EndpointContext, Origin};
use crate::telemetry::time::ObservationWindow;

verus! {

/// Stable, source-neutral classification of an acquisition failure.
#[derive(Clone, Copy, Debug, PartialEq, Eq, Structural, Hash)]
#[non_exhaustive]
pub enum FailureClass {
    Transport,
    Timeout,
    Authentication,
    Authorization,
    RateLimited,
    Unsupported,
    InvalidResponse,
    Cancelled,
    Other,
}

/// Whether attempting the same acquisition again could answer differently.
///
/// Named rather than a bare `bool` so a call site states which it means. The
/// wire form stays a boolean.
#[derive(Clone, Copy, Debug, PartialEq, Eq, Structural, Hash)]
pub enum Retryable {
    Yes,
    No,
}

/// The flag a boolean stands for.
pub open spec fn retryable_of(value: bool) -> Retryable {
    if value {
        Retryable::Yes
    } else {
        Retryable::No
    }
}

impl From<bool> for Retryable {
    fn from(value: bool) -> (made: Retryable)
        ensures
            made == retryable_of(value),
    {
        if value {
            Retryable::Yes
        } else {
            Retryable::No
        }
    }
}

impl vstd::std_specs::convert::FromSpecImpl<bool> for Retryable {
    open spec fn obeys_from_spec() -> bool {
        true
    }

    open spec fn from_spec(value: bool) -> Retryable {
        retryable_of(value)
    }
}

impl From<Retryable> for bool {
    fn from(value: Retryable) -> (flag: bool)
        ensures
            flag == (value is Yes),
    {
        match value {
            Retryable::Yes => true,
            Retryable::No => false,
        }
    }
}

impl vstd::std_specs::convert::FromSpecImpl<Retryable> for bool {
    open spec fn obeys_from_spec() -> bool {
        true
    }

    open spec fn from_spec(value: Retryable) -> bool {
        value is Yes
    }
}

/// Operational result of one acquisition attempt.
#[derive(Clone, Copy, Debug, PartialEq, Eq, Structural, Hash)]
#[non_exhaustive]
pub enum AcquisitionOutcome {
    Succeeded { emitted_batches: u32 },
    Failed { class: FailureClass, retryable: Retryable },
}

impl AcquisitionOutcome {
    pub fn succeeded(emitted_batches: u32) -> (made: AcquisitionOutcome)
        ensures
            made == (AcquisitionOutcome::Succeeded { emitted_batches }),
    {
        AcquisitionOutcome::Succeeded { emitted_batches }
    }

    pub fn failed(class: FailureClass, retryable: Retryable) -> (made: AcquisitionOutcome)
        ensures
            made == (AcquisitionOutcome::Failed { class, retryable }),
    {
        AcquisitionOutcome::Failed { class, retryable }
    }

    /// Returns whether repeating this acquisition could answer differently.
    ///
    /// A success has nothing to retry, so it reports [`Retryable::No`].
    pub fn retryable(self) -> (flag: Retryable)
        ensures
            flag == match self {
                AcquisitionOutcome::Succeeded { .. } => Retryable::No,
                AcquisitionOutcome::Failed { retryable, .. } => retryable,
            },
    {
        match self {
            AcquisitionOutcome::Succeeded { .. } => Retryable::No,
            AcquisitionOutcome::Failed { retryable, .. } => retryable,
        }
    }
}

/// Operational status emitted separately from device observations.
#[derive(Clone, Debug, PartialEq, Eq, Hash)]
#[non_exhaustive]
pub struct AcquisitionStatus {
    pub endpoint: Arc<EndpointContext>,
    pub origin: Origin,
    pub window: ObservationWindow,
    pub outcome: AcquisitionOutcome,
}

impl AcquisitionStatus {
    pub fn new(
        endpoint: Arc<EndpointContext>,
        origin: Origin,
        window: ObservationWindow,
        outcome: AcquisitionOutcome,
    ) -> (made: AcquisitionStatus)
        ensures
            made.endpoint == endpoint,
            made.origin == origin,
            made.window == window,
            made.outcome == outcome,
    {
        AcquisitionStatus { endpoint, origin, window, outcome }
    }
}

} // verus!
