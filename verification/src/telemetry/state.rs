//! Typed state observations.

use vstd::prelude::*;

use crate::telemetry::attributes::{AttrValue, Attributes};
use crate::telemetry::context::Subject;
use crate::telemetry::name::Name;
use crate::telemetry::time::Timestamp;
use crate::telemetry::vocabulary::Instance;

verus! {

/// One typed state observation reported by a source.
#[derive(Clone, Debug, PartialEq, Eq, Hash)]
#[non_exhaustive]
pub struct StateObservation {
    pub name: Name,
    pub instance: Option<Instance>,
    pub subject: Option<Subject>,
    pub value: AttrValue,
    pub observed_at: Option<Timestamp>,
    pub attributes: Attributes,
}

impl StateObservation {
    pub fn new(name: Name, value: AttrValue) -> (made: StateObservation)
        ensures
            made.name == name,
            made.instance is None,
            made.subject is None,
            made.value == value,
            made.observed_at is None,
            made.attributes.entries().len() == 0,
    {
        StateObservation {
            name,
            instance: None,
            subject: None,
            value,
            observed_at: None,
            attributes: Attributes::empty(),
        }
    }

    pub fn with_instance(self, instance: Instance) -> (made: StateObservation)
        ensures
            made == (StateObservation { instance: Some(instance), ..self }),
    {
        StateObservation { instance: Some(instance), ..self }
    }

    pub fn with_subject(self, subject: Subject) -> (made: StateObservation)
        ensures
            made == (StateObservation { subject: Some(subject), ..self }),
    {
        StateObservation { subject: Some(subject), ..self }
    }

    pub fn with_observed_at(self, observed_at: Timestamp) -> (made: StateObservation)
        ensures
            made == (StateObservation { observed_at: Some(observed_at), ..self }),
    {
        StateObservation { observed_at: Some(observed_at), ..self }
    }

    pub fn with_attributes(self, attributes: Attributes) -> (made: StateObservation)
        ensures
            made == (StateObservation { attributes, ..self }),
    {
        StateObservation { attributes, ..self }
    }
}

} // verus!
