//! Source log records.

use vstd::prelude::*;

use crate::telemetry::attributes::Attributes;
use crate::telemetry::context::Subject;
use crate::telemetry::name::Name;
use crate::telemetry::time::Timestamp;
use crate::telemetry::vocabulary::Severity;

verus! {

/// One source log record.
#[derive(Clone, Debug, PartialEq, Eq, Hash)]
#[non_exhaustive]
pub struct LogRecord {
    pub record_id: Option<Name>,
    pub subject: Option<Subject>,
    pub severity: Severity,
    pub message: String,
    pub observed_at: Option<Timestamp>,
    pub attributes: Attributes,
}

impl LogRecord {
    /// A record carrying only its severity and message.
    pub fn new(severity: Severity, message: String) -> (made: LogRecord)
        ensures
            made.record_id is None,
            made.subject is None,
            made.severity == severity,
            made.message == message,
            made.observed_at is None,
            made.attributes.entries().len() == 0,
    {
        LogRecord {
            record_id: None,
            subject: None,
            severity,
            message,
            observed_at: None,
            attributes: Attributes::empty(),
        }
    }

    pub fn with_record_id(self, record_id: Name) -> (made: LogRecord)
        ensures
            made == (LogRecord { record_id: Some(record_id), ..self }),
    {
        LogRecord { record_id: Some(record_id), ..self }
    }

    pub fn with_subject(self, subject: Subject) -> (made: LogRecord)
        ensures
            made == (LogRecord { subject: Some(subject), ..self }),
    {
        LogRecord { subject: Some(subject), ..self }
    }

    pub fn with_observed_at(self, observed_at: Timestamp) -> (made: LogRecord)
        ensures
            made == (LogRecord { observed_at: Some(observed_at), ..self }),
    {
        LogRecord { observed_at: Some(observed_at), ..self }
    }

    pub fn with_attributes(self, attributes: Attributes) -> (made: LogRecord)
        ensures
            made == (LogRecord { attributes, ..self }),
    {
        LogRecord { attributes, ..self }
    }
}

} // verus!
