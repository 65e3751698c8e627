//! Observation batches: one payload domain, checked against its coverage.

use std::sync::Arc;

use vstd::prelude::*;

use crate::telemetry::context::{Coverage, EndpointContext, ObservationScope, Origin, Subject, append_quoted_subject, quoted_subject};
use crate::text::append;
use crate::telemetry::inventory::InventoryItem;
use crate::telemetry::log::LogRecord;
use crate::telemetry::reading::Reading;
use crate::telemetry::resource::{Reachability, ResourceGraph, holds_subject, reached_from};
use crate::telemetry::state::StateObservation;
use crate::telemetry::time::ObservationWindow;

verus! {

/// A homogeneous observation payload.
///
/// Row order is part of the identity of readings, logs, states, and
/// inventory. The model does not assume those domains are unordered and does
/// not sort them.
#[derive(Debug, PartialEq, Eq, Hash)]
#[non_exhaustive]
pub enum Payload {
    Readings(Vec<Reading>),
    Logs(Vec<LogRecord>),
    States(Vec<StateObservation>),
    Inventory(Vec<InventoryItem>),
    Resources(ResourceGraph),
}

/// The subject each row names, if it names one; a graph has no rows.
pub open spec fn row_subjects(payload: Payload) -> Seq<Option<(Seq<char>, Seq<char>)>> {
    match payload {
        Payload::Readings(rows) => rows@.map_values(|row: Reading| Some(row.signal.subject@)),
        Payload::Logs(rows) => rows@.map_values(|row: LogRecord| match row.subject {
            Some(subject) => Some(subject@),
            None => None,
        }),
        Payload::States(rows) => rows@.map_values(|row: StateObservation| match row.subject {
            Some(subject) => Some(subject@),
            None => None,
        }),
        Payload::Inventory(rows) => rows@.map_values(|row: InventoryItem| Some(row.subject@)),
        Payload::Resources(_) => Seq::empty(),
    }
}

/// The row at `k` names a subject other than `expected`.
pub open spec fn strays(subjects: Seq<Option<(Seq<char>, Seq<char>)>>, k: int, expected: (Seq<char>, Seq<char>)) -> bool {
    match subjects[k] {
        Some(subject) => subject != expected,
        None => false,
    }
}

/// The number of entries: rows, or for a graph its resources and relations.
pub open spec fn payload_len(payload: Payload) -> int {
    match payload {
        Payload::Readings(rows) => rows.len() as int,
        Payload::Logs(rows) => rows.len() as int,
        Payload::States(rows) => rows.len() as int,
        Payload::Inventory(rows) => rows.len() as int,
        Payload::Resources(graph) => (graph.resource_list().len() + graph.relation_list().len()) as int,
    }
}

/// A rejected batch.
#[derive(Clone, Debug, PartialEq, Eq)]
#[non_exhaustive]
pub enum BatchError {
    SubjectOutsideScope { expected: Subject, actual: Subject },
    MissingScopeRoot(Subject),
    UnreachableFromScopeRoot { root: Subject, subject: Subject },
}

/// What a rejected batch says of itself.
pub open spec fn batch_error_text(error: BatchError) -> Seq<char> {
    match error {
        BatchError::SubjectOutsideScope { expected, actual } => "subject "@ + quoted_subject(actual@)
            + " is outside declared scope "@ + quoted_subject(expected@),
        BatchError::MissingScopeRoot(root) => "scope root "@ + quoted_subject(root@) + " is not present in the resource graph"@,
        BatchError::UnreachableFromScopeRoot { root, subject } => "resource "@ + quoted_subject(subject@)
            + " is not reachable from scope root "@ + quoted_subject(root@),
    }
}

impl BatchError {
    /// The human-readable description of the rejection.
    pub fn message(&self) -> (text: String)
        ensures
            text@ == batch_error_text(*self),
    {
        let mut text = String::new();
        match self {
            BatchError::SubjectOutsideScope { expected, actual } => {
                append(&mut text, "subject ");
                append_quoted_subject(&mut text, actual);
                append(&mut text, " is outside declared scope ");
                append_quoted_subject(&mut text, expected);
            },
            BatchError::MissingScopeRoot(root) => {
                append(&mut text, "scope root ");
                append_quoted_subject(&mut text, root);
                append(&mut text, " is not present in the resource graph");
            },
            BatchError::UnreachableFromScopeRoot { root, subject } => {
                append(&mut text, "resource ");
                append_quoted_subject(&mut text, subject);
                append(&mut text, " is not reachable from scope root ");
                append_quoted_subject(&mut text, root);
            },
        }
        proof {
            assert(text@ =~= batch_error_text(*self));
        }
        text
    }
}

/// What checking `payload` against the scope rooted at `expected` yields.
///
/// Rows must name `expected` when they name a subject; the first that does
/// not is reported. A non-empty graph must hold `expected` and reach every
/// resource from it; the first resource it does not reach is reported.
pub open spec fn scope_checked(payload: Payload, expected: (Seq<char>, Seq<char>), checked: Result<(), BatchError>) -> bool {
    match payload {
        Payload::Resources(graph) => {
            let rs = graph.resource_list();
            let ls = graph.relation_list();
            match checked {
                Ok(()) => rs.len() == 0 || (holds_subject(rs, expected) && forall|i: int|
                    0 <= i < rs.len() ==> #[trigger] reached_from(rs, ls, expected, i)),
                Err(BatchError::MissingScopeRoot(root)) => rs.len() > 0 && root@ == expected && !holds_subject(rs, expected),
                Err(BatchError::UnreachableFromScopeRoot { root, subject }) => {
                    &&& rs.len() > 0
                    &&& root@ == expected
                    &&& holds_subject(rs, expected)
                    &&& exists|u: int|
                        0 <= u < rs.len() && rs[u].subject@ == subject@ && !reached_from(rs, ls, expected, u) && forall|i: int|
                            0 <= i < u ==> #[trigger] reached_from(rs, ls, expected, i)
                },
                Err(BatchError::SubjectOutsideScope { .. }) => false,
            }
        },
        _ => {
            let subjects = row_subjects(payload);
            match checked {
                Ok(()) => forall|k: int| 0 <= k < subjects.len() ==> !#[trigger] strays(subjects, k, expected),
                Err(BatchError::SubjectOutsideScope { expected: named, actual }) => {
                    &&& named@ == expected
                    &&& exists|k: int|
                        0 <= k < subjects.len() && subjects[k] == Some(actual@) && actual@ != expected && forall|j: int|
                            0 <= j < k ==> !#[trigger] strays(subjects, j, expected)
                },
                Err(_) => false,
            }
        },
    }
}

impl Payload {
    pub fn len(&self) -> (count: usize)
        ensures
            count == payload_len(*self),
    {
        match self {
            Payload::Readings(rows) => rows.len(),
            Payload::Logs(rows) => rows.len(),
            Payload::States(rows) => rows.len(),
            Payload::Inventory(rows) => rows.len(),
            // A graph counts relations too: consumers use this for size
            // accounting and relations dominate a densely linked graph.
            Payload::Resources(graph) => graph.resource_count() + graph.relation_count(),
        }
    }

    pub fn is_empty(&self) -> (empty: bool)
        ensures
            empty == (payload_len(*self) == 0),
    {
        self.len() == 0
    }

    /// Checks every row that names a subject against the declared scope.
    ///
    /// A log or state without a subject is an endpoint-level observation and
    /// is admissible under any scope.
    fn check_within_scope(&self, expected: &Subject) -> (checked: Result<(), BatchError>)
        ensures
            scope_checked(*self, expected@, checked),
    {
        let ghost subjects = row_subjects(*self);
        let stray: Option<&Subject> = match self {
            Payload::Readings(rows) => {
                let mut found: Option<&Subject> = None;
                let mut k: usize = 0;
                while k < rows.len()
                    invariant_except_break
                        0 <= k <= rows.len(),
                        subjects == rows@.map_values(|row: Reading| Some(row.signal.subject@)),
                        forall|j: int| 0 <= j < k ==> !#[trigger] strays(subjects, j, expected@),
                        found is None,
                    ensures
                        0 <= k <= rows.len(),
                        forall|j: int| 0 <= j < k ==> !#[trigger] strays(subjects, j, expected@),
                        match found {
                            Some(actual) => k < rows.len() && subjects[k as int] == Some(actual@) && actual@ != expected@,
                            None => k == rows.len(),
                        },
                    decreases rows.len() - k,
                {
                    if !rows[k].signal.subject.same(expected) {
                        found = Some(&rows[k].signal.subject);
                        break;
                    }
                    k = k + 1;
                }
                found
            },
            Payload::Logs(rows) => {
                let mut found: Option<&Subject> = None;
                let mut k: usize = 0;
                while k < rows.len()
                    invariant_except_break
                        0 <= k <= rows.len(),
                        subjects == rows@.map_values(|row: LogRecord| match row.subject {
                            Some(subject) => Some(subject@),
                            None => None,
                        }),
                        forall|j: int| 0 <= j < k ==> !#[trigger] strays(subjects, j, expected@),
                        found is None,
                    ensures
                        0 <= k <= rows.len(),
                        forall|j: int| 0 <= j < k ==> !#[trigger] strays(subjects, j, expected@),
                        match found {
                            Some(actual) => k < rows.len() && subjects[k as int] == Some(actual@) && actual@ != expected@,
                            None => k == rows.len(),
                        },
                    decreases rows.len() - k,
                {
                    if let Some(subject) = &rows[k].subject {
                        if !subject.same(expected) {
                            found = Some(subject);
                            break;
                        }
                    }
                    k = k + 1;
                }
                found
            },
            Payload::States(rows) => {
                let mut found: Option<&Subject> = None;
                let mut k: usize = 0;
                while k < rows.len()
                    invariant_except_break
                        0 <= k <= rows.len(),
                        subjects == rows@.map_values(|row: StateObservation| match row.subject {
                            Some(subject) => Some(subject@),
                            None => None,
                        }),
                        forall|j: int| 0 <= j < k ==> !#[trigger] strays(subjects, j, expected@),
                        found is None,
                    ensures
                        0 <= k <= rows.len(),
                        forall|j: int| 0 <= j < k ==> !#[trigger] strays(subjects, j, expected@),
                        match found {
                            Some(actual) => k < rows.len() && subjects[k as int] == Some(actual@) && actual@ != expected@,
                            None => k == rows.len(),
                        },
                    decreases rows.len() - k,
                {
                    if let Some(subject) = &rows[k].subject {
                        if !subject.same(expected) {
                            found = Some(subject);
                            break;
                        }
                    }
                    k = k + 1;
                }
                found
            },
            Payload::Inventory(rows) => {
                let mut found: Option<&Subject> = None;
                let mut k: usize = 0;
                while k < rows.len()
                    invariant_except_break
                        0 <= k <= rows.len(),
                        subjects == rows@.map_values(|row: InventoryItem| Some(row.subject@)),
                        forall|j: int| 0 <= j < k ==> !#[trigger] strays(subjects, j, expected@),
                        found is None,
                    ensures
                        0 <= k <= rows.len(),
                        forall|j: int| 0 <= j < k ==> !#[trigger] strays(subjects, j, expected@),
                        match found {
                            Some(actual) => k < rows.len() && subjects[k as int] == Some(actual@) && actual@ != expected@,
                            None => k == rows.len(),
                        },
                    decreases rows.len() - k,
                {
                    if !rows[k].subject.same(expected) {
                        found = Some(&rows[k].subject);
                        break;
                    }
                    k = k + 1;
                }
                found
            },
            Payload::Resources(graph) => {
                return check_graph_within_scope(graph, expected);
            },
        };
        match stray {
            Some(actual) => Err(BatchError::SubjectOutsideScope { expected: expected.clone(), actual: actual.clone() }),
            None => Ok(()),
        }
    }
}

/// Checks that a graph is exactly the subtree rooted at the scope subject.
///
/// Scope for a graph means reachability from the root rather than subject
/// equality, since the natural unit of partial graph collection is a subtree.
fn check_graph_within_scope(graph: &ResourceGraph, root: &Subject) -> (checked: Result<(), BatchError>)
    ensures
        scope_checked(Payload::Resources(*graph), root@, checked),
{
    // Observing nothing contradicts no scope, exactly as an empty row payload
    // does not.
    if graph.is_empty() {
        return Ok(());
    }
    match graph.reachability_from(root) {
        Reachability::MissingRoot => Err(BatchError::MissingScopeRoot(root.clone())),
        Reachability::Unreachable(subject) => Err(
            BatchError::UnreachableFromScopeRoot { root: root.clone(), subject: subject.clone() },
        ),
        Reachability::FullyReachable => Ok(()),
    }
}

/// Canonical immutable unit of telemetry flow.
#[derive(Debug, PartialEq, Eq, Hash)]
pub struct ObservationBatch {
    pub endpoint: Arc<EndpointContext>,
    pub origin: Origin,
    pub window: ObservationWindow,
    // Private because `new` validates these two against each other.
    coverage: Coverage,
    payload: Payload,
}

/// Shared immutable batch used for fan-out.
pub type SharedBatch = Arc<ObservationBatch>;

impl ObservationBatch {
    /// The endpoint observed.
    pub closed spec fn endpoint_of(self) -> Arc<EndpointContext> {
        self.endpoint
    }

    /// Who acquired the batch, and how.
    pub closed spec fn origin_of(self) -> Origin {
        self.origin
    }

    /// When the batch was observed.
    pub closed spec fn window_of(self) -> ObservationWindow {
        self.window
    }

    /// The declared coverage.
    pub closed spec fn coverage_of(self) -> Coverage {
        self.coverage
    }

    /// The payload.
    pub closed spec fn payload_of(self) -> Payload {
        self.payload
    }

    /// Assembles a batch and checks the payload against the declared coverage.
    ///
    /// Returns [`BatchError::SubjectOutsideScope`] if an observation names a
    /// subject the declared coverage does not cover. For a resource graph
    /// under a subject scope, returns [`BatchError::MissingScopeRoot`] or
    /// [`BatchError::UnreachableFromScopeRoot`] if the graph is not a subtree
    /// hanging off that root. An endpoint scope admits every payload.
    pub fn new(
        endpoint: Arc<EndpointContext>,
        origin: Origin,
        window: ObservationWindow,
        coverage: Coverage,
        payload: Payload,
    ) -> (made: Result<ObservationBatch, BatchError>)
        ensures
            match coverage.scope {
                ObservationScope::Endpoint => made is Ok,
                ObservationScope::Subject(expected) => scope_checked(
                    payload,
                    expected@,
                    match made {
                        Ok(_) => Ok(()),
                        Err(error) => Err(error),
                    },
                ),
            },
            match made {
                Ok(batch) => {
                    &&& batch.endpoint_of() == endpoint
                    &&& batch.origin_of() == origin
                    &&& batch.window_of() == window
                    &&& batch.coverage_of() == coverage
                    &&& batch.payload_of() == payload
                },
                Err(_) => true,
            },
    {
        if let ObservationScope::Subject(expected) = &coverage.scope {
            match payload.check_within_scope(expected) {
                Ok(()) => {},
                Err(error) => {
                    return Err(error);
                },
            }
        }
        Ok(ObservationBatch { endpoint, origin, window, coverage, payload })
    }

    pub fn coverage(&self) -> (coverage: &Coverage)
        ensures
            *coverage == self.coverage_of(),
    {
        &self.coverage
    }

    pub fn payload(&self) -> (payload: &Payload)
        ensures
            *payload == self.payload_of(),
    {
        &self.payload
    }
}

} // verus!
