//! Who was observed, from where, by what, and how completely.

use vstd::prelude::*;

use crate::order::{Order, key_lt, order_of_keys, order_of_bytes, text_bytes, lemma_key2, lemma_bytes_facts};
use crate::sort::{Keyed, lemma_key_order};
use crate::telemetry::attributes::Attributes;
use crate::telemetry::vocabulary::{EndpointId, Provider, RequestClass, SubjectId, SubjectKind};
use crate::text::append;

verus! {

/// Immutable endpoint identity and non-secret static attributes.
#[derive(Clone, Debug, PartialEq, Eq, Hash)]
#[non_exhaustive]
pub struct EndpointContext {
    pub id: EndpointId,
    pub attributes: Attributes,
}

impl EndpointContext {
    pub fn new(id: EndpointId, attributes: Attributes) -> (made: EndpointContext)
        ensures
            made.id@ == id@,
            made.attributes == attributes,
    {
        EndpointContext { id, attributes }
    }
}

/// Stable, protocol-neutral identity of a resource inside an endpoint.
///
/// Subjects order by kind, then id, each as `str` orders.
#[derive(Debug, PartialEq, Eq, Hash)]
#[non_exhaustive]
pub struct Subject {
    pub kind: SubjectKind,
    pub id: SubjectId,
}

impl View for Subject {
    type V = (Seq<char>, Seq<char>);

    open spec fn view(&self) -> (Seq<char>, Seq<char>) {
        (self.kind@, self.id@)
    }
}

/// The sort key of a subject's view.
pub open spec fn subject_key(subject: (Seq<char>, Seq<char>)) -> Seq<Seq<u8>> {
    seq![text_bytes(subject.0), text_bytes(subject.1)]
}

/// Equal subject keys mean equal subjects.
pub proof fn lemma_subject_key_injective(a: (Seq<char>, Seq<char>), b: (Seq<char>, Seq<char>))
    ensures
        (subject_key(a) == subject_key(b)) == (a == b),
{
    crate::order::lemma_text_bytes_injective(a.0, b.0);
    crate::order::lemma_text_bytes_injective(a.1, b.1);
    if subject_key(a) == subject_key(b) {
        assert(subject_key(a)[0] == subject_key(b)[0]);
        assert(subject_key(a)[1] == subject_key(b)[1]);
    }
}

/// A subject as messages quote it: its kind, a colon, its id, in single
/// quotes.
pub open spec fn quoted_subject(subject: (Seq<char>, Seq<char>)) -> Seq<char> {
    "'"@ + subject.0 + ":"@ + subject.1 + "'"@
}

/// Appends `subject` as messages quote it.
pub(crate) fn append_quoted_subject(text: &mut String, subject: &Subject)
    ensures
        final(text)@ == old(text)@ + quoted_subject(subject@),
{
    append(text, "'");
    append(text, subject.kind.as_str());
    append(text, ":");
    append(text, subject.id.as_str());
    append(text, "'");
    proof {
        assert(final(text)@ =~= old(text)@ + quoted_subject(subject@));
    }
}

impl Subject {
    pub fn new(kind: SubjectKind, id: SubjectId) -> (made: Subject)
        ensures
            made@ == (kind@, id@),
    {
        Subject { kind, id }
    }

    /// Whether two subjects name the same thing.
    pub fn same(&self, other: &Subject) -> (same: bool)
        ensures
            same == (self@ == other@),
    {
        self.kind.same(&other.kind) && self.id.same(&other.id)
    }

    /// Orders by kind, then id.
    pub fn compare(&self, other: &Subject) -> (order: Order)
        ensures
            order == order_of_keys(subject_key(self@), subject_key(other@)),
            (order == Order::Equal) == (self@ == other@),
    {
        proof {
            lemma_key2(text_bytes(self.kind@), text_bytes(self.id@), text_bytes(other.kind@), text_bytes(other.id@));
            lemma_key2(text_bytes(other.kind@), text_bytes(other.id@), text_bytes(self.kind@), text_bytes(self.id@));
            lemma_bytes_facts(text_bytes(self.kind@), text_bytes(other.kind@), text_bytes(other.kind@));
            lemma_bytes_facts(text_bytes(other.kind@), text_bytes(self.kind@), text_bytes(self.kind@));
            lemma_bytes_facts(text_bytes(self.id@), text_bytes(other.id@), text_bytes(other.id@));
            lemma_bytes_facts(text_bytes(other.id@), text_bytes(self.id@), text_bytes(self.id@));
            lemma_subject_key_injective(self@, other@);
            lemma_key_order(subject_key(self@), subject_key(other@));
            crate::order::lemma_text_bytes_injective(self.kind@, other.kind@);
        }
        let first = self.kind.compare(&other.kind);
        match first {
            Order::Equal => self.id.compare(&other.id),
            _ => first,
        }
    }
}

impl Keyed for Subject {
    open spec fn key(&self) -> Seq<Seq<u8>> {
        subject_key(self@)
    }

    fn compare_key(&self, other: &Subject) -> (order: Order) {
        self.compare(other)
    }
}

impl Clone for Subject {
    fn clone(&self) -> (copy: Subject)
        ensures
            copy == *self,
    {
        Subject { kind: self.kind.clone(), id: self.id.clone() }
    }
}

/// The resource set for which completeness is asserted.
#[derive(Clone, Debug, PartialEq, Eq, Hash)]
pub enum ObservationScope {
    Endpoint,
    Subject(Subject),
}

/// Whether all observations in a declared scope were obtained.
#[derive(Clone, Copy, Debug, PartialEq, Eq, Structural, Hash)]
pub enum Completeness {
    Complete,
    Partial {
        /// Number known to have been omitted, when the source can determine it.
        omitted: Option<u64>,
    },
}

impl Completeness {
    pub fn partial(omitted: Option<u64>) -> (made: Completeness)
        ensures
            made == (Completeness::Partial { omitted }),
    {
        Completeness::Partial { omitted }
    }

    pub fn is_complete(self) -> (complete: bool)
        ensures
            complete == (self is Complete),
    {
        match self {
            Completeness::Complete => true,
            Completeness::Partial { .. } => false,
        }
    }
}

/// Scope-relative completeness of an observation batch.
#[derive(Clone, Debug, PartialEq, Eq, Hash)]
#[non_exhaustive]
pub struct Coverage {
    pub scope: ObservationScope,
    pub completeness: Completeness,
}

impl Coverage {
    pub fn new(scope: ObservationScope, completeness: Completeness) -> (made: Coverage)
        ensures
            made.scope == scope,
            made.completeness == completeness,
    {
        Coverage { scope, completeness }
    }

    pub fn complete_endpoint() -> (made: Coverage)
        ensures
            made.scope is Endpoint,
            made.completeness is Complete,
    {
        Coverage::new(ObservationScope::Endpoint, Completeness::Complete)
    }

    pub fn complete_subject(subject: Subject) -> (made: Coverage)
        ensures
            made.scope == ObservationScope::Subject(subject),
            made.completeness is Complete,
    {
        Coverage::new(ObservationScope::Subject(subject), Completeness::Complete)
    }
}

/// Provenance of an acquisition.
#[derive(Clone, Debug, PartialEq, Eq, Hash)]
#[non_exhaustive]
pub struct Origin {
    pub provider: Provider,
    pub request_class: RequestClass,
}

impl Origin {
    pub fn new(provider: Provider, request_class: RequestClass) -> (made: Origin)
        ensures
            made.provider == provider,
            made.request_class == request_class,
    {
        Origin { provider, request_class }
    }
}

} // verus!
