//! Observed resources and the typed relations between them.

use vstd::prelude::*;

use crate::order::{Order, key_lt, order_of_keys, order_of_bytes, single_key, text_bytes, lemma_key_concat, lemma_keys_facts, lemma_single_key};
use crate::sort::{
    Keyed, lemma_key_order, sorted_by_key, strictly_sorted_by_key, has_repeated_key, least_repeated_key, sort_by_key,
    first_adjacent_duplicate, lemma_repeats_preserved, lemma_find_in_permutation, lemma_strictly_sorted_unique, lemma_two_in_permutation,
};
use crate::telemetry::context::{Subject, append_quoted_subject, quoted_subject, subject_key};
use crate::text::{append, append_decimal, decimal};
use crate::telemetry::name::Name;
use crate::telemetry::property::PropertyMap;
use crate::telemetry::time::Timestamp;
use crate::telemetry::vocabulary::{RelationKind, SourceKey};

verus! {

broadcast use vstd::seq_lib::group_to_multiset_ensures;

/// Whether a resource's property map is the device's full representation.
///
/// In a complete resource, absence proves the device does not implement the
/// property. In a partial resource, absence proves nothing: it may never have
/// been requested.
#[derive(Clone, Copy, Debug, PartialEq, Eq, Structural, Hash)]
#[non_exhaustive]
pub enum ResourceCompleteness {
    /// The full representation was observed; absence is meaningful.
    Complete,
    /// A subset was observed; absence carries no information.
    Partial,
}

impl ResourceCompleteness {
    /// Returns whether a missing property establishes that it is absent.
    pub fn establishes_absence(self) -> (absent: bool)
        ensures
            absent == (self is Complete),
    {
        match self {
            ResourceCompleteness::Complete => true,
            ResourceCompleteness::Partial => false,
        }
    }
}

/// One protocol-neutral resource observed on an endpoint.
///
/// A resource corresponds to exactly one source location, identified by
/// `source_key`. Data from elsewhere belongs in its own resource joined by a
/// relation.
#[derive(Debug, PartialEq, Eq, Hash)]
#[non_exhaustive]
pub struct ObservedResource {
    pub subject: Subject,
    /// The single source location this resource was read from.
    pub source_key: SourceKey,
    pub completeness: ResourceCompleteness,
    pub schema: Option<Name>,
    pub version: Option<Name>,
    pub observed_at: Option<Timestamp>,
    pub properties: PropertyMap,
}

impl ObservedResource {
    /// Records a resource whose full representation was observed.
    pub fn complete(subject: Subject, source_key: SourceKey, properties: PropertyMap) -> (made: ObservedResource)
        ensures
            made == ObservedResource::spec_new(subject, source_key, ResourceCompleteness::Complete, properties),
    {
        ObservedResource::new(subject, source_key, ResourceCompleteness::Complete, properties)
    }

    /// Records a resource whose properties are a subset of the representation.
    pub fn partial(subject: Subject, source_key: SourceKey, properties: PropertyMap) -> (made: ObservedResource)
        ensures
            made == ObservedResource::spec_new(subject, source_key, ResourceCompleteness::Partial, properties),
    {
        ObservedResource::new(subject, source_key, ResourceCompleteness::Partial, properties)
    }

    /// A resource with no schema, version or per-resource time.
    pub open spec fn spec_new(
        subject: Subject,
        source_key: SourceKey,
        completeness: ResourceCompleteness,
        properties: PropertyMap,
    ) -> ObservedResource {
        ObservedResource {
            subject,
            source_key,
            completeness,
            schema: None,
            version: None,
            observed_at: None,
            properties,
        }
    }

    pub fn new(
        subject: Subject,
        source_key: SourceKey,
        completeness: ResourceCompleteness,
        properties: PropertyMap,
    ) -> (made: ObservedResource)
        ensures
            made == ObservedResource::spec_new(subject, source_key, completeness, properties),
    {
        ObservedResource {
            subject,
            source_key,
            completeness,
            schema: None,
            version: None,
            observed_at: None,
            properties,
        }
    }

    pub fn with_schema(self, schema: Name) -> (made: ObservedResource)
        ensures
            made == (ObservedResource { schema: Some(schema), ..self }),
    {
        ObservedResource { schema: Some(schema), ..self }
    }

    pub fn with_version(self, version: Name) -> (made: ObservedResource)
        ensures
            made == (ObservedResource { version: Some(version), ..self }),
    {
        ObservedResource { version: Some(version), ..self }
    }

    pub fn with_observed_at(self, observed_at: Timestamp) -> (made: ObservedResource)
        ensures
            made == (ObservedResource { observed_at: Some(observed_at), ..self }),
    {
        ObservedResource { observed_at: Some(observed_at), ..self }
    }
}

impl Keyed for ObservedResource {
    open spec fn key(&self) -> Seq<Seq<u8>> {
        subject_key(self.subject@)
    }

    fn compare_key(&self, other: &ObservedResource) -> (order: Order) {
        self.subject.compare(&other.subject)
    }
}

impl Keyed for SourceKey {
    open spec fn key(&self) -> Seq<Seq<u8>> {
        single_key(self@)
    }

    fn compare_key(&self, other: &SourceKey) -> (order: Order) {
        proof {
            lemma_single_key(self@, other@);
            lemma_single_key(other@, self@);
            lemma_key_order(self.key(), other.key());
        }
        self.compare(other)
    }
}

/// One directed, typed relationship in an observed resource graph.
///
/// Identity is `(source, kind, target)`. Properties describe an edge but do
/// not distinguish two of them, so a graph holding the same triple twice is
/// rejected however their properties differ.
///
/// Both ends are subjects, the canonical identity of a thing. The target need
/// not be in the graph, so a partial graph keeps its links into scopes that
/// were not collected.
#[derive(Debug, PartialEq, Eq, Hash)]
#[non_exhaustive]
pub struct ResourceRelation {
    pub source: Subject,
    pub kind: RelationKind,
    pub target: Subject,
    pub properties: PropertyMap,
}

/// The identity a relation sorts and deduplicates by.
pub open spec fn relation_key(source: (Seq<char>, Seq<char>), kind: Seq<char>, target: (Seq<char>, Seq<char>)) -> Seq<Seq<u8>> {
    subject_key(source) + single_key(kind) + subject_key(target)
}

impl ResourceRelation {
    pub fn new(source: Subject, kind: RelationKind, target: Subject) -> (made: ResourceRelation)
        ensures
            made.source == source,
            made.kind == kind,
            made.target == target,
            made.properties.entries().len() == 0,
    {
        ResourceRelation { source, kind, target, properties: PropertyMap::empty() }
    }

    pub fn with_properties(self, properties: PropertyMap) -> (made: ResourceRelation)
        ensures
            made == (ResourceRelation { properties, ..self }),
    {
        ResourceRelation { properties, ..self }
    }
}

impl Keyed for ResourceRelation {
    open spec fn key(&self) -> Seq<Seq<u8>> {
        relation_key(self.source@, self.kind@, self.target@)
    }

    fn compare_key(&self, other: &ResourceRelation) -> (order: Order) {
        let ghost a0 = subject_key(self.source@);
        let ghost a1 = single_key(self.kind@);
        let ghost a2 = subject_key(self.target@);
        let ghost b0 = subject_key(other.source@);
        let ghost b1 = single_key(other.kind@);
        let ghost b2 = subject_key(other.target@);
        proof {
            lemma_key_concat(a0, a1 + a2, b0, b1 + b2);
            lemma_key_concat(b0, b1 + b2, a0, a1 + a2);
            lemma_key_concat(a1, a2, b1, b2);
            lemma_key_concat(b1, b2, a1, a2);
            assert(a0 + a1 + a2 =~= a0 + (a1 + a2));
            assert(b0 + b1 + b2 =~= b0 + (b1 + b2));
            lemma_key_order(a0, b0);
            lemma_key_order(a1, b1);
            lemma_key_order(a2, b2);
            lemma_key_order(self.key(), other.key());
            lemma_single_key(self.kind@, other.kind@);
            lemma_single_key(other.kind@, self.kind@);
        }
        let by_source = self.source.compare(&other.source);
        match by_source {
            Order::Equal => {
                let by_kind = self.kind.compare(&other.kind);
                match by_kind {
                    Order::Equal => self.target.compare(&other.target),
                    _ => by_kind,
                }
            },
            _ => by_source,
        }
    }
}


/// The default, and the largest, number of resources a graph may hold.
pub const DEFAULT_MAX_RESOURCES: usize = 100_000usize;

/// The default, and the largest, number of relations a graph may hold.
pub const DEFAULT_MAX_RELATIONS: usize = 500_000usize;

/// Upper bounds applied when assembling a [`ResourceGraph`].
///
/// A malfunctioning or hostile endpoint can advertise an unbounded topology.
/// Limits only ever tighten the default: a bound above it is clamped rather
/// than honoured, so whatever the model accepts, it can also read back.
#[derive(Clone, Copy, Debug, PartialEq, Eq, Structural)]
#[non_exhaustive]
pub struct GraphLimits {
    max_resources: usize,
    max_relations: usize,
}

/// `bound`, pulled back to `ceiling` when it exceeds it.
pub open spec fn clamp(bound: usize, ceiling: usize) -> usize {
    if bound > ceiling {
        ceiling
    } else {
        bound
    }
}

impl GraphLimits {
    /// The resource bound as given.
    pub closed spec fn resource_bound(self) -> usize {
        self.max_resources
    }

    /// The relation bound as given.
    pub closed spec fn relation_bound(self) -> usize {
        self.max_relations
    }

    /// The resource bound in force: the one given, pulled back to the
    /// default where it exceeds it.
    pub fn max_resources(self) -> (bound: usize)
        ensures
            bound == clamp(self.resource_bound(), DEFAULT_MAX_RESOURCES),
    {
        self.clamped().max_resources
    }

    /// The relation bound in force: the one given, pulled back to the
    /// default where it exceeds it.
    pub fn max_relations(self) -> (bound: usize)
        ensures
            bound == clamp(self.relation_bound(), DEFAULT_MAX_RELATIONS),
    {
        self.clamped().max_relations
    }

    pub fn with_max_resources(self, max_resources: usize) -> (limits: GraphLimits)
        ensures
            limits.resource_bound() == max_resources,
            limits.relation_bound() == self.relation_bound(),
    {
        GraphLimits { max_resources, ..self }
    }

    pub fn with_max_relations(self, max_relations: usize) -> (limits: GraphLimits)
        ensures
            limits.resource_bound() == self.resource_bound(),
            limits.relation_bound() == max_relations,
    {
        GraphLimits { max_relations, ..self }
    }

    /// Checks input sizes against these limits, resources first.
    ///
    /// Called before anything has been sorted, so oversized input costs no
    /// more than counting it.
    fn check_sizes(self, resources: &[ObservedResource], relations: &[ResourceRelation]) -> (checked: Result<(), ResourceGraphError>)
        ensures
            match checked {
                Ok(()) => resources.len() <= self.resource_bound() && relations.len() <= self.relation_bound(),
                Err(ResourceGraphError::TooManyResources { count, limit }) => {
                    resources.len() > self.resource_bound() && count == resources.len() && limit == self.resource_bound()
                },
                Err(ResourceGraphError::TooManyRelations { count, limit }) => {
                    resources.len() <= self.resource_bound() && relations.len() > self.relation_bound()
                        && count == relations.len() && limit == self.relation_bound()
                },
                Err(_) => false,
            },
    {
        if resources.len() > self.max_resources {
            return Err(ResourceGraphError::TooManyResources { count: resources.len(), limit: self.max_resources });
        }
        if relations.len() > self.max_relations {
            return Err(ResourceGraphError::TooManyRelations { count: relations.len(), limit: self.max_relations });
        }
        Ok(())
    }

    /// Returns these limits with anything looser than the default pulled back.
    fn clamped(self) -> (limits: GraphLimits)
        ensures
            limits.resource_bound() == clamp(self.resource_bound(), DEFAULT_MAX_RESOURCES),
            limits.relation_bound() == clamp(self.relation_bound(), DEFAULT_MAX_RELATIONS),
    {
        GraphLimits {
            max_resources: if self.max_resources > DEFAULT_MAX_RESOURCES {
                DEFAULT_MAX_RESOURCES
            } else {
                self.max_resources
            },
            max_relations: if self.max_relations > DEFAULT_MAX_RELATIONS {
                DEFAULT_MAX_RELATIONS
            } else {
                self.max_relations
            },
        }
    }
}

impl Default for GraphLimits {
    /// Generous bounds intended to catch runaway input, not to size a budget.
    fn default() -> (limits: GraphLimits)
        ensures
            limits.resource_bound() == DEFAULT_MAX_RESOURCES,
            limits.relation_bound() == DEFAULT_MAX_RELATIONS,
    {
        GraphLimits { max_resources: DEFAULT_MAX_RESOURCES, max_relations: DEFAULT_MAX_RELATIONS }
    }
}

/// A rejected resource graph.
#[derive(Clone, Debug, PartialEq, Eq)]
#[non_exhaustive]
pub enum ResourceGraphError {
    DuplicateResource(Subject),
    DuplicateSourceKey(SourceKey),
    DuplicateRelation { source: Subject, kind: RelationKind, target: Subject },
    UnknownRelationSource(Subject),
    TooManyResources { count: usize, limit: usize },
    TooManyRelations { count: usize, limit: usize },
}

/// What a rejected graph says of itself.
pub open spec fn graph_error_text(error: ResourceGraphError) -> Seq<char> {
    match error {
        ResourceGraphError::DuplicateResource(subject) => "duplicate resource "@ + quoted_subject(subject@),
        ResourceGraphError::DuplicateSourceKey(key) => "source '"@ + key@ + "' is observed by more than one resource"@,
        ResourceGraphError::DuplicateRelation { source, kind, target } => "duplicate relation "@ + quoted_subject(source@)
            + " -["@ + kind@ + "]-> "@ + quoted_subject(target@),
        ResourceGraphError::UnknownRelationSource(subject) => "relation source "@ + quoted_subject(subject@)
            + " is not present in the resource graph"@,
        ResourceGraphError::TooManyResources { count, limit } => "graph has "@ + decimal(count as nat)
            + " resources, exceeding the limit of "@ + decimal(limit as nat),
        ResourceGraphError::TooManyRelations { count, limit } => "graph has "@ + decimal(count as nat)
            + " relations, exceeding the limit of "@ + decimal(limit as nat),
    }
}

impl ResourceGraphError {
    /// The human-readable description of the rejection.
    pub fn message(&self) -> (text: String)
        ensures
            text@ == graph_error_text(*self),
    {
        let mut text = String::new();
        match self {
            ResourceGraphError::DuplicateResource(subject) => {
                append(&mut text, "duplicate resource ");
                append_quoted_subject(&mut text, subject);
            },
            ResourceGraphError::DuplicateSourceKey(key) => {
                append(&mut text, "source '");
                append(&mut text, key.as_str());
                append(&mut text, "' is observed by more than one resource");
            },
            ResourceGraphError::DuplicateRelation { source, kind, target } => {
                append(&mut text, "duplicate relation ");
                append_quoted_subject(&mut text, source);
                append(&mut text, " -[");
                append(&mut text, kind.as_str());
                append(&mut text, "]-> ");
                append_quoted_subject(&mut text, target);
            },
            ResourceGraphError::UnknownRelationSource(subject) => {
                append(&mut text, "relation source ");
                append_quoted_subject(&mut text, subject);
                append(&mut text, " is not present in the resource graph");
            },
            ResourceGraphError::TooManyResources { count, limit } => {
                append(&mut text, "graph has ");
                append_decimal(&mut text, *count as u64);
                append(&mut text, " resources, exceeding the limit of ");
                append_decimal(&mut text, *limit as u64);
            },
            ResourceGraphError::TooManyRelations { count, limit } => {
                append(&mut text, "graph has ");
                append_decimal(&mut text, *count as u64);
                append(&mut text, " relations, exceeding the limit of ");
                append_decimal(&mut text, *limit as u64);
            },
        }
        proof {
            assert(text@ =~= graph_error_text(*self));
        }
        text
    }
}

/// Some resource has subject `subject`.
pub open spec fn holds_subject(resources: Seq<ObservedResource>, subject: (Seq<char>, Seq<char>)) -> bool {
    exists|i: int| 0 <= i < resources.len() && #[trigger] resources[i].subject@ == subject
}

/// Every relation leaves a subject the resources hold.
pub open spec fn sources_held(resources: Seq<ObservedResource>, relations: Seq<ResourceRelation>) -> bool {
    forall|r: int| 0 <= r < relations.len() ==> holds_subject(resources, #[trigger] relations[r].source@)
}

/// The source keys of resources, in their order.
pub open spec fn source_keys(resources: Seq<ObservedResource>) -> Seq<SourceKey> {
    resources.map_values(|resource: ObservedResource| resource.source_key)
}

/// `subject` is the least relation source that no resource holds.
pub open spec fn least_unknown_source(
    resources: Seq<ObservedResource>,
    relations: Seq<ResourceRelation>,
    subject: (Seq<char>, Seq<char>),
) -> bool {
    &&& exists|r: int| 0 <= r < relations.len() && #[trigger] relations[r].source@ == subject
    &&& !holds_subject(resources, subject)
    &&& forall|r: int|
        0 <= r < relations.len() && !holds_subject(resources, #[trigger] relations[r].source@) ==> !key_lt(
            subject_key(relations[r].source@),
            subject_key(subject),
        )
}

/// What a valid graph's lists satisfy: resources sorted by subject with no
/// subject or source key twice, relations sorted by identity with none twice,
/// every relation leaving a held subject, and both within the default bounds.
pub open spec fn graph_shape(resources: Seq<ObservedResource>, relations: Seq<ResourceRelation>) -> bool {
    &&& strictly_sorted_by_key(resources)
    &&& !has_repeated_key(source_keys(resources))
    &&& strictly_sorted_by_key(relations)
    &&& sources_held(resources, relations)
    &&& resources.len() <= DEFAULT_MAX_RESOURCES
    &&& relations.len() <= DEFAULT_MAX_RELATIONS
}

/// Finds the resource with `subject` in a subject-sorted list, by binary
/// search.
fn find_subject(resources: &[ObservedResource], subject: &Subject) -> (found: Option<usize>)
    requires
        strictly_sorted_by_key(resources@),
    ensures
        match found {
            Some(i) => i < resources.len() && resources@[i as int].subject@ == subject@,
            None => !holds_subject(resources@, subject@),
        },
{
    let mut lo: usize = 0;
    let mut hi: usize = resources.len();
    while lo < hi
        invariant
            0 <= lo <= hi <= resources.len(),
            strictly_sorted_by_key(resources@),
            forall|i: int| 0 <= i < lo ==> key_lt(#[trigger] resources@[i].key(), subject_key(subject@)),
            forall|i: int| hi <= i < resources.len() ==> key_lt(subject_key(subject@), #[trigger] resources@[i].key()),
        decreases hi - lo,
    {
        let mid = lo + (hi - lo) / 2;
        let order = resources[mid].subject.compare(subject);
        proof {
            lemma_key_order(resources@[mid as int].key(), subject_key(subject@));
        }
        match order {
            Order::Equal => {
                return Some(mid);
            },
            Order::Less => {
                proof {
                    assert forall|i: int| 0 <= i <= mid implies key_lt(#[trigger] resources@[i].key(), subject_key(subject@)) by {
                        if i < mid {
                            lemma_keys_facts(resources@[i].key(), resources@[mid as int].key(), subject_key(subject@));
                        }
                    }
                }
                lo = mid + 1;
            },
            Order::Greater => {
                proof {
                    assert forall|i: int| mid <= i < resources.len() implies key_lt(subject_key(subject@), #[trigger] resources@[i].key()) by {
                        if i > mid {
                            lemma_keys_facts(subject_key(subject@), resources@[mid as int].key(), resources@[i].key());
                        }
                    }
                }
                hi = mid;
            },
        }
    }
    proof {
        if holds_subject(resources@, subject@) {
            let i = choose|i: int| 0 <= i < resources@.len() && #[trigger] resources@[i].subject@ == subject@;
            lemma_keys_facts(subject_key(subject@), subject_key(subject@), subject_key(subject@));
            assert(resources@[i].key() == subject_key(subject@));
        }
    }
    None
}


/// In relations sorted by identity, sources come in subject order.
proof fn lemma_sources_ordered(relations: Seq<ResourceRelation>, i: int, j: int)
    requires
        sorted_by_key(relations),
        0 <= i < j < relations.len(),
    ensures
        !key_lt(subject_key(relations[j].source@), subject_key(relations[i].source@)),
{
    let a = relations[i];
    let b = relations[j];
    assert(!key_lt(b.key(), a.key()));
    assert(b.key() =~= subject_key(b.source@) + (single_key(b.kind@) + subject_key(b.target@)));
    assert(a.key() =~= subject_key(a.source@) + (single_key(a.kind@) + subject_key(a.target@)));
    lemma_key_concat(
        subject_key(b.source@),
        single_key(b.kind@) + subject_key(b.target@),
        subject_key(a.source@),
        single_key(a.kind@) + subject_key(a.target@),
    );
}

/// Finds the first relation, in order, that leaves a subject the resources do
/// not hold.
fn first_unknown_source(resources: &[ObservedResource], relations: &[ResourceRelation]) -> (found: Option<usize>)
    requires
        strictly_sorted_by_key(resources@),
    ensures
        match found {
            Some(i) => {
                &&& i < relations.len()
                &&& !holds_subject(resources@, relations@[i as int].source@)
                &&& forall|j: int| 0 <= j < i ==> holds_subject(resources@, #[trigger] relations@[j].source@)
            },
            None => sources_held(resources@, relations@),
        },
{
    let mut i: usize = 0;
    while i < relations.len()
        invariant
            0 <= i <= relations.len(),
            strictly_sorted_by_key(resources@),
            forall|j: int| 0 <= j < i ==> holds_subject(resources@, #[trigger] relations@[j].source@),
        decreases relations.len() - i,
    {
        match find_subject(resources, &relations[i].source) {
            Some(_) => {},
            None => {
                return Some(i);
            },
        }
        i = i + 1;
    }
    None
}


/// The source keys of `resources`, in their order.
fn source_keys_of(resources: &Vec<ObservedResource>) -> (keys: Vec<SourceKey>)
    ensures
        keys@ == source_keys(resources@),
{
    let mut keys: Vec<SourceKey> = Vec::new();
    let mut i: usize = 0;
    while i < resources.len()
        invariant
            0 <= i <= resources.len(),
            keys@ == source_keys(resources@).subrange(0, i as int),
        decreases resources.len() - i,
    {
        keys.push(resources[i].source_key.clone());
        i = i + 1;
        proof {
            assert(keys@ =~= source_keys(resources@).subrange(0, i as int));
        }
    }
    proof {
        assert(source_keys(resources@).subrange(0, i as int) =~= source_keys(resources@));
    }
    keys
}

/// Immutable snapshot of observed resources and their relationships.
///
/// Resources are sorted by subject and relations by `(source, kind, target)`,
/// so two graphs with the same content are equal regardless of discovery
/// order.
///
/// Relation sources must be present in the graph. Targets may be external, so
/// that a partial graph keeps its links into scopes that were not collected.
#[derive(Debug, PartialEq, Eq, Hash)]
pub struct ResourceGraph {
    resources: Vec<ObservedResource>,
    relations: Vec<ResourceRelation>,
}

/// What assembling a graph from `resources` and `relations` under the given
/// bounds yields: each check in turn, sizes first, then repeated subjects,
/// repeated source keys, repeated relations and unknown relation sources,
/// each error naming the least offender.
pub open spec fn assembled(
    resources: Seq<ObservedResource>,
    relations: Seq<ResourceRelation>,
    max_resources: usize,
    max_relations: usize,
    made: Result<ResourceGraph, ResourceGraphError>,
) -> bool {
    let sized = resources.len() <= max_resources && relations.len() <= max_relations;
    match made {
        Ok(graph) => {
            &&& sized
            &&& !has_repeated_key(resources)
            &&& !has_repeated_key(source_keys(resources))
            &&& !has_repeated_key(relations)
            &&& sources_held(resources, relations)
            &&& graph.resource_list().to_multiset() == resources.to_multiset()
            &&& graph.relation_list().to_multiset() == relations.to_multiset()
            &&& graph_shape(graph.resource_list(), graph.relation_list())
        },
        Err(ResourceGraphError::TooManyResources { count, limit }) => {
            resources.len() > max_resources && count == resources.len() && limit == max_resources
        },
        Err(ResourceGraphError::TooManyRelations { count, limit }) => {
            &&& resources.len() <= max_resources
            &&& relations.len() > max_relations
            &&& count == relations.len()
            &&& limit == max_relations
        },
        Err(ResourceGraphError::DuplicateResource(subject)) => {
            sized && least_repeated_key(resources, subject_key(subject@))
        },
        Err(ResourceGraphError::DuplicateSourceKey(key)) => {
            &&& sized
            &&& !has_repeated_key(resources)
            &&& least_repeated_key(source_keys(resources), single_key(key@))
        },
        Err(ResourceGraphError::DuplicateRelation { source, kind, target }) => {
            &&& sized
            &&& !has_repeated_key(resources)
            &&& !has_repeated_key(source_keys(resources))
            &&& least_repeated_key(relations, relation_key(source@, kind@, target@))
        },
        Err(ResourceGraphError::UnknownRelationSource(subject)) => {
            &&& sized
            &&& !has_repeated_key(resources)
            &&& !has_repeated_key(source_keys(resources))
            &&& !has_repeated_key(relations)
            &&& least_unknown_source(resources, relations, subject@)
        },
    }
}

/// Whether some resource holds `subject` does not depend on their order.
proof fn lemma_holds_subject_permuted(a: Seq<ObservedResource>, b: Seq<ObservedResource>, subject: (Seq<char>, Seq<char>))
    requires
        a.to_multiset() =~= b.to_multiset(),
    ensures
        holds_subject(a, subject) == holds_subject(b, subject),
{
    if holds_subject(a, subject) {
        let i = choose|i: int| 0 <= i < a.len() && #[trigger] a[i].subject@ == subject;
        let j = lemma_find_in_permutation(a, b, i);
        assert(b[j].subject@ == subject);
    }
    if holds_subject(b, subject) {
        let i = choose|i: int| 0 <= i < b.len() && #[trigger] b[i].subject@ == subject;
        let j = lemma_find_in_permutation(b, a, i);
        assert(a[j].subject@ == subject);
    }
}

/// Some relation leads from the resource at `from` to the resource at `to`.
pub open spec fn linked(resources: Seq<ObservedResource>, relations: Seq<ResourceRelation>, from: int, to: int) -> bool {
    exists|r: int|
        0 <= r < relations.len() && #[trigger] relations[r].source@ == resources[from].subject@ && relations[r].target@
            == resources[to].subject@
}

/// The resource at `to` is reached from the resource at `from` by following
/// at most `steps` relations from source to target.
pub open spec fn reaches_within(
    resources: Seq<ObservedResource>,
    relations: Seq<ResourceRelation>,
    from: int,
    to: int,
    steps: nat,
) -> bool
    decreases steps,
{
    if steps == 0 {
        from == to
    } else {
        reaches_within(resources, relations, from, to, (steps - 1) as nat) || exists|mid: int|
            0 <= mid < resources.len() && reaches_within(resources, relations, from, mid, (steps - 1) as nat)
                && #[trigger] linked(resources, relations, mid, to)
    }
}

/// The resource at `to` is reached from the resource at `from`.
pub open spec fn reaches(resources: Seq<ObservedResource>, relations: Seq<ResourceRelation>, from: int, to: int) -> bool {
    exists|steps: nat| #[trigger] reaches_within(resources, relations, from, to, steps)
}

/// The resource at `to` is reached from the resource whose subject is `root`.
pub open spec fn reached_from(
    resources: Seq<ObservedResource>,
    relations: Seq<ResourceRelation>,
    root: (Seq<char>, Seq<char>),
    to: int,
) -> bool {
    exists|from: int| 0 <= from < resources.len() && #[trigger] resources[from].subject@ == root && reaches(resources, relations, from, to)
}

/// How many flags are set.
pub(crate) open spec fn count_set(flags: Seq<bool>) -> nat
    decreases flags.len(),
{
    if flags.len() == 0 {
        0
    } else {
        count_set(flags.drop_last()) + if flags.last() {
            1nat
        } else {
            0nat
        }
    }
}

pub(crate) proof fn lemma_count_set_bound(flags: Seq<bool>)
    ensures
        count_set(flags) <= flags.len(),
    decreases flags.len(),
{
    if flags.len() > 0 {
        lemma_count_set_bound(flags.drop_last());
    }
}

pub(crate) proof fn lemma_count_set_update(flags: Seq<bool>, i: int)
    requires
        0 <= i < flags.len(),
        !flags[i],
    ensures
        count_set(flags.update(i, true)) == count_set(flags) + 1,
    decreases flags.len(),
{
    let updated = flags.update(i, true);
    if i == flags.len() - 1 {
        assert(updated.drop_last() =~= flags.drop_last());
    } else {
        assert(updated.drop_last() =~= flags.drop_last().update(i, true));
        lemma_count_set_update(flags.drop_last(), i);
    }
}

/// In a subject-sorted list a subject names one position.
proof fn lemma_subject_position(resources: Seq<ObservedResource>, a: int, b: int)
    requires
        strictly_sorted_by_key(resources),
        0 <= a < resources.len(),
        0 <= b < resources.len(),
        resources[a].subject@ == resources[b].subject@,
    ensures
        a == b,
{
    lemma_keys_facts(resources[a].key(), resources[a].key(), resources[a].key());
    if a < b {
        assert(key_lt(resources[a].key(), resources[b].key()));
    } else if b < a {
        assert(key_lt(resources[b].key(), resources[a].key()));
    }
}

/// A set of positions holding `from` and closed under relations holds every
/// position reached from `from`.
proof fn lemma_closed_holds_reached(
    resources: Seq<ObservedResource>,
    relations: Seq<ResourceRelation>,
    flags: Seq<bool>,
    from: int,
    to: int,
    steps: nat,
)
    requires
        flags.len() == resources.len(),
        0 <= from < flags.len(),
        0 <= to < flags.len(),
        flags[from],
        forall|i: int, j: int|
            0 <= i < flags.len() && 0 <= j < flags.len() && #[trigger] flags[i] && #[trigger] linked(resources, relations, i, j) ==> flags[j],
        reaches_within(resources, relations, from, to, steps),
    ensures
        flags[to],
    decreases steps,
{
    if steps > 0 {
        if reaches_within(resources, relations, from, to, (steps - 1) as nat) {
            lemma_closed_holds_reached(resources, relations, flags, from, to, (steps - 1) as nat);
        } else {
            let mid = choose|mid: int|
                0 <= mid < resources.len() && reaches_within(resources, relations, from, mid, (steps - 1) as nat)
                    && #[trigger] linked(resources, relations, mid, to);
            lemma_closed_holds_reached(resources, relations, flags, from, mid, (steps - 1) as nat);
        }
    }
}

/// Whether `source` sorts before `subject`, or, when `past`, not after it.
spec fn sorts_before(source: (Seq<char>, Seq<char>), subject: (Seq<char>, Seq<char>), past: bool) -> bool {
    if past {
        !key_lt(subject_key(subject), subject_key(source))
    } else {
        key_lt(subject_key(source), subject_key(subject))
    }
}

/// The first position whose relation source does not sort before `subject`
/// (when `past`, the first whose source sorts after it), by binary search.
fn source_bound(relations: &[ResourceRelation], subject: &Subject, past: bool) -> (pos: usize)
    requires
        sorted_by_key(relations@),
    ensures
        pos <= relations.len(),
        forall|i: int| 0 <= i < pos ==> sorts_before(#[trigger] relations@[i].source@, subject@, past),
        forall|i: int| pos <= i < relations.len() ==> !sorts_before(#[trigger] relations@[i].source@, subject@, past),
{
    let mut lo: usize = 0;
    let mut hi: usize = relations.len();
    while lo < hi
        invariant
            0 <= lo <= hi <= relations.len(),
            sorted_by_key(relations@),
            forall|i: int| 0 <= i < lo ==> sorts_before(#[trigger] relations@[i].source@, subject@, past),
            forall|i: int| hi <= i < relations.len() ==> !sorts_before(#[trigger] relations@[i].source@, subject@, past),
        decreases hi - lo,
    {
        let mid = lo + (hi - lo) / 2;
        let order = relations[mid].source.compare(subject);
        let ghost m = subject_key(relations@[mid as int].source@);
        let ghost t = subject_key(subject@);
        proof {
            lemma_key_order(m, t);
        }
        let before = match order {
            Order::Less => true,
            Order::Equal => past,
            Order::Greater => false,
        };
        if before {
            proof {
                assert forall|i: int| 0 <= i <= mid implies sorts_before(#[trigger] relations@[i].source@, subject@, past) by {
                    if i < mid {
                        let si = subject_key(relations@[i].source@);
                        lemma_sources_ordered(relations@, i, mid as int);
                        lemma_keys_facts(si, m, t);
                        lemma_keys_facts(m, si, t);
                        lemma_keys_facts(t, si, m);
                    }
                }
            }
            lo = mid + 1;
        } else {
            proof {
                assert forall|i: int| mid <= i < relations.len() implies !sorts_before(#[trigger] relations@[i].source@, subject@, past) by {
                    if i > mid {
                        let si = subject_key(relations@[i].source@);
                        lemma_sources_ordered(relations@, mid as int, i);
                        lemma_keys_facts(si, m, t);
                        lemma_keys_facts(t, m, si);
                        lemma_keys_facts(m, si, t);
                    }
                }
            }
            hi = mid;
        }
    }
    lo
}

/// The positions of the relations leaving `subject`: a run that holds them
/// all and nothing else.
fn outgoing(relations: &[ResourceRelation], subject: &Subject) -> (run: (usize, usize))
    requires
        sorted_by_key(relations@),
    ensures
        run.0 <= run.1 <= relations.len(),
        forall|i: int| 0 <= i < relations.len() ==> ((run.0 <= i < run.1) <==> #[trigger] relations@[i].source@ == subject@),
{
    let start = source_bound(relations, subject, false);
    let end = source_bound(relations, subject, true);
    proof {
        let t = subject_key(subject@);
        assert forall|i: int| 0 <= i < relations.len() implies ((start <= i < end) <==> #[trigger] relations@[i].source@ == subject@) by {
            let si = subject_key(relations@[i].source@);
            lemma_keys_facts(si, t, si);
            crate::telemetry::context::lemma_subject_key_injective(relations@[i].source@, subject@);
        }
        if start > end {
            let i = end as int;
            let si = subject_key(relations@[i].source@);
            lemma_keys_facts(si, t, si);
        }
    }
    (start, end)
}

impl ResourceGraph {
    #[verifier::type_invariant]
    spec fn shaped(self) -> bool {
        graph_shape(self.resources@, self.relations@)
    }

    /// The resources, in subject order.
    pub closed spec fn resource_list(self) -> Seq<ObservedResource> {
        self.resources@
    }

    /// The relations, in identity order.
    pub closed spec fn relation_list(self) -> Seq<ResourceRelation> {
        self.relations@
    }

    /// Assembles a graph under the default limits.
    ///
    /// Returns the same errors as [`with_limits`](Self::with_limits).
    pub fn new(resources: Vec<ObservedResource>, relations: Vec<ResourceRelation>) -> (made: Result<ResourceGraph, ResourceGraphError>)
        ensures
            assembled(resources@, relations@, DEFAULT_MAX_RESOURCES, DEFAULT_MAX_RELATIONS, made),
    {
        ResourceGraph::with_limits(resources, relations, GraphLimits::default())
    }

    /// Assembles a graph under caller-supplied limits, which are first
    /// pulled back to the default where they exceed it.
    ///
    /// Returns [`ResourceGraphError::TooManyResources`] or
    /// [`ResourceGraphError::TooManyRelations`] if the input exceeds the
    /// limits, [`ResourceGraphError::DuplicateResource`] or
    /// [`ResourceGraphError::DuplicateSourceKey`] if one subject or one source
    /// location is described twice, [`ResourceGraphError::DuplicateRelation`]
    /// for a repeated edge, and [`ResourceGraphError::UnknownRelationSource`]
    /// if an edge leaves a subject the graph does not hold.
    pub fn with_limits(
        resources: Vec<ObservedResource>,
        relations: Vec<ResourceRelation>,
        limits: GraphLimits,
    ) -> (made: Result<ResourceGraph, ResourceGraphError>)
        ensures
            assembled(
                resources@,
                relations@,
                clamp(limits.resource_bound(), DEFAULT_MAX_RESOURCES),
                clamp(limits.relation_bound(), DEFAULT_MAX_RELATIONS),
                made,
            ),
    {
        let limits = limits.clamped();
        match limits.check_sizes(resources.as_slice(), relations.as_slice()) {
            Ok(()) => {},
            Err(error) => {
                return Err(error);
            },
        }
        let ghost input_resources = resources@;
        let ghost input_relations = relations@;
        let keys = source_keys_of(&resources);
        let resources = sort_by_key(resources);
        proof {
            lemma_repeats_preserved(input_resources, resources@);
        }
        if let Some(i) = first_adjacent_duplicate(&resources) {
            return Err(ResourceGraphError::DuplicateResource(resources[i].subject.clone()));
        }
        let sorted_keys = sort_by_key(keys);
        proof {
            lemma_repeats_preserved(source_keys(input_resources), sorted_keys@);
        }
        if let Some(i) = first_adjacent_duplicate(&sorted_keys) {
            proof {
                lemma_single_key(sorted_keys@[i as int]@, sorted_keys@[i as int]@);
            }
            return Err(ResourceGraphError::DuplicateSourceKey(sorted_keys[i].clone()));
        }
        let relations = sort_by_key(relations);
        proof {
            lemma_repeats_preserved(input_relations, relations@);
        }
        if let Some(i) = first_adjacent_duplicate(&relations) {
            let source = relations[i].source.clone();
            let kind = relations[i].kind.clone();
            let target = relations[i].target.clone();
            return Err(ResourceGraphError::DuplicateRelation { source, kind, target });
        }
        proof {
            // Distinct resources never share a source key.
            assert forall|x: int, y: int|
                0 <= x < resources@.len() && 0 <= y < resources@.len() && x != y
                implies #[trigger] source_keys(resources@)[x].key() != #[trigger] source_keys(resources@)[y].key() by {
                lemma_keys_facts(resources@[x].key(), resources@[y].key(), resources@[y].key());
                let a = lemma_find_in_permutation(resources@, input_resources, x);
                let b = lemma_find_in_permutation(resources@, input_resources, y);
                assert(source_keys(input_resources)[a] == resources@[x].source_key);
                assert(source_keys(input_resources)[b] == resources@[y].source_key);
            }
        }
        match first_unknown_source(resources.as_slice(), relations.as_slice()) {
            Some(i) => {
                let source = relations[i].source.clone();
                proof {
                    let s = relations@[i as int].source@;
                    lemma_holds_subject_permuted(resources@, input_resources, s);
                    let r = lemma_find_in_permutation(relations@, input_relations, i as int);
                    assert(input_relations[r].source@ == s);
                    assert forall|r2: int|
                        0 <= r2 < input_relations.len() && !holds_subject(input_resources, #[trigger] input_relations[r2].source@)
                        implies !key_lt(subject_key(input_relations[r2].source@), subject_key(s)) by {
                        let j = lemma_find_in_permutation(input_relations, relations@, r2);
                        lemma_holds_subject_permuted(resources@, input_resources, relations@[j].source@);
                        lemma_keys_facts(subject_key(s), subject_key(s), subject_key(s));
                        if j != i {
                            assert(j > i);
                            lemma_sources_ordered(relations@, i as int, j);
                        }
                    }
                }
                Err(ResourceGraphError::UnknownRelationSource(source))
            },
            None => {
                proof {
                    assert forall|r: int| 0 <= r < input_relations.len() implies holds_subject(input_resources, #[trigger] input_relations[r].source@) by {
                        let j = lemma_find_in_permutation(input_relations, relations@, r);
                        lemma_holds_subject_permuted(resources@, input_resources, relations@[j].source@);
                    }
                }
                assert(resources@.len() == input_resources.len()) by {
                    assert(resources@.to_multiset().len() == input_resources.to_multiset().len());
                }
                assert(relations@.len() == input_relations.len()) by {
                    assert(relations@.to_multiset().len() == input_relations.to_multiset().len());
                }
                Ok(ResourceGraph { resources, relations })
            },
        }
    }
}

impl ResourceGraph {
    /// Marks every resource reachable from the resource at `root`.
    ///
    /// Each resource enters the work list once, when first marked, so the
    /// walk visits each resource and each relation at most once.
    fn visit_from(&self, root: usize) -> (reached: Vec<bool>)
        requires
            root < self.resource_list().len(),
        ensures
            reached.len() == self.resource_list().len(),
            forall|i: int|
                0 <= i < reached.len() ==> (#[trigger] reached@[i] == reaches(
                    self.resource_list(),
                    self.relation_list(),
                    root as int,
                    i,
                )),
    {
        proof {
            use_type_invariant(self);
        }
        let resources = self.resources.as_slice();
        let relations = self.relations.as_slice();
        let ghost rs = resources@;
        let ghost ls = relations@;
        let n = resources.len();
        let mut reached: Vec<bool> = Vec::new();
        while reached.len() < n
            invariant
                reached.len() <= n,
                n == rs.len(),
                forall|i: int| 0 <= i < reached.len() ==> !#[trigger] reached@[i],
            decreases n - reached.len(),
        {
            reached.push(false);
        }
        proof {
            assert(count_set(reached@) == 0) by {
                assert forall|len: int| 0 <= len <= reached@.len() implies #[trigger] count_set(reached@.subrange(0, len)) == 0 by {
                    lemma_count_zero(reached@, len);
                }
                assert(reached@.subrange(0, reached@.len() as int) =~= reached@);
            }
            lemma_count_set_update(reached@, root as int);
            assert(reaches_within(rs, ls, root as int, root as int, 0));
        }
        let ghost unset = reached@;
        reached.set(root, true);
        let mut marked: usize = 1;
        let mut pending: Vec<usize> = Vec::new();
        pending.push(root);
        proof {
            assert(pending@[0] == root);
            assert forall|i: int| 0 <= i < n && #[trigger] reached@[i] implies i == root by {
                if i != root {
                    assert(!unset[i]);
                }
            }
            assert(sorted_by_key(ls)) by {
                assert forall|i: int, j: int| 0 <= i < j < ls.len() implies !key_lt(#[trigger] ls[j].key(), #[trigger] ls[i].key()) by {
                    lemma_keys_facts(ls[i].key(), ls[j].key(), ls[i].key());
                }
            }
        }
        while pending.len() > 0
            invariant
                n == rs.len(),
                rs == resources@,
                ls == relations@,
                graph_shape(rs, ls),
                sorted_by_key(ls),
                reached.len() == n,
                root < n,
                reached@[root as int],
                marked == count_set(reached@),
                forall|k: int| 0 <= k < pending.len() ==> #[trigger] pending@[k] < n && reached@[pending@[k] as int],
                forall|i: int| 0 <= i < n && #[trigger] reached@[i] ==> reaches(rs, ls, root as int, i),
                forall|i: int, j: int|
                    0 <= i < n && 0 <= j < n && #[trigger] reached@[i] && !pending@.contains(i as usize)
                        && #[trigger] linked(rs, ls, i, j) ==> reached@[j],
            decreases n - marked, pending.len(),
        {
            proof {
                lemma_count_set_bound(reached@);
            }
            let ghost before_pop = pending@;
            let index = pending.pop().unwrap();
            proof {
                assert(before_pop =~= pending@.push(index));
                assert(before_pop[before_pop.len() - 1] == index);
            }
            let ghost marked_before = marked;
            let run = outgoing(relations, &resources[index].subject);
            let mut r: usize = run.0;
            while r < run.1
                invariant
                    n == rs.len(),
                    rs == resources@,
                    ls == relations@,
                    graph_shape(rs, ls),
                    reached.len() == n,
                    root < n,
                    index < n,
                    reached@[index as int],
                    reached@[root as int],
                    run.0 <= r <= run.1 <= ls.len(),
                    forall|x: int| 0 <= x < ls.len() ==> ((run.0 <= x < run.1) <==> #[trigger] ls[x].source@ == rs[index as int].subject@),
                    marked == count_set(reached@),
                    marked >= marked_before,
                    pending@.len() + marked_before <= before_pop.len() - 1 + marked,
                    marked == marked_before || n - marked < n - marked_before,
                    forall|k: int| 0 <= k < pending.len() ==> #[trigger] pending@[k] < n && reached@[pending@[k] as int],
                    forall|i: int| 0 <= i < n && #[trigger] reached@[i] ==> reaches(rs, ls, root as int, i),
                    forall|i: int| 0 <= i < before_pop.len() - 1 ==> #[trigger] pending@.contains(before_pop[i]),
                    forall|i: int, j: int|
                        0 <= i < n && 0 <= j < n && #[trigger] reached@[i] && !pending@.contains(i as usize) && i != index
                            && #[trigger] linked(rs, ls, i, j) ==> reached@[j],
                    forall|x: int, j: int|
                        run.0 <= x < r && 0 <= j < n && #[trigger] ls[x].target@ == #[trigger] rs[j].subject@ ==> reached@[j],
                decreases run.1 - r,
            {
                proof {
                    lemma_count_set_bound(reached@);
                }
                match find_subject(resources, &relations[r].target) {
                    Some(target) => {
                        if !reached[target] {
                            proof {
                                lemma_count_set_update(reached@, target as int);
                                // The target is one step past a reached resource.
                                let steps = choose|steps: nat| #[trigger] reaches_within(rs, ls, root as int, index as int, steps);
                                assert(linked(rs, ls, index as int, target as int)) by {
                                    assert(ls[r as int].source@ == rs[index as int].subject@);
                                }
                                assert(reaches_within(rs, ls, root as int, target as int, steps + 1));
                            }
                            let ghost before_push = pending@;
                            let ghost before_set = reached@;
                            reached.set(target, true);
                            pending.push(target);
                            marked = marked + 1;
                            proof {
                                assert(pending@ =~= before_push.push(target));
                                assert(pending@[pending@.len() - 1] == target);
                                assert(pending@.contains(target));
                                assert forall|i: int| 0 <= i < before_pop.len() - 1 implies #[trigger] pending@.contains(before_pop[i]) by {
                                    assert(before_push.contains(before_pop[i]));
                                    let k = choose|k: int| 0 <= k < before_push.len() && before_push[k] == before_pop[i];
                                    assert(pending@[k] == before_pop[i]);
                                }
                                assert forall|i: int, j: int|
                                    0 <= i < n && 0 <= j < n && #[trigger] reached@[i] && !pending@.contains(i as usize) && i != index
                                        && #[trigger] linked(rs, ls, i, j) implies reached@[j] by {
                                    if i != target {
                                        assert(before_set[i]);
                                        if before_push.contains(i as usize) {
                                            let k = choose|k: int| 0 <= k < before_push.len() && before_push[k] == i as usize;
                                            assert(pending@[k] == i as usize);
                                        }
                                        assert(before_set[j]);
                                    }
                                }
                            }
                        }
                        proof {
                            assert forall|x: int, j: int|
                                run.0 <= x < r + 1 && 0 <= j < n && #[trigger] ls[x].target@ == #[trigger] rs[j].subject@ implies reached@[j] by {
                                if x == r {
                                    lemma_subject_position(rs, j, target as int);
                                }
                            }
                        }
                    },
                    None => {
                        proof {
                            assert forall|x: int, j: int|
                                run.0 <= x < r + 1 && 0 <= j < n && #[trigger] ls[x].target@ == #[trigger] rs[j].subject@ implies reached@[j] by {
                                if x == r {
                                    assert(rs[j].subject@ == ls[r as int].target@);
                                }
                            }
                        }
                    },
                }
                r = r + 1;
            }
            proof {
                lemma_count_set_bound(reached@);
                // Every relation leaving `index` has been followed.
                assert forall|i: int, j: int|
                    0 <= i < n && 0 <= j < n && #[trigger] reached@[i] && !pending@.contains(i as usize)
                        && #[trigger] linked(rs, ls, i, j) implies reached@[j] by {
                    if i == index {
                        let x = choose|x: int|
                            0 <= x < ls.len() && #[trigger] ls[x].source@ == rs[i].subject@ && ls[x].target@ == rs[j].subject@;
                        assert(ls[x].target@ == rs[j].subject@);
                    }
                }
            }
        }
        proof {
            assert forall|i: int| 0 <= i < reached.len() implies (#[trigger] reached@[i] == reaches(rs, ls, root as int, i)) by {
                if reaches(rs, ls, root as int, i) {
                    let steps = choose|steps: nat| #[trigger] reaches_within(rs, ls, root as int, i, steps);
                    assert forall|a: int, b: int|
                        0 <= a < reached@.len() && 0 <= b < reached@.len() && #[trigger] reached@[a] && #[trigger] linked(rs, ls, a, b)
                        implies reached@[b] by {
                        assert(!pending@.contains(a as usize));
                    }
                    lemma_closed_holds_reached(rs, ls, reached@, root as int, i, steps);
                }
            }
        }
        reached
    }
}

pub(crate) proof fn lemma_count_zero(flags: Seq<bool>, len: int)
    requires
        0 <= len <= flags.len(),
        forall|i: int| 0 <= i < flags.len() ==> !#[trigger] flags[i],
    ensures
        count_set(flags.subrange(0, len)) == 0,
    decreases len,
{
    if len > 0 {
        assert(flags.subrange(0, len).drop_last() =~= flags.subrange(0, len - 1));
        lemma_count_zero(flags, len - 1);
    }
}

/// `run` is the stretch of `relations` from `start` holding exactly the
/// relations leaving `subject`.
pub open spec fn run_at(
    relations: Seq<ResourceRelation>,
    subject: (Seq<char>, Seq<char>),
    start: int,
    run: Seq<ResourceRelation>,
) -> bool {
    &&& 0 <= start
    &&& start + run.len() <= relations.len()
    &&& run == relations.subrange(start, start + run.len())
    &&& forall|i: int| 0 <= i < relations.len() ==> ((start <= i < start + run.len()) <==> #[trigger] relations[i].source@ == subject)
}

/// `subject` is held by a resource reached from the resource whose subject is
/// `root`.
pub open spec fn reachable_subject(
    resources: Seq<ObservedResource>,
    relations: Seq<ResourceRelation>,
    root: (Seq<char>, Seq<char>),
    subject: (Seq<char>, Seq<char>),
) -> bool {
    exists|x: int| #![trigger resources[x]] 0 <= x < resources.len() && resources[x].subject@ == subject && reached_from(resources, relations, root, x)
}

/// Outcome of checking whether a graph is wholly reachable from one subject.
#[derive(Clone, Copy, Debug, PartialEq, Eq)]
pub enum Reachability<'graph> {
    MissingRoot,
    FullyReachable,
    Unreachable(&'graph Subject),
}

impl ResourceGraph {
    pub fn empty() -> (graph: ResourceGraph)
        ensures
            graph.resource_list().len() == 0,
            graph.relation_list().len() == 0,
    {
        ResourceGraph { resources: Vec::new(), relations: Vec::new() }
    }

    /// The resources, in subject order.
    pub fn resources(&self) -> (resources: &[ObservedResource])
        ensures
            resources@ == self.resource_list(),
            graph_shape(self.resource_list(), self.relation_list()),
    {
        proof {
            use_type_invariant(self);
        }
        self.resources.as_slice()
    }

    /// The relations, in `(source, kind, target)` order.
    pub fn relations(&self) -> (relations: &[ResourceRelation])
        ensures
            relations@ == self.relation_list(),
            graph_shape(self.resource_list(), self.relation_list()),
    {
        proof {
            use_type_invariant(self);
        }
        self.relations.as_slice()
    }

    /// The resource observed for `subject`, by binary search.
    pub fn get(&self, subject: &Subject) -> (found: Option<&ObservedResource>)
        ensures
            match found {
                Some(resource) => self.resource_list().contains(*resource) && resource.subject@ == subject@,
                None => !holds_subject(self.resource_list(), subject@),
            },
    {
        proof {
            use_type_invariant(self);
        }
        match find_subject(self.resources.as_slice(), subject) {
            Some(i) => {
                let resource = &self.resources[i];
                proof {
                    assert(self.resource_list()[i as int] == *resource);
                }
                Some(resource)
            },
            None => None,
        }
    }

    /// Returns the outgoing relations of `subject` in `O(log n)`: the run of
    /// the relation list holding exactly the relations leaving it.
    pub fn relations_from(&self, subject: &Subject) -> (run: &[ResourceRelation])
        ensures
            exists|start: int| #[trigger] run_at(self.relation_list(), subject@, start, run@),
    {
        proof {
            use_type_invariant(self);
            let ls = self.relations@;
            assert(sorted_by_key(ls)) by {
                assert forall|i: int, j: int| 0 <= i < j < ls.len() implies !key_lt(#[trigger] ls[j].key(), #[trigger] ls[i].key()) by {
                    lemma_keys_facts(ls[i].key(), ls[j].key(), ls[i].key());
                }
            }
        }
        let relations = self.relations.as_slice();
        let run = outgoing(relations, subject);
        let out = &relations[run.0..run.1];
        proof {
            assert(out@.len() == run.1 - run.0);
            let start = run.0 as int;
            assert(out@ == self.relation_list().subrange(start, start + out@.len()));
            assert(run_at(self.relation_list(), subject@, start, out@));
        }
        out
    }

    /// Returns the incoming relations of `subject`.
    ///
    /// Relations are ordered by source, so this scans the whole relation list.
    pub fn relations_to(&self, subject: &Subject) -> (incoming: Vec<&ResourceRelation>)
        ensures
            incoming@.map_values(|relation: &ResourceRelation| *relation) == self.relation_list().filter(
                |relation: ResourceRelation| relation.target@ == subject@,
            ),
    {
        let ghost pred = |relation: ResourceRelation| relation.target@ == subject@;
        let relations = self.relations.as_slice();
        let mut incoming: Vec<&ResourceRelation> = Vec::new();
        let mut i: usize = 0;
        while i < relations.len()
            invariant
                0 <= i <= relations.len(),
                relations@ == self.relation_list(),
                pred == (|relation: ResourceRelation| relation.target@ == subject@),
                incoming@.map_values(|relation: &ResourceRelation| *relation) == relations@.subrange(0, i as int).filter(pred),
            decreases relations.len() - i,
        {
            let ghost before = incoming@;
            proof {
                assert(relations@.subrange(0, i + 1) =~= relations@.subrange(0, i as int).push(relations@[i as int]));
                relations@.subrange(0, i as int).lemma_filter_push(relations@[i as int], pred);
            }
            if relations[i].target.same(subject) {
                incoming.push(&relations[i]);
                proof {
                    assert(incoming@.map_values(|relation: &ResourceRelation| *relation) =~= before.map_values(
                        |relation: &ResourceRelation| *relation,
                    ).push(relations@[i as int]));
                }
            }
            i = i + 1;
        }
        proof {
            assert(relations@.subrange(0, i as int) =~= relations@);
        }
        incoming
    }

    /// Returns the subjects reachable from `root` by following relations.
    ///
    /// Traversal follows edges from source to target only. Relations pointing
    /// outside the graph are ignored, and the root is included when present.
    /// Subjects come back in graph order rather than traversal order.
    pub fn reachable_from(&self, root: &Subject) -> (reachable: Vec<&Subject>)
        ensures
            !holds_subject(self.resource_list(), root@) ==> reachable.len() == 0,
            forall|k: int|
                0 <= k < reachable.len() ==> reachable_subject(self.resource_list(), self.relation_list(), root@, #[trigger] reachable@[k]@),
            forall|i: int|
                0 <= i < self.resource_list().len() && #[trigger] reached_from(self.resource_list(), self.relation_list(), root@, i)
                    ==> exists|k: int| 0 <= k < reachable.len() && #[trigger] reachable@[k]@ == self.resource_list()[i].subject@,
            forall|a: int, b: int|
                0 <= a < b < reachable.len() ==> key_lt(subject_key(#[trigger] reachable@[a]@), subject_key(#[trigger] reachable@[b]@)),
    {
        proof {
            use_type_invariant(self);
        }
        let resources = self.resources.as_slice();
        let ghost rs = resources@;
        let ghost ls = self.relations@;
        let root_index = match find_subject(resources, root) {
            Some(index) => index,
            None => {
                proof {
                    assert forall|i: int| 0 <= i < rs.len() implies !#[trigger] reached_from(rs, ls, root@, i) by {
                    }
                }
                return Vec::new();
            },
        };
        let reached = self.visit_from(root_index);
        proof {
            assert forall|i: int| 0 <= i < rs.len() implies (#[trigger] reached_from(rs, ls, root@, i) == reached@[i]) by {
                if reached_from(rs, ls, root@, i) {
                    let from = choose|from: int| 0 <= from < rs.len() && #[trigger] rs[from].subject@ == root@ && reaches(rs, ls, from, i);
                    lemma_subject_position(rs, from, root_index as int);
                }
            }
        }
        let mut reachable: Vec<&Subject> = Vec::new();
        let mut i: usize = 0;
        while i < resources.len()
            invariant
                0 <= i <= resources.len(),
                rs == resources@,
                reached.len() == rs.len(),
                strictly_sorted_by_key(rs),
                forall|x: int| 0 <= x < rs.len() ==> (#[trigger] reached_from(rs, ls, root@, x) == reached@[x]),
                forall|k: int| 0 <= k < reachable.len() ==> reachable_subject(rs, ls, root@, #[trigger] reachable@[k]@),
                forall|k: int|
                    0 <= k < reachable.len() ==> key_lt(subject_key(#[trigger] reachable@[k]@), subject_key(rs[i as int].subject@)) || i == rs.len(),
                forall|x: int|
                    0 <= x < i && #[trigger] reached_from(rs, ls, root@, x) ==> exists|k: int|
                        0 <= k < reachable.len() && #[trigger] reachable@[k]@ == rs[x].subject@,
                forall|a: int, b: int|
                    0 <= a < b < reachable.len() ==> key_lt(subject_key(#[trigger] reachable@[a]@), subject_key(#[trigger] reachable@[b]@)),
            decreases resources.len() - i,
        {
            if reached[i] {
                let ghost before = reachable@;
                reachable.push(&resources[i].subject);
                proof {
                    assert(reachable@[before.len() as int]@ == rs[i as int].subject@);
                    assert(reachable_subject(rs, ls, root@, rs[i as int].subject@)) by {
                        assert(rs[i as int].subject@ == rs[i as int].subject@);
                    }
                    assert forall|k: int| 0 <= k < reachable.len() implies reachable_subject(rs, ls, root@, #[trigger] reachable@[k]@) by {
                        if k < before.len() {
                            assert(reachable@[k] == before[k]);
                        }
                    }
                    assert forall|x: int| 0 <= x < i + 1 && #[trigger] reached_from(rs, ls, root@, x) implies exists|k: int|
                        0 <= k < reachable.len() && #[trigger] reachable@[k]@ == rs[x].subject@ by {
                        if x < i {
                            let k = choose|k: int| 0 <= k < before.len() && #[trigger] before[k]@ == rs[x].subject@;
                            assert(reachable@[k] == before[k]);
                        } else {
                            assert(reachable@[before.len() as int]@ == rs[x].subject@);
                        }
                    }
                    assert forall|a: int, b: int|
                        0 <= a < b < reachable.len() implies key_lt(subject_key(#[trigger] reachable@[a]@), subject_key(#[trigger] reachable@[b]@)) by {
                        assert(reachable@[a] == before[a]);
                        if b < before.len() {
                            assert(reachable@[b] == before[b]);
                        }
                    }
                }
            }
            proof {
                if i + 1 < rs.len() {
                    assert(key_lt(rs[i as int].key(), rs[i + 1].key()));
                    assert forall|k: int| 0 <= k < reachable.len() implies key_lt(subject_key(#[trigger] reachable@[k]@), subject_key(rs[i + 1].subject@)) by {
                        if reachable@[k]@ != rs[i as int].subject@ {
                            lemma_keys_facts(subject_key(reachable@[k]@), rs[i as int].key(), rs[i + 1].key());
                        }
                    }
                }
            }
            i = i + 1;
        }
        reachable
    }

    /// Classifies whether `root` reaches every resource in the graph.
    ///
    /// The answer costs the same as the traversal itself; an unreachable
    /// resource is reported as the first in graph order.
    pub fn reachability_from(&self, root: &Subject) -> (answer: Reachability<'_>)
        ensures
            match answer {
                Reachability::MissingRoot => !holds_subject(self.resource_list(), root@),
                Reachability::FullyReachable => {
                    &&& holds_subject(self.resource_list(), root@)
                    &&& forall|i: int| 0 <= i < self.resource_list().len() ==> #[trigger] reached_from(self.resource_list(), self.relation_list(), root@, i)
                },
                Reachability::Unreachable(subject) => {
                    &&& holds_subject(self.resource_list(), root@)
                    &&& exists|u: int|
                        0 <= u < self.resource_list().len() && self.resource_list()[u].subject@ == subject@
                            && !reached_from(self.resource_list(), self.relation_list(), root@, u)
                            && forall|i: int| 0 <= i < u ==> #[trigger] reached_from(self.resource_list(), self.relation_list(), root@, i)
                },
            },
    {
        proof {
            use_type_invariant(self);
        }
        let resources = self.resources.as_slice();
        let ghost rs = resources@;
        let ghost ls = self.relations@;
        let root_index = match find_subject(resources, root) {
            Some(index) => index,
            None => {
                return Reachability::MissingRoot;
            },
        };
        let reached = self.visit_from(root_index);
        proof {
            assert forall|i: int| 0 <= i < rs.len() implies (#[trigger] reached_from(rs, ls, root@, i) == reached@[i]) by {
                if reached_from(rs, ls, root@, i) {
                    let from = choose|from: int| 0 <= from < rs.len() && #[trigger] rs[from].subject@ == root@ && reaches(rs, ls, from, i);
                    lemma_subject_position(rs, from, root_index as int);
                }
            }
        }
        let mut i: usize = 0;
        while i < reached.len()
            invariant
                0 <= i <= reached.len(),
                reached.len() == rs.len(),
                rs == resources@,
                forall|x: int| 0 <= x < rs.len() ==> (#[trigger] reached_from(rs, ls, root@, x) == reached@[x]),
                forall|x: int| 0 <= x < i ==> #[trigger] reached_from(rs, ls, root@, x),
                root_index < rs.len(),
                rs[root_index as int].subject@ == root@,
                rs == self.resource_list(),
                ls == self.relation_list(),
            decreases reached.len() - i,
        {
            if !reached[i] {
                let subject = &resources[i].subject;
                proof {
                    assert(rs[i as int].subject@ == subject@);
                    assert(holds_subject(rs, root@)) by {
                        assert(rs[root_index as int].subject@ == root@);
                    }
                    assert(!reached_from(rs, ls, root@, i as int));
                    assert(exists|u: int|
                        0 <= u < rs.len() && rs[u].subject@ == subject@ && !reached_from(rs, ls, root@, u)
                            && forall|x: int| 0 <= x < u ==> #[trigger] reached_from(rs, ls, root@, x));
                }
                return Reachability::Unreachable(subject);
            }
            i = i + 1;
        }
        proof {
            assert(rs[root_index as int].subject@ == root@);
        }
        Reachability::FullyReachable
    }

    pub fn resource_count(&self) -> (count: usize)
        ensures
            count == self.resource_list().len(),
            count <= DEFAULT_MAX_RESOURCES,
    {
        proof {
            use_type_invariant(self);
        }
        self.resources.len()
    }

    pub fn relation_count(&self) -> (count: usize)
        ensures
            count == self.relation_list().len(),
            count <= DEFAULT_MAX_RELATIONS,
    {
        proof {
            use_type_invariant(self);
        }
        self.relations.len()
    }

    pub fn is_empty(&self) -> (empty: bool)
        ensures
            empty == (self.resource_list().len() == 0),
    {
        self.resources.len() == 0
    }
}

impl Default for ResourceGraph {
    fn default() -> (graph: ResourceGraph)
        ensures
            graph.resource_list().len() == 0,
            graph.relation_list().len() == 0,
    {
        ResourceGraph::empty()
    }
}

/// A repeated source key survives reordering the resources.
proof fn lemma_source_key_repeat_permuted(a: Seq<ObservedResource>, b: Seq<ObservedResource>)
    requires
        a.to_multiset() =~= b.to_multiset(),
        has_repeated_key(source_keys(b)),
    ensures
        has_repeated_key(source_keys(a)),
{
    let keys = source_keys(b);
    let (i, j) = choose|i: int, j: int| 0 <= i < keys.len() && 0 <= j < keys.len() && i != j && #[trigger] keys[i].key() == #[trigger] keys[j].key();
    let (p, q) = lemma_two_in_permutation(b, a, i, j);
    let moved = source_keys(a);
    assert(moved[p] == a[p].source_key && moved[q] == a[q].source_key);
    assert(keys[i] == b[i].source_key && keys[j] == b[j].source_key);
    assert(moved[p].key() == moved[q].key());
}

/// Every relation source held stays held when resources and relations are
/// reordered.
proof fn lemma_sources_held_permuted(
    resources: Seq<ObservedResource>,
    relations: Seq<ResourceRelation>,
    moved_resources: Seq<ObservedResource>,
    moved_relations: Seq<ResourceRelation>,
)
    requires
        resources.to_multiset() =~= moved_resources.to_multiset(),
        relations.to_multiset() =~= moved_relations.to_multiset(),
        sources_held(resources, relations),
    ensures
        sources_held(moved_resources, moved_relations),
{
    assert forall|r: int| 0 <= r < moved_relations.len() implies holds_subject(moved_resources, #[trigger] moved_relations[r].source@) by {
        let p = lemma_find_in_permutation(moved_relations, relations, r);
        assert(holds_subject(resources, relations[p].source@));
        lemma_holds_subject_permuted(resources, moved_resources, relations[p].source@);
    }
}

/// Assembling a graph sorts what it is given: resources and relations that
/// assemble in one order assemble in any other, and the two graphs hold them
/// in the same order, so they compare equal.
pub proof fn lemma_assembly_ignores_arrival_order(
    first_resources: Seq<ObservedResource>,
    first_relations: Seq<ResourceRelation>,
    second_resources: Seq<ObservedResource>,
    second_relations: Seq<ResourceRelation>,
    max_resources: usize,
    max_relations: usize,
    first: ResourceGraph,
    made: Result<ResourceGraph, ResourceGraphError>,
)
    requires
        first_resources.to_multiset() =~= second_resources.to_multiset(),
        first_relations.to_multiset() =~= second_relations.to_multiset(),
        assembled(first_resources, first_relations, max_resources, max_relations, Ok(first)),
        assembled(second_resources, second_relations, max_resources, max_relations, made),
    ensures
        made matches Ok(second) && first.resource_list() == second.resource_list() && first.relation_list()
            == second.relation_list(),
{
    first_resources.to_multiset_ensures();
    second_resources.to_multiset_ensures();
    first_relations.to_multiset_ensures();
    second_relations.to_multiset_ensures();
    assert(first_resources.len() == second_resources.len());
    assert(first_relations.len() == second_relations.len());
    lemma_repeats_preserved(first_resources, second_resources);
    lemma_repeats_preserved(first_relations, second_relations);
    if has_repeated_key(source_keys(second_resources)) {
        lemma_source_key_repeat_permuted(first_resources, second_resources);
    }
    lemma_sources_held_permuted(first_resources, first_relations, second_resources, second_relations);
    match made {
        Ok(second) => {
            lemma_strictly_sorted_unique(first.resource_list(), second.resource_list());
            lemma_strictly_sorted_unique(first.relation_list(), second.relation_list());
        },
        Err(ResourceGraphError::DuplicateResource(subject)) => {
            assert(has_repeated_key(second_resources));
        },
        Err(ResourceGraphError::DuplicateSourceKey(key)) => {
            assert(has_repeated_key(source_keys(second_resources)));
        },
        Err(ResourceGraphError::DuplicateRelation { source, kind, target }) => {
            assert(has_repeated_key(second_relations));
        },
        _ => {},
    }
}

} // verus!
