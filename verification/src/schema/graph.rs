//! Validated observed resources and the resource graph that relates them.

use vstd::prelude::*;

use crate::order::{Order, compare_text};
use crate::schema::identity::{Subject, count_fault, optional_text, subject_decodes, wire_subject_fault, wire_subject_view};
use crate::schema::invalid::{
    Fault, Invalid, Violation, check_optional_text, check_text, fault_at, first_fault, items_fault, lemma_items_fault_skip,
    lemma_missing_fault_skip, lemma_repeat_fault_skip, missing_fault, optional_text_fault, repeat_fault, repeats_earlier, reports,
    text_fault, too_many,
};
use crate::schema::limits::{
    OBSERVEDRESOURCE_ENTITY_TAG_MAX_LEN, OBSERVEDRESOURCE_SOURCE_KEY_MAX_LEN, OBSERVEDRESOURCE_SOURCE_SCHEMA_MAX_LEN,
    OBSERVEDRESOURCE_UNRESOLVED_MAX_ITEMS, RESOURCEGRAPH_RELATIONS_MAX_ITEMS, RESOURCEGRAPH_RESOURCES_MAX_ITEMS,
};
use crate::schema::messages::{
    ResourceRelation, UnresolvedReference, reference_parts_fault, relation_decodes, wire_relation_fault,
};
use crate::schema::records::{
    SubjectView, check_distinct_subjects, lemma_canonical_optional_map, lemma_optional_map_canonical, optional_timestamp_from, optional_timestamp_into,
    optional_timestamp_of_wire, optional_wire_timestamp_fault, subject_from_wire,
};
use crate::schema::value::Timestamp;
use crate::schema::value_tree::{
    SortedMap, check_optional_map, optional_map_decodes, optional_map_fault, optional_map_from_wire, optional_map_into_wire,
    optional_wire_map_fault,
};
use crate::schema::wire;

verus! {

/// The rule that every relation starts at a resource of the graph.
pub const RELATION_SOURCE_PRESENT: &'static str = "a relation's source names a resource present in the graph";

// --------------------------------------------------------- ObservedResource

/// What is wrong with a resource's text fields, checked in order.
pub open spec fn resource_texts_fault(source_key: Seq<char>, source_schema: Option<Seq<char>>, entity_tag: Option<Seq<char>>) -> Option<Fault> {
    first_fault(
        text_fault("source_key"@, source_key, OBSERVEDRESOURCE_SOURCE_KEY_MAX_LEN),
        first_fault(
            optional_text_fault("source_schema"@, source_schema, OBSERVEDRESOURCE_SOURCE_SCHEMA_MAX_LEN),
            optional_text_fault("entity_tag"@, entity_tag, OBSERVEDRESOURCE_ENTITY_TAG_MAX_LEN),
        ),
    )
}

/// What is wrong with a resource's own fields, checked in order, if
/// anything: its texts, its properties, then how many references it holds.
pub open spec fn resource_fault(
    source_key: Seq<char>,
    source_schema: Option<Seq<char>>,
    entity_tag: Option<Seq<char>>,
    properties: Option<SortedMap>,
    unresolved: nat,
) -> Option<Fault> {
    first_fault(
        resource_texts_fault(source_key, source_schema, entity_tag),
        first_fault(
            optional_map_fault("properties"@, properties),
            count_fault("unresolved"@, unresolved, OBSERVEDRESOURCE_UNRESOLVED_MAX_ITEMS),
        ),
    )
}

/// Validated form of the contract's `ObservedResource`: one resource as a
/// source reported it, with its properties and the links it could not yet
/// resolve.
#[derive(Debug, PartialEq, Eq)]
pub struct ObservedResource {
    subject: Subject,
    source_key: String,
    source_schema: Option<String>,
    entity_tag: Option<String>,
    observed_at: Option<Timestamp>,
    properties: Option<SortedMap>,
    properties_complete: bool,
    unresolved: Vec<UnresolvedReference>,
}

impl ObservedResource {
    #[verifier::type_invariant]
    spec fn valid(self) -> bool {
        resource_fault(
            self.source_key@,
            optional_text(self.source_schema),
            optional_text(self.entity_tag),
            self.properties,
            self.unresolved@.len(),
        ) is None
    }

    pub closed spec fn subject_of(self) -> SubjectView {
        self.subject@
    }

    pub closed spec fn source_key_of(self) -> Seq<char> {
        self.source_key@
    }

    pub closed spec fn source_schema_of(self) -> Option<Seq<char>> {
        optional_text(self.source_schema)
    }

    pub closed spec fn entity_tag_of(self) -> Option<Seq<char>> {
        optional_text(self.entity_tag)
    }

    pub closed spec fn observed_at_of(self) -> Option<Timestamp> {
        self.observed_at
    }

    pub closed spec fn properties_of(self) -> Option<SortedMap> {
        self.properties
    }

    pub closed spec fn properties_complete_of(self) -> bool {
        self.properties_complete
    }

    pub closed spec fn unresolved_of(self) -> Seq<(Seq<char>, Option<Seq<char>>)> {
        Seq::new(self.unresolved@.len(), |i: int| self.unresolved@[i]@)
    }

    /// A builder holding nothing yet.
    pub fn builder() -> (builder: ObservedResourceBuilder)
        ensures
            builder.subject_part() is None,
            builder.source_key_part() is None,
            builder.source_schema_part() is None,
            builder.entity_tag_part() is None,
            builder.observed_at_part() is None,
            builder.properties_part() is None,
            builder.properties_complete_part() is None,
            builder.unresolved_part().len() == 0,
    {
        ObservedResourceBuilder {
            subject: None,
            source_key: None,
            source_schema: None,
            entity_tag: None,
            observed_at: None,
            properties: None,
            properties_complete: None,
            unresolved: Vec::new(),
        }
    }

    /// The `subject`.
    pub fn subject(&self) -> (subject: &Subject)
        ensures
            subject@ == self.subject_of(),
    {
        &self.subject
    }

    /// The `source_key`.
    pub fn source_key(&self) -> (source_key: &str)
        ensures
            source_key@ == self.source_key_of(),
    {
        self.source_key.as_str()
    }

    /// The `source_schema`, when present.
    pub fn source_schema(&self) -> (source_schema: Option<&str>)
        ensures
            match source_schema {
                Some(text) => self.source_schema_of() == Some(text@),
                None => self.source_schema_of() is None,
            },
    {
        match &self.source_schema {
            Some(text) => Some(text.as_str()),
            None => None,
        }
    }

    /// The `entity_tag`, when present.
    pub fn entity_tag(&self) -> (entity_tag: Option<&str>)
        ensures
            match entity_tag {
                Some(text) => self.entity_tag_of() == Some(text@),
                None => self.entity_tag_of() is None,
            },
    {
        match &self.entity_tag {
            Some(text) => Some(text.as_str()),
            None => None,
        }
    }

    /// The `observed_at`, when present.
    pub fn observed_at(&self) -> (observed_at: Option<&Timestamp>)
        ensures
            match observed_at {
                Some(t) => self.observed_at_of() == Some(*t),
                None => self.observed_at_of() is None,
            },
    {
        match &self.observed_at {
            Some(t) => Some(t),
            None => None,
        }
    }

    /// The `properties`, when present.
    pub fn properties(&self) -> (properties: Option<&SortedMap>)
        ensures
            match properties {
                Some(map) => self.properties_of() == Some(*map),
                None => self.properties_of() is None,
            },
    {
        match &self.properties {
            Some(map) => Some(map),
            None => None,
        }
    }

    /// The `properties_complete`.
    pub fn properties_complete(&self) -> (complete: bool)
        ensures
            complete == self.properties_complete_of(),
    {
        self.properties_complete
    }

    /// The `unresolved`.
    pub fn unresolved(&self) -> (unresolved: &[UnresolvedReference])
        ensures
            Seq::new(unresolved@.len(), |i: int| unresolved@[i]@) == self.unresolved_of(),
    {
        self.unresolved.as_slice()
    }

    fn checked(
        subject: Subject,
        source_key: String,
        source_schema: Option<String>,
        entity_tag: Option<String>,
        observed_at: Option<Timestamp>,
        properties: Option<SortedMap>,
        properties_complete: bool,
        unresolved: Vec<UnresolvedReference>,
    ) -> (made: Result<ObservedResource, Invalid>)
        ensures
            reports(made, resource_fault(source_key@, optional_text(source_schema), optional_text(entity_tag), properties, unresolved@.len())),
            made matches Ok(r) ==> {
                &&& r.subject_of() == subject@
                &&& r.source_key_of() == source_key@
                &&& r.source_schema_of() == optional_text(source_schema)
                &&& r.entity_tag_of() == optional_text(entity_tag)
                &&& r.observed_at_of() == observed_at
                &&& r.properties_of() == properties
                &&& r.properties_complete_of() == properties_complete
                &&& r.unresolved_of() == Seq::new(unresolved@.len(), |i: int| unresolved@[i]@)
            },
    {
        match check_text("source_key", source_key.as_str(), OBSERVEDRESOURCE_SOURCE_KEY_MAX_LEN) {
            Ok(()) => {},
            Err(error) => {
                return Err(error);
            },
        }
        match check_optional_text("source_schema", &source_schema, OBSERVEDRESOURCE_SOURCE_SCHEMA_MAX_LEN) {
            Ok(()) => {},
            Err(error) => {
                return Err(error);
            },
        }
        match check_optional_text("entity_tag", &entity_tag, OBSERVEDRESOURCE_ENTITY_TAG_MAX_LEN) {
            Ok(()) => {},
            Err(error) => {
                return Err(error);
            },
        }
        match check_optional_map(&properties, "properties") {
            Ok(()) => {},
            Err(error) => {
                return Err(error);
            },
        }
        if let Some(violation) = too_many(unresolved.len(), OBSERVEDRESOURCE_UNRESOLVED_MAX_ITEMS) {
            return Err(Invalid::field("unresolved", violation));
        }
        Ok(ObservedResource {
            subject,
            source_key,
            source_schema,
            entity_tag,
            observed_at,
            properties,
            properties_complete,
            unresolved,
        })
    }
}

/// Builds an [`ObservedResource`]. Setters are infallible;
/// [`build`](ObservedResourceBuilder::build) validates everything at once,
/// exactly as decoding does.
#[derive(Debug)]
pub struct ObservedResourceBuilder {
    subject: Option<Subject>,
    source_key: Option<String>,
    source_schema: Option<String>,
    entity_tag: Option<String>,
    observed_at: Option<Timestamp>,
    properties: Option<SortedMap>,
    properties_complete: Option<bool>,
    unresolved: Vec<UnresolvedReference>,
}

impl ObservedResourceBuilder {
    pub closed spec fn subject_part(self) -> Option<SubjectView> {
        match self.subject {
            Some(s) => Some(s@),
            None => None,
        }
    }

    pub closed spec fn source_key_part(self) -> Option<Seq<char>> {
        optional_text(self.source_key)
    }

    pub closed spec fn source_schema_part(self) -> Option<Seq<char>> {
        optional_text(self.source_schema)
    }

    pub closed spec fn entity_tag_part(self) -> Option<Seq<char>> {
        optional_text(self.entity_tag)
    }

    pub closed spec fn observed_at_part(self) -> Option<Timestamp> {
        self.observed_at
    }

    pub closed spec fn properties_part(self) -> Option<SortedMap> {
        self.properties
    }

    pub closed spec fn properties_complete_part(self) -> Option<bool> {
        self.properties_complete
    }

    pub closed spec fn unresolved_part(self) -> Seq<(Seq<char>, Option<Seq<char>>)> {
        Seq::new(self.unresolved@.len(), |i: int| self.unresolved@[i]@)
    }

    /// Whether `other` holds the same parts as this builder, but for the one
    /// named by `field` (0 to 7, in declaration order).
    pub open spec fn same_except(self, other: ObservedResourceBuilder, field: int) -> bool {
        &&& (field != 0 ==> other.subject_part() == self.subject_part())
        &&& (field != 1 ==> other.source_key_part() == self.source_key_part())
        &&& (field != 2 ==> other.source_schema_part() == self.source_schema_part())
        &&& (field != 3 ==> other.entity_tag_part() == self.entity_tag_part())
        &&& (field != 4 ==> other.observed_at_part() == self.observed_at_part())
        &&& (field != 5 ==> other.properties_part() == self.properties_part())
        &&& (field != 6 ==> other.properties_complete_part() == self.properties_complete_part())
        &&& (field != 7 ==> other.unresolved_part() == self.unresolved_part())
    }

    /// Sets `subject`.
    pub fn subject(self, subject: Subject) -> (builder: ObservedResourceBuilder)
        ensures
            builder.subject_part() == Some(subject@),
            self.same_except(builder, 0),
    {
        ObservedResourceBuilder { subject: Some(subject), ..self }
    }

    /// Sets `source_key`.
    pub fn source_key(self, source_key: &str) -> (builder: ObservedResourceBuilder)
        ensures
            builder.source_key_part() == Some(source_key@),
            self.same_except(builder, 1),
    {
        ObservedResourceBuilder { source_key: Some(source_key.to_owned()), ..self }
    }

    /// Sets `source_schema`.
    pub fn source_schema(self, source_schema: &str) -> (builder: ObservedResourceBuilder)
        ensures
            builder.source_schema_part() == Some(source_schema@),
            self.same_except(builder, 2),
    {
        ObservedResourceBuilder { source_schema: Some(source_schema.to_owned()), ..self }
    }

    /// Sets `entity_tag`.
    pub fn entity_tag(self, entity_tag: &str) -> (builder: ObservedResourceBuilder)
        ensures
            builder.entity_tag_part() == Some(entity_tag@),
            self.same_except(builder, 3),
    {
        ObservedResourceBuilder { entity_tag: Some(entity_tag.to_owned()), ..self }
    }

    /// Sets `observed_at`.
    pub fn observed_at(self, observed_at: Timestamp) -> (builder: ObservedResourceBuilder)
        ensures
            builder.observed_at_part() == Some(observed_at),
            self.same_except(builder, 4),
    {
        ObservedResourceBuilder { observed_at: Some(observed_at), ..self }
    }

    /// Sets `properties`.
    pub fn properties(self, properties: SortedMap) -> (builder: ObservedResourceBuilder)
        ensures
            builder.properties_part() == Some(properties),
            self.same_except(builder, 5),
    {
        ObservedResourceBuilder { properties: Some(properties), ..self }
    }

    /// Sets `properties_complete`.
    pub fn properties_complete(self, properties_complete: bool) -> (builder: ObservedResourceBuilder)
        ensures
            builder.properties_complete_part() == Some(properties_complete),
            self.same_except(builder, 6),
    {
        ObservedResourceBuilder { properties_complete: Some(properties_complete), ..self }
    }

    /// Sets `unresolved`.
    pub fn unresolved(self, unresolved: Vec<UnresolvedReference>) -> (builder: ObservedResourceBuilder)
        ensures
            builder.unresolved_part() == Seq::new(unresolved@.len(), |i: int| unresolved@[i]@),
            self.same_except(builder, 7),
    {
        ObservedResourceBuilder { unresolved, ..self }
    }

    /// The fault building reports, if any: each absent required part in
    /// turn, then the resource's own checks.
    pub open spec fn fault(self) -> Option<Fault> {
        match (self.subject_part(), self.source_key_part(), self.properties_complete_part()) {
            (None, _, _) => Some(("subject"@, Violation::Absent)),
            (Some(_), None, _) => Some(("source_key"@, Violation::Absent)),
            (Some(_), Some(_), None) => Some(("properties_complete"@, Violation::Absent)),
            (Some(_), Some(source_key), Some(_)) => resource_fault(
                source_key,
                self.source_schema_part(),
                self.entity_tag_part(),
                self.properties_part(),
                self.unresolved_part().len(),
            ),
        }
    }

    /// Validates and builds.
    ///
    /// Returns [`Invalid`] naming the first field that is absent or breaks
    /// its schema invariants.
    pub fn build(self) -> (made: Result<ObservedResource, Invalid>)
        ensures
            reports(made, self.fault()),
            made matches Ok(r) ==> {
                &&& Some(r.subject_of()) == self.subject_part()
                &&& Some(r.source_key_of()) == self.source_key_part()
                &&& r.source_schema_of() == self.source_schema_part()
                &&& r.entity_tag_of() == self.entity_tag_part()
                &&& r.observed_at_of() == self.observed_at_part()
                &&& r.properties_of() == self.properties_part()
                &&& Some(r.properties_complete_of()) == self.properties_complete_part()
                &&& r.unresolved_of() == self.unresolved_part()
            },
    {
        let subject = match self.subject {
            Some(subject) => subject,
            None => {
                return Err(Invalid::field("subject", Violation::Absent));
            },
        };
        let source_key = match self.source_key {
            Some(source_key) => source_key,
            None => {
                return Err(Invalid::field("source_key", Violation::Absent));
            },
        };
        let properties_complete = match self.properties_complete {
            Some(complete) => complete,
            None => {
                return Err(Invalid::field("properties_complete", Violation::Absent));
            },
        };
        ObservedResource::checked(
            subject,
            source_key,
            self.source_schema,
            self.entity_tag,
            self.observed_at,
            self.properties,
            properties_complete,
            self.unresolved,
        )
    }
}

/// What decoding a wire reference reports, if anything.
pub open spec fn wire_reference_fault(wire: wire::UnresolvedReference) -> Option<Fault> {
    reference_parts_fault(optional_text(wire.location), optional_text(wire.property))
}

/// The view a wire reference decodes to.
pub open spec fn wire_reference_view(wire: wire::UnresolvedReference) -> (Seq<char>, Option<Seq<char>>) {
    (
        match wire.location {
            Some(location) => location@,
            None => Seq::empty(),
        },
        optional_text(wire.property),
    )
}

/// What decoding a wire resource reports, if anything: each field in
/// declaration order, then the resource's own checks.
pub open spec fn wire_resource_fault(wire: wire::ObservedResource) -> Option<Fault> {
    match wire.subject {
        None => Some(("subject"@, Violation::Absent)),
        Some(subject) => first_fault(
            fault_at("subject"@, wire_subject_fault(subject)),
            match wire.source_key {
                None => Some(("source_key"@, Violation::Absent)),
                Some(source_key) => first_fault(
                    optional_wire_timestamp_fault("observed_at"@, wire.observed_at),
                    first_fault(
                        optional_wire_map_fault("properties"@, wire.properties),
                        match wire.properties_complete {
                            None => Some(("properties_complete"@, Violation::Absent)),
                            Some(_) => first_fault(
                                items_fault(
                                    "unresolved"@,
                                    wire.unresolved@,
                                    |u: wire::UnresolvedReference| wire_reference_fault(u),
                                    0,
                                ),
                                first_fault(
                                    resource_texts_fault(source_key@, optional_text(wire.source_schema), optional_text(wire.entity_tag)),
                                    count_fault("unresolved"@, wire.unresolved@.len(), OBSERVEDRESOURCE_UNRESOLVED_MAX_ITEMS),
                                ),
                            ),
                        },
                    ),
                ),
            },
        ),
    }
}

/// Whether `resource` is what the wire resource `wire` stands for.
pub open spec fn resource_decodes(wire: wire::ObservedResource, resource: ObservedResource) -> bool {
    &&& wire.subject matches Some(subject) && subject_decodes(subject, resource.subject_of())
    &&& optional_text(wire.source_key) == Some(resource.source_key_of())
    &&& optional_text(wire.source_schema) == resource.source_schema_of()
    &&& optional_text(wire.entity_tag) == resource.entity_tag_of()
    &&& optional_timestamp_of_wire(wire.observed_at) == resource.observed_at_of()
    &&& optional_map_decodes(wire.properties, resource.properties_of())
    &&& wire.properties_complete == Some(resource.properties_complete_of())
    &&& resource.unresolved_of() == Seq::new(wire.unresolved@.len(), |i: int| wire_reference_view(wire.unresolved@[i]))
}

impl TryFrom<wire::ObservedResource> for ObservedResource {
    type Error = Invalid;

    fn try_from(wire: wire::ObservedResource) -> (made: Result<ObservedResource, Invalid>)
        ensures
            reports(made, wire_resource_fault(wire)),
            made matches Ok(r) ==> resource_decodes(wire, r),
    {
        let subject = match subject_from_wire("subject", wire.subject) {
            Ok(subject) => subject,
            Err(error) => {
                return Err(error);
            },
        };
        let source_key = match wire.source_key {
            Some(source_key) => source_key,
            None => {
                return Err(Invalid::field("source_key", Violation::Absent));
            },
        };
        let observed_at = match optional_timestamp_from("observed_at", wire.observed_at) {
            Ok(t) => t,
            Err(error) => {
                return Err(error);
            },
        };
        let properties = match optional_map_from_wire("properties", wire.properties) {
            Ok(properties) => properties,
            Err(error) => {
                return Err(error);
            },
        };
        proof {
            lemma_canonical_optional_map("properties"@, properties);
        }
        let properties_complete = match wire.properties_complete {
            Some(complete) => complete,
            None => {
                return Err(Invalid::field("properties_complete", Violation::Absent));
            },
        };
        let ghost ws = wire.unresolved@;
        let ghost check = |u: wire::UnresolvedReference| wire_reference_fault(u);
        let mut unresolved: Vec<UnresolvedReference> = Vec::new();
        for element in it: wire.unresolved.into_iter()
            invariant
                it.seq() == ws,
                ws == wire.unresolved@,
                wire.subject matches Some(s) && wire_subject_fault(s) is None,
                wire.source_key is Some,
                optional_wire_timestamp_fault("observed_at"@, wire.observed_at) is None,
                optional_wire_map_fault("properties"@, wire.properties) is None,
                wire.properties_complete is Some,
                unresolved@.len() == it.index(),
                it.index() <= ws.len(),
                check == (|u: wire::UnresolvedReference| wire_reference_fault(u)),
                forall|k: int| 0 <= k < it.index() ==> #[trigger] check(ws[k]) is None,
                forall|k: int| 0 <= k < it.index() ==> (#[trigger] unresolved@[k])@ == wire_reference_view(ws[k]),
        {
            let index = unresolved.len();
            proof {
                assert(element == ws[index as int]);
                lemma_items_fault_skip("unresolved"@, ws, check, 0, index as int);
            }
            match UnresolvedReference::try_from(element) {
                Ok(reference) => {
                    unresolved.push(reference);
                },
                Err(error) => {
                    return Err(error.at_index("unresolved", index));
                },
            }
        }
        proof {
            lemma_items_fault_skip("unresolved"@, ws, check, 0, ws.len() as int);
            assert(Seq::new(unresolved@.len(), |i: int| unresolved@[i]@) =~= Seq::new(ws.len(), |i: int| wire_reference_view(ws[i])));
        }
        ObservedResource::checked(
            subject,
            source_key,
            wire.source_schema,
            wire.entity_tag,
            observed_at,
            properties,
            properties_complete,
            unresolved,
        )
    }
}

impl vstd::std_specs::convert::TryFromSpecImpl<wire::ObservedResource> for ObservedResource {
    open spec fn obeys_try_from_spec() -> bool {
        false
    }

    open spec fn try_from_spec(wire: wire::ObservedResource) -> Result<ObservedResource, Invalid> {
        arbitrary()
    }
}

impl From<ObservedResource> for wire::ObservedResource {
    fn from(value: ObservedResource) -> (wire: wire::ObservedResource)
        ensures
            resource_decodes(wire, value),
            wire_resource_fault(wire) is None,
    {
        proof {
            use_type_invariant(&value);
        }
        if let Some(map) = &value.properties {
            proof {
                use_type_invariant(map);
            }
        }
        proof {
            lemma_optional_map_canonical(value.properties);
        }
        let ghost vs = value.unresolved@;
        let ghost check = |u: wire::UnresolvedReference| wire_reference_fault(u);
        let mut unresolved: Vec<wire::UnresolvedReference> = Vec::new();
        for reference in it: value.unresolved.into_iter()
            invariant
                it.seq() == vs,
                unresolved@.len() == it.index(),
                it.index() <= vs.len(),
                forall|k: int|
                    0 <= k < it.index() ==> wire_reference_view(#[trigger] unresolved@[k]) == vs[k]@ && wire_reference_fault(unresolved@[k])
                        is None,
        {
            proof {
                assert(reference == vs[unresolved@.len() as int]);
            }
            unresolved.push(wire::UnresolvedReference::from(reference));
        }
        let ghost ws = unresolved@;
        proof {
            assert forall|k: int| 0 <= k < ws.len() implies #[trigger] check(ws[k]) is None by {
                assert(wire_reference_fault(ws[k]) is None);
            }
            lemma_items_fault_skip("unresolved"@, ws, check, 0, ws.len() as int);
            assert(Seq::new(vs.len(), |i: int| vs[i]@) =~= Seq::new(ws.len(), |i: int| wire_reference_view(ws[i])));
        }
        wire::ObservedResource {
            subject: Some(wire::Subject::from(value.subject)),
            source_key: Some(value.source_key),
            source_schema: value.source_schema,
            entity_tag: value.entity_tag,
            observed_at: optional_timestamp_into(value.observed_at),
            properties: optional_map_into_wire(value.properties),
            properties_complete: Some(value.properties_complete),
            unresolved,
        }
    }
}

impl vstd::std_specs::convert::FromSpecImpl<ObservedResource> for wire::ObservedResource {
    open spec fn obeys_from_spec() -> bool {
        false
    }

    open spec fn from_spec(value: ObservedResource) -> wire::ObservedResource {
        arbitrary()
    }
}

// ------------------------------------------------------------ ResourceGraph

/// The view of a relation: its source, its target, and its kind.
pub type RelationView = (SubjectView, SubjectView, Seq<char>);

/// The subjects of resources, in order.
pub open spec fn resource_subjects(resources: Seq<ObservedResource>) -> Seq<SubjectView> {
    Seq::new(resources.len(), |i: int| resources[i].subject_of())
}

/// The views of relations, in order.
pub open spec fn relation_views(relations: Seq<ResourceRelation>) -> Seq<RelationView> {
    Seq::new(relations.len(), |i: int| (relations[i].source_of(), relations[i].target_of(), relations[i].kind_of()))
}

/// The sources of relation views, in order.
pub open spec fn relation_sources(relations: Seq<RelationView>) -> Seq<SubjectView> {
    Seq::new(relations.len(), |i: int| relations[i].0)
}

/// What is wrong with a graph, given its views, if anything: the resource
/// count, a subject held twice, the relation count, a relation held twice,
/// then the first relation whose source is not a resource of the graph.
pub open spec fn graph_fault(subjects: Seq<SubjectView>, relations: Seq<RelationView>) -> Option<Fault> {
    first_fault(
        count_fault("resources"@, subjects.len(), RESOURCEGRAPH_RESOURCES_MAX_ITEMS),
        first_fault(
            repeat_fault("resources"@, subjects, 0),
            first_fault(
                count_fault("relations"@, relations.len(), RESOURCEGRAPH_RELATIONS_MAX_ITEMS),
                first_fault(
                    repeat_fault("relations"@, relations, 0),
                    missing_fault("relations"@, RELATION_SOURCE_PRESENT, relation_sources(relations), subjects, 0),
                ),
            ),
        ),
    )
}

/// Validated form of the contract's `ResourceGraph`: resources, each subject
/// once, and relations, each at most once, all starting at one of the
/// resources.
#[derive(Debug, PartialEq, Eq)]
pub struct ResourceGraph {
    resources: Vec<ObservedResource>,
    relations: Vec<ResourceRelation>,
}

/// Whether two relations hold the same source, target and kind.
fn same_relation(a: &ResourceRelation, b: &ResourceRelation) -> (same: bool)
    ensures
        same == ((a.source_of(), a.target_of(), a.kind_of()) == (b.source_of(), b.target_of(), b.kind_of())),
{
    a.source().same(b.source()) && a.target().same(b.target()) && compare_text(a.kind(), b.kind()) == Order::Equal
}

/// Finds the first relation, in order, that an earlier one repeats.
fn check_distinct_relations(relations: &Vec<ResourceRelation>) -> (checked: Result<(), Invalid>)
    ensures
        reports(checked, repeat_fault("relations"@, relation_views(relations@), 0)),
{
    let ghost views = relation_views(relations@);
    let mut i: usize = 0;
    while i < relations.len()
        invariant
            0 <= i <= relations@.len(),
            views == relation_views(relations@),
            forall|k: int| 0 <= k < i ==> !#[trigger] repeats_earlier(views, k),
        decreases relations@.len() - i,
    {
        proof {
            lemma_repeat_fault_skip("relations"@, views, 0, i as int);
        }
        let mut j: usize = 0;
        while j < i
            invariant
                0 <= j <= i < relations@.len(),
                views == relation_views(relations@),
                repeat_fault("relations"@, views, 0) == repeat_fault("relations"@, views, i as int),
                forall|k: int| 0 <= k < i ==> !#[trigger] repeats_earlier(views, k),
                forall|k: int| 0 <= k < j ==> #[trigger] views[k] != views[i as int],
            decreases i - j,
        {
            if same_relation(&relations[j], &relations[i]) {
                proof {
                    assert(views[j as int] == views[i as int]);
                    assert(repeats_earlier(views, i as int));
                }
                return Err(Invalid::element("relations", i, Violation::Duplicate));
            }
            j = j + 1;
        }
        i = i + 1;
    }
    proof {
        lemma_repeat_fault_skip("relations"@, views, 0, relations@.len() as int);
    }
    Ok(())
}

/// Finds the first relation, in order, whose source no resource holds.
fn check_sources_present(subjects: &Vec<&Subject>, relations: &Vec<ResourceRelation>) -> (checked: Result<(), Invalid>)
    ensures
        reports(
            checked,
            missing_fault(
                "relations"@,
                RELATION_SOURCE_PRESENT,
                relation_sources(relation_views(relations@)),
                Seq::new(subjects@.len(), |i: int| subjects@[i]@),
                0,
            ),
        ),
{
    let ghost known = Seq::new(subjects@.len(), |i: int| subjects@[i]@);
    let ghost wanted = relation_sources(relation_views(relations@));
    let mut i: usize = 0;
    while i < relations.len()
        invariant
            0 <= i <= relations@.len(),
            known == Seq::new(subjects@.len(), |i: int| subjects@[i]@),
            wanted == relation_sources(relation_views(relations@)),
            forall|k: int| 0 <= k < i ==> known.contains(#[trigger] wanted[k]),
        decreases relations@.len() - i,
    {
        let mut j: usize = 0;
        let mut found = false;
        while j < subjects.len() && !found
            invariant
                0 <= j <= subjects@.len(),
                0 <= i < relations@.len(),
                known == Seq::new(subjects@.len(), |i: int| subjects@[i]@),
                wanted == relation_sources(relation_views(relations@)),
                found ==> known.contains(wanted[i as int]),
                !found ==> forall|k: int| 0 <= k < j ==> #[trigger] known[k] != wanted[i as int],
            decreases subjects@.len() - j,
        {
            if subjects[j].same(relations[i].source()) {
                proof {
                    assert(known[j as int] == wanted[i as int]);
                }
                found = true;
            }
            j = j + 1;
        }
        if !found {
            proof {
                lemma_missing_fault_skip("relations"@, RELATION_SOURCE_PRESENT, wanted, known, 0, i as int);
                assert(!known.contains(wanted[i as int]));
            }
            return Err(Invalid::element("relations", i, Violation::Rule(RELATION_SOURCE_PRESENT)));
        }
        i = i + 1;
    }
    proof {
        lemma_missing_fault_skip("relations"@, RELATION_SOURCE_PRESENT, wanted, known, 0, relations@.len() as int);
    }
    Ok(())
}

impl ResourceGraph {
    #[verifier::type_invariant]
    spec fn valid(self) -> bool {
        graph_fault(resource_subjects(self.resources@), relation_views(self.relations@)) is None
    }

    pub closed spec fn resources_of(self) -> Seq<ObservedResource> {
        self.resources@
    }

    pub closed spec fn relations_of(self) -> Seq<ResourceRelation> {
        self.relations@
    }

    /// A builder holding nothing yet.
    pub fn builder() -> (builder: ResourceGraphBuilder)
        ensures
            builder.resources_part().len() == 0,
            builder.relations_part().len() == 0,
    {
        ResourceGraphBuilder { resources: Vec::new(), relations: Vec::new() }
    }

    /// The `resources`.
    pub fn resources(&self) -> (resources: &[ObservedResource])
        ensures
            resources@ == self.resources_of(),
    {
        self.resources.as_slice()
    }

    /// The `relations`.
    pub fn relations(&self) -> (relations: &[ResourceRelation])
        ensures
            relations@ == self.relations_of(),
            graph_fault(resource_subjects(self.resources_of()), relation_views(self.relations_of())) is None,
    {
        proof {
            use_type_invariant(self);
        }
        self.relations.as_slice()
    }

    fn checked(resources: Vec<ObservedResource>, relations: Vec<ResourceRelation>) -> (made: Result<ResourceGraph, Invalid>)
        ensures
            reports(made, graph_fault(resource_subjects(resources@), relation_views(relations@))),
            made matches Ok(graph) ==> graph.resources_of() == resources@ && graph.relations_of() == relations@,
    {
        if let Some(violation) = too_many(resources.len(), RESOURCEGRAPH_RESOURCES_MAX_ITEMS) {
            return Err(Invalid::field("resources", violation));
        }
        let mut subjects: Vec<&Subject> = Vec::new();
        let mut i: usize = 0;
        while i < resources.len()
            invariant
                0 <= i <= resources@.len(),
                subjects@.len() == i,
                forall|k: int| 0 <= k < i ==> (#[trigger] subjects@[k])@ == resources@[k].subject_of(),
            decreases resources@.len() - i,
        {
            subjects.push(resources[i].subject());
            i = i + 1;
        }
        proof {
            assert(Seq::new(subjects@.len(), |i: int| subjects@[i]@) =~= resource_subjects(resources@));
        }
        match check_distinct_subjects("resources", &subjects) {
            Ok(()) => {},
            Err(error) => {
                return Err(error);
            },
        }
        if let Some(violation) = too_many(relations.len(), RESOURCEGRAPH_RELATIONS_MAX_ITEMS) {
            return Err(Invalid::field("relations", violation));
        }
        match check_distinct_relations(&relations) {
            Ok(()) => {},
            Err(error) => {
                return Err(error);
            },
        }
        match check_sources_present(&subjects, &relations) {
            Ok(()) => Ok(ResourceGraph { resources, relations }),
            Err(error) => Err(error),
        }
    }
}

/// Builds a [`ResourceGraph`]. Setters are infallible;
/// [`build`](ResourceGraphBuilder::build) validates everything at once,
/// exactly as decoding does.
#[derive(Debug)]
pub struct ResourceGraphBuilder {
    resources: Vec<ObservedResource>,
    relations: Vec<ResourceRelation>,
}

impl ResourceGraphBuilder {
    pub closed spec fn resources_part(self) -> Seq<ObservedResource> {
        self.resources@
    }

    pub closed spec fn relations_part(self) -> Seq<ResourceRelation> {
        self.relations@
    }

    /// Sets `resources`.
    pub fn resources(self, resources: Vec<ObservedResource>) -> (builder: ResourceGraphBuilder)
        ensures
            builder.resources_part() == resources@,
            builder.relations_part() == self.relations_part(),
    {
        ResourceGraphBuilder { resources, ..self }
    }

    /// Sets `relations`.
    pub fn relations(self, relations: Vec<ResourceRelation>) -> (builder: ResourceGraphBuilder)
        ensures
            builder.resources_part() == self.resources_part(),
            builder.relations_part() == relations@,
    {
        ResourceGraphBuilder { relations, ..self }
    }

    /// Validates and builds.
    ///
    /// Returns [`Invalid`] for too many resources or relations, naming the
    /// first resource whose subject an earlier one holds, the first relation
    /// an earlier one repeats, or the first relation whose source is not a
    /// resource of the graph.
    pub fn build(self) -> (made: Result<ResourceGraph, Invalid>)
        ensures
            reports(made, graph_fault(resource_subjects(self.resources_part()), relation_views(self.relations_part()))),
            made matches Ok(graph) ==> graph.resources_of() == self.resources_part() && graph.relations_of() == self.relations_part(),
    {
        ResourceGraph::checked(self.resources, self.relations)
    }
}

/// The subjects wire resources decode to.
pub open spec fn wire_resource_subjects(resources: Seq<wire::ObservedResource>) -> Seq<SubjectView> {
    Seq::new(
        resources.len(),
        |i: int|
            match resources[i].subject {
                Some(subject) => wire_subject_view(subject),
                None => (Seq::empty(), Seq::empty(), Seq::empty()),
            },
    )
}

/// The view a wire subject slot decodes to.
pub open spec fn wire_slot_view(subject: Option<wire::Subject>) -> SubjectView {
    match subject {
        Some(subject) => wire_subject_view(subject),
        None => (Seq::empty(), Seq::empty(), Seq::empty()),
    }
}

/// The views wire relations decode to.
pub open spec fn wire_relation_views(relations: Seq<wire::ResourceRelation>) -> Seq<RelationView> {
    Seq::new(
        relations.len(),
        |i: int|
            (
                wire_slot_view(relations[i].source),
                wire_slot_view(relations[i].target),
                match relations[i].kind {
                    Some(kind) => kind@,
                    None => Seq::empty(),
                },
            ),
    )
}

/// What decoding a wire graph reports, if anything: every resource in order,
/// every relation in order, then the graph's checks.
pub open spec fn wire_graph_fault(wire: wire::ResourceGraph) -> Option<Fault> {
    first_fault(
        items_fault("resources"@, wire.resources@, |r: wire::ObservedResource| wire_resource_fault(r), 0),
        first_fault(
            items_fault("relations"@, wire.relations@, |l: wire::ResourceRelation| wire_relation_fault(l), 0),
            graph_fault(wire_resource_subjects(wire.resources@), wire_relation_views(wire.relations@)),
        ),
    )
}

/// Whether `graph` is what the wire graph `wire` stands for.
pub open spec fn graph_decodes(wire: wire::ResourceGraph, graph: ResourceGraph) -> bool {
    &&& graph.resources_of().len() == wire.resources@.len()
    &&& forall|k: int| 0 <= k < wire.resources@.len() ==> resource_decodes(#[trigger] wire.resources@[k], graph.resources_of()[k])
    &&& graph.relations_of().len() == wire.relations@.len()
    &&& forall|k: int| 0 <= k < wire.relations@.len() ==> relation_decodes(#[trigger] wire.relations@[k], graph.relations_of()[k])
}

impl TryFrom<wire::ResourceGraph> for ResourceGraph {
    type Error = Invalid;

    fn try_from(wire: wire::ResourceGraph) -> (made: Result<ResourceGraph, Invalid>)
        ensures
            reports(made, wire_graph_fault(wire)),
            made matches Ok(graph) ==> graph_decodes(wire, graph),
    {
        let ghost wrs = wire.resources@;
        let ghost wls = wire.relations@;
        let ghost check_r = |r: wire::ObservedResource| wire_resource_fault(r);
        let ghost check_l = |l: wire::ResourceRelation| wire_relation_fault(l);
        let mut resources: Vec<ObservedResource> = Vec::new();
        for element in it: wire.resources.into_iter()
            invariant
                it.seq() == wrs,
                resources@.len() == it.index(),
                it.index() <= wrs.len(),
                check_r == (|r: wire::ObservedResource| wire_resource_fault(r)),
                forall|k: int| 0 <= k < it.index() ==> #[trigger] check_r(wrs[k]) is None,
                forall|k: int| 0 <= k < it.index() ==> resource_decodes(#[trigger] wrs[k], resources@[k]),
        {
            let index = resources.len();
            proof {
                assert(element == wrs[index as int]);
                lemma_items_fault_skip("resources"@, wrs, check_r, 0, index as int);
            }
            match ObservedResource::try_from(element) {
                Ok(r) => {
                    resources.push(r);
                },
                Err(error) => {
                    return Err(error.at_index("resources", index));
                },
            }
        }
        proof {
            lemma_items_fault_skip("resources"@, wrs, check_r, 0, wrs.len() as int);
        }
        let mut relations: Vec<ResourceRelation> = Vec::new();
        for element in it: wire.relations.into_iter()
            invariant
                it.seq() == wls,
                wrs == wire.resources@,
                wls == wire.relations@,
                relations@.len() == it.index(),
                it.index() <= wls.len(),
                check_l == (|l: wire::ResourceRelation| wire_relation_fault(l)),
                check_r == (|r: wire::ObservedResource| wire_resource_fault(r)),
                items_fault("resources"@, wrs, check_r, 0) is None,
                forall|k: int| 0 <= k < it.index() ==> #[trigger] check_l(wls[k]) is None,
                forall|k: int| 0 <= k < it.index() ==> relation_decodes(#[trigger] wls[k], relations@[k]),
        {
            let index = relations.len();
            proof {
                assert(element == wls[index as int]);
                lemma_items_fault_skip("relations"@, wls, check_l, 0, index as int);
            }
            match ResourceRelation::try_from(element) {
                Ok(l) => {
                    relations.push(l);
                },
                Err(error) => {
                    return Err(error.at_index("relations", index));
                },
            }
        }
        proof {
            lemma_items_fault_skip("relations"@, wls, check_l, 0, wls.len() as int);
            assert forall|k: int| 0 <= k < wrs.len() implies #[trigger] resource_subjects(resources@)[k] == wire_resource_subjects(wrs)[k] by {
                assert(resource_decodes(wrs[k], resources@[k]));
            }
            assert(resource_subjects(resources@) =~= wire_resource_subjects(wrs));
            assert forall|k: int| 0 <= k < wls.len() implies #[trigger] relation_views(relations@)[k] == wire_relation_views(wls)[k] by {
                assert(relation_decodes(wls[k], relations@[k]));
            }
            assert(relation_views(relations@) =~= wire_relation_views(wls));
        }
        ResourceGraph::checked(resources, relations)
    }
}

impl vstd::std_specs::convert::TryFromSpecImpl<wire::ResourceGraph> for ResourceGraph {
    open spec fn obeys_try_from_spec() -> bool {
        false
    }

    open spec fn try_from_spec(wire: wire::ResourceGraph) -> Result<ResourceGraph, Invalid> {
        arbitrary()
    }
}

impl From<ResourceGraph> for wire::ResourceGraph {
    fn from(value: ResourceGraph) -> (wire: wire::ResourceGraph)
        ensures
            graph_decodes(wire, value),
            wire_graph_fault(wire) is None,
    {
        proof {
            use_type_invariant(&value);
        }
        let ghost vrs = value.resources@;
        let ghost vls = value.relations@;
        let ghost check_r = |r: wire::ObservedResource| wire_resource_fault(r);
        let ghost check_l = |l: wire::ResourceRelation| wire_relation_fault(l);
        let mut resources: Vec<wire::ObservedResource> = Vec::new();
        for r in it: value.resources.into_iter()
            invariant
                it.seq() == vrs,
                resources@.len() == it.index(),
                it.index() <= vrs.len(),
                forall|k: int| 0 <= k < it.index() ==> resource_decodes(#[trigger] resources@[k], vrs[k]) && wire_resource_fault(resources@[k]) is None,
        {
            proof {
                assert(r == vrs[resources@.len() as int]);
            }
            resources.push(wire::ObservedResource::from(r));
        }
        let mut relations: Vec<wire::ResourceRelation> = Vec::new();
        for l in it: value.relations.into_iter()
            invariant
                it.seq() == vls,
                relations@.len() == it.index(),
                it.index() <= vls.len(),
                forall|k: int| 0 <= k < it.index() ==> relation_decodes(#[trigger] relations@[k], vls[k]) && wire_relation_fault(relations@[k]) is None,
        {
            proof {
                assert(l == vls[relations@.len() as int]);
            }
            relations.push(wire::ResourceRelation::from(l));
        }
        let ghost wrs = resources@;
        let ghost wls = relations@;
        proof {
            assert forall|k: int| 0 <= k < wrs.len() implies #[trigger] check_r(wrs[k]) is None by {
                assert(resource_decodes(wrs[k], vrs[k]));
            }
            lemma_items_fault_skip("resources"@, wrs, check_r, 0, wrs.len() as int);
            assert forall|k: int| 0 <= k < wls.len() implies #[trigger] check_l(wls[k]) is None by {
                assert(relation_decodes(wls[k], vls[k]));
            }
            lemma_items_fault_skip("relations"@, wls, check_l, 0, wls.len() as int);
            assert forall|k: int| 0 <= k < wrs.len() implies #[trigger] resource_subjects(vrs)[k] == wire_resource_subjects(wrs)[k] by {
                assert(resource_decodes(wrs[k], vrs[k]));
            }
            assert(resource_subjects(vrs) =~= wire_resource_subjects(wrs));
            assert forall|k: int| 0 <= k < wls.len() implies #[trigger] relation_views(vls)[k] == wire_relation_views(wls)[k] by {
                assert(relation_decodes(wls[k], vls[k]));
            }
            assert(relation_views(vls) =~= wire_relation_views(wls));
        }
        wire::ResourceGraph { resources, relations }
    }
}

impl vstd::std_specs::convert::FromSpecImpl<ResourceGraph> for wire::ResourceGraph {
    open spec fn obeys_from_spec() -> bool {
        false
    }

    open spec fn from_spec(value: ResourceGraph) -> wire::ResourceGraph {
        arbitrary()
    }
}

} // verus!
