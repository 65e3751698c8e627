//! Validated endpoint identity, log records, state observations and
//! inventory items, with the payload lists that carry them.

use vstd::prelude::*;

use crate::schema::enums::{Severity, severity_of, severity_of_number};
use crate::schema::identity::{Subject, optional_text, subject_decodes, wire_subject_fault, wire_subject_view};
use crate::schema::invalid::{
    Fault, Invalid, Violation, byte_len, check_optional_text, check_text, element_path, fault_at, first_fault, items_fault, length_fault,
    lemma_items_fault_skip, lemma_repeat_fault_skip, nested_path, optional_text_fault, repeat_fault, repeats_earlier, reports,
    text_fault, too_long, too_many,
};
use crate::schema::identity::count_fault;
use crate::schema::limits::{
    ENDPOINTCONTEXT_ENDPOINT_ID_MAX_LEN, INVENTORY_ITEMS_MAX_ITEMS, INVENTORYITEM_SOURCE_KEY_MAX_LEN, LOGRECORD_ENTRY_ID_MAX_LEN,
    LOGRECORD_MESSAGE_MAX_LEN, LOGS_RECORDS_MAX_ITEMS, STATEOBSERVATION_NAME_MAX_LEN, STATES_OBSERVATIONS_MAX_ITEMS,
};
use crate::schema::messages::{optional_subject, optional_subject_decodes, optional_subject_from, optional_wire_subject_fault};
use crate::schema::value::{Timestamp, timestamp_of_wire, wire_timestamp_fault};
use crate::schema::value_tree::{
    SortedMap, Value, check_optional_map, decodes, entries_canonical, lemma_bare_map_canonical, optional_map_decodes,
    optional_map_fault, optional_map_from_wire, optional_map_into_wire, optional_wire_map_fault, wire_value_fault,
};
use crate::schema::wire;
use crate::sort::strictly_sorted_by_key;

verus! {

/// An optional bare map reporting no fault is canonical.
pub(crate) proof fn lemma_optional_map_canonical(map: Option<SortedMap>)
    requires
        optional_map_fault("attributes"@, map) is None || optional_map_fault("properties"@, map) is None,
        map matches Some(m) ==> strictly_sorted_by_key(m.entries_of()),
    ensures
        map matches Some(m) ==> entries_canonical(m.entries_of()),
{
    if let Some(m) = map {
        lemma_bare_map_canonical("attributes"@, m);
        lemma_bare_map_canonical("properties"@, m);
    }
}

/// A canonical optional bare map reports no fault at any field.
pub(crate) proof fn lemma_canonical_optional_map(field: Seq<char>, map: Option<SortedMap>)
    requires
        map matches Some(m) ==> entries_canonical(m.entries_of()),
    ensures
        optional_map_fault(field, map) is None,
{
    if let Some(m) = map {
        lemma_bare_map_canonical(field, m);
    }
}

/// What decoding an optional wire instant inside `field` reports.
pub open spec fn optional_wire_timestamp_fault(field: Seq<char>, value: Option<wire::Timestamp>) -> Option<Fault> {
    match value {
        Some(t) => fault_at(field, wire_timestamp_fault(t)),
        None => None,
    }
}

/// The instant an optional wire instant stands for.
pub open spec fn optional_timestamp_of_wire(value: Option<wire::Timestamp>) -> Option<Timestamp> {
    match value {
        Some(t) => Some(timestamp_of_wire(t)),
        None => None,
    }
}

/// Decodes an optional wire instant, reporting a fault inside `field`.
pub fn optional_timestamp_from(field: &str, value: Option<wire::Timestamp>) -> (made: Result<Option<Timestamp>, Invalid>)
    ensures
        reports(made, optional_wire_timestamp_fault(field@, value)),
        made matches Ok(t) ==> t == optional_timestamp_of_wire(value),
{
    match value {
        Some(t) => match Timestamp::try_from(t) {
            Ok(t) => Ok(Some(t)),
            Err(error) => Err(error.at(field)),
        },
        None => Ok(None),
    }
}

/// Rebuilds an optional wire instant.
pub fn optional_timestamp_into(value: Option<Timestamp>) -> (w: Option<wire::Timestamp>)
    ensures
        optional_timestamp_of_wire(w) == value,
        optional_wire_timestamp_fault("observed_at"@, w) is None,
        optional_wire_timestamp_fault("occurred_at"@, w) is None,
{
    match value {
        Some(t) => Some(wire::Timestamp::from(t)),
        None => None,
    }
}

// --------------------------------------------------------- EndpointContext

/// What is wrong with an endpoint's fields, checked in order, if anything.
pub open spec fn endpoint_fault(endpoint_id: Seq<char>, attributes: Option<SortedMap>) -> Option<Fault> {
    first_fault(
        text_fault("endpoint_id"@, endpoint_id, ENDPOINTCONTEXT_ENDPOINT_ID_MAX_LEN),
        optional_map_fault("attributes"@, attributes),
    )
}

/// Validated form of the contract's `EndpointContext`: the endpoint's
/// identity and its static attributes.
#[derive(Debug, PartialEq, Eq)]
pub struct EndpointContext {
    endpoint_id: String,
    attributes: Option<SortedMap>,
}

impl EndpointContext {
    #[verifier::type_invariant]
    spec fn valid(self) -> bool {
        endpoint_fault(self.endpoint_id@, self.attributes) is None
    }

    /// The endpoint's identity.
    pub closed spec fn endpoint_id_of(self) -> Seq<char> {
        self.endpoint_id@
    }

    /// The endpoint's attributes.
    pub closed spec fn attributes_of(self) -> Option<SortedMap> {
        self.attributes
    }

    /// A builder holding nothing yet.
    pub fn builder() -> (builder: EndpointContextBuilder)
        ensures
            builder.endpoint_id_part() is None,
            builder.attributes_part() is None,
    {
        EndpointContextBuilder { endpoint_id: None, attributes: None }
    }

    /// The `endpoint_id`.
    pub fn endpoint_id(&self) -> (endpoint_id: &str)
        ensures
            endpoint_id@ == self.endpoint_id_of(),
    {
        self.endpoint_id.as_str()
    }

    /// The `attributes`, when present.
    pub fn attributes(&self) -> (attributes: Option<&SortedMap>)
        ensures
            match attributes {
                Some(map) => self.attributes_of() == Some(*map),
                None => self.attributes_of() is None,
            },
    {
        match &self.attributes {
            Some(map) => Some(map),
            None => None,
        }
    }

    fn checked(endpoint_id: String, attributes: Option<SortedMap>) -> (made: Result<EndpointContext, Invalid>)
        ensures
            reports(made, endpoint_fault(endpoint_id@, attributes)),
            made matches Ok(context) ==> context.endpoint_id_of() == endpoint_id@ && context.attributes_of() == attributes,
    {
        match check_text("endpoint_id", endpoint_id.as_str(), ENDPOINTCONTEXT_ENDPOINT_ID_MAX_LEN) {
            Ok(()) => {},
            Err(error) => {
                return Err(error);
            },
        }
        match check_optional_map(&attributes, "attributes") {
            Ok(()) => Ok(EndpointContext { endpoint_id, attributes }),
            Err(error) => Err(error),
        }
    }
}

/// Builds an [`EndpointContext`]. Setters are infallible;
/// [`build`](EndpointContextBuilder::build) validates everything at once,
/// exactly as decoding does.
#[derive(Debug)]
pub struct EndpointContextBuilder {
    endpoint_id: Option<String>,
    attributes: Option<SortedMap>,
}

impl EndpointContextBuilder {
    /// The identity set so far.
    pub closed spec fn endpoint_id_part(self) -> Option<Seq<char>> {
        optional_text(self.endpoint_id)
    }

    /// The attributes set so far.
    pub closed spec fn attributes_part(self) -> Option<SortedMap> {
        self.attributes
    }

    /// Sets `endpoint_id`.
    pub fn endpoint_id(self, endpoint_id: &str) -> (builder: EndpointContextBuilder)
        ensures
            builder.endpoint_id_part() == Some(endpoint_id@),
            builder.attributes_part() == self.attributes_part(),
    {
        EndpointContextBuilder { endpoint_id: Some(endpoint_id.to_owned()), ..self }
    }

    /// Sets `attributes`.
    pub fn attributes(self, attributes: SortedMap) -> (builder: EndpointContextBuilder)
        ensures
            builder.endpoint_id_part() == self.endpoint_id_part(),
            builder.attributes_part() == Some(attributes),
    {
        EndpointContextBuilder { attributes: Some(attributes), ..self }
    }

    /// Validates and builds.
    ///
    /// Returns [`Invalid`] naming the first field that is absent or breaks
    /// its schema invariants.
    pub fn build(self) -> (made: Result<EndpointContext, Invalid>)
        ensures
            reports(
                made,
                match self.endpoint_id_part() {
                    None => Some(("endpoint_id"@, Violation::Absent)),
                    Some(id) => endpoint_fault(id, self.attributes_part()),
                },
            ),
            made matches Ok(context) ==> Some(context.endpoint_id_of()) == self.endpoint_id_part() && context.attributes_of()
                == self.attributes_part(),
    {
        match self.endpoint_id {
            Some(endpoint_id) => EndpointContext::checked(endpoint_id, self.attributes),
            None => Err(Invalid::field("endpoint_id", Violation::Absent)),
        }
    }
}

/// What decoding a wire endpoint reports, if anything.
pub open spec fn wire_endpoint_fault(wire: wire::EndpointContext) -> Option<Fault> {
    match wire.endpoint_id {
        None => Some(("endpoint_id"@, Violation::Absent)),
        Some(id) => first_fault(
            optional_wire_map_fault("attributes"@, wire.attributes),
            text_fault("endpoint_id"@, id@, ENDPOINTCONTEXT_ENDPOINT_ID_MAX_LEN),
        ),
    }
}

/// Whether `context` is what the wire endpoint `wire` stands for.
pub open spec fn endpoint_decodes(wire: wire::EndpointContext, context: EndpointContext) -> bool {
    &&& optional_text(wire.endpoint_id) == Some(context.endpoint_id_of())
    &&& optional_map_decodes(wire.attributes, context.attributes_of())
}

impl TryFrom<wire::EndpointContext> for EndpointContext {
    type Error = Invalid;

    fn try_from(wire: wire::EndpointContext) -> (made: Result<EndpointContext, Invalid>)
        ensures
            reports(made, wire_endpoint_fault(wire)),
            made matches Ok(context) ==> endpoint_decodes(wire, context),
    {
        let endpoint_id = match wire.endpoint_id {
            Some(endpoint_id) => endpoint_id,
            None => {
                return Err(Invalid::field("endpoint_id", Violation::Absent));
            },
        };
        let attributes = match optional_map_from_wire("attributes", wire.attributes) {
            Ok(attributes) => attributes,
            Err(error) => {
                return Err(error);
            },
        };
        proof {
            lemma_canonical_optional_map("attributes"@, attributes);
        }
        EndpointContext::checked(endpoint_id, attributes)
    }
}

impl vstd::std_specs::convert::TryFromSpecImpl<wire::EndpointContext> for EndpointContext {
    open spec fn obeys_try_from_spec() -> bool {
        false
    }

    open spec fn try_from_spec(wire: wire::EndpointContext) -> Result<EndpointContext, Invalid> {
        arbitrary()
    }
}

impl From<EndpointContext> for wire::EndpointContext {
    fn from(value: EndpointContext) -> (wire: wire::EndpointContext)
        ensures
            endpoint_decodes(wire, value),
            wire_endpoint_fault(wire) is None,
    {
        proof {
            use_type_invariant(&value);
        }
        if let Some(map) = &value.attributes {
            proof {
                use_type_invariant(map);
            }
        }
        proof {
            lemma_optional_map_canonical(value.attributes);
        }
        wire::EndpointContext { endpoint_id: Some(value.endpoint_id), attributes: optional_map_into_wire(value.attributes) }
    }
}

impl vstd::std_specs::convert::FromSpecImpl<EndpointContext> for wire::EndpointContext {
    open spec fn obeys_from_spec() -> bool {
        false
    }

    open spec fn from_spec(value: EndpointContext) -> wire::EndpointContext {
        arbitrary()
    }
}

// ------------------------------------------------------------ InventoryItem

/// The view of a subject.
pub type SubjectView = (Seq<char>, Seq<Seq<char>>, Seq<char>);

/// What is wrong with an inventory item's own fields, checked in order.
pub open spec fn item_fault(attributes: Option<SortedMap>, source_key: Option<Seq<char>>) -> Option<Fault> {
    first_fault(
        optional_map_fault("attributes"@, attributes),
        optional_text_fault("source_key"@, source_key, INVENTORYITEM_SOURCE_KEY_MAX_LEN),
    )
}

/// Validated form of the contract's `InventoryItem`: one resource in an
/// inventory snapshot.
#[derive(Debug, PartialEq, Eq)]
pub struct InventoryItem {
    subject: Subject,
    attributes: Option<SortedMap>,
    source_key: Option<String>,
}

impl InventoryItem {
    #[verifier::type_invariant]
    spec fn valid(self) -> bool {
        item_fault(self.attributes, optional_text(self.source_key)) is None
    }

    /// The item's subject.
    pub closed spec fn subject_of(self) -> SubjectView {
        self.subject@
    }

    /// The item's attributes.
    pub closed spec fn attributes_of(self) -> Option<SortedMap> {
        self.attributes
    }

    /// Where the source reported the item.
    pub closed spec fn source_key_of(self) -> Option<Seq<char>> {
        optional_text(self.source_key)
    }

    /// A builder holding nothing yet.
    pub fn builder() -> (builder: InventoryItemBuilder)
        ensures
            builder.subject_part() is None,
            builder.attributes_part() is None,
            builder.source_key_part() is None,
    {
        InventoryItemBuilder { subject: None, attributes: None, source_key: None }
    }

    /// The `subject`.
    pub fn subject(&self) -> (subject: &Subject)
        ensures
            subject@ == self.subject_of(),
    {
        &self.subject
    }

    /// The `attributes`, when present.
    pub fn attributes(&self) -> (attributes: Option<&SortedMap>)
        ensures
            match attributes {
                Some(map) => self.attributes_of() == Some(*map),
                None => self.attributes_of() is None,
            },
    {
        match &self.attributes {
            Some(map) => Some(map),
            None => None,
        }
    }

    /// The `source_key`, when present.
    pub fn source_key(&self) -> (source_key: Option<&str>)
        ensures
            match source_key {
                Some(text) => self.source_key_of() == Some(text@),
                None => self.source_key_of() is None,
            },
    {
        match &self.source_key {
            Some(text) => Some(text.as_str()),
            None => None,
        }
    }

    fn checked(subject: Subject, attributes: Option<SortedMap>, source_key: Option<String>) -> (made: Result<InventoryItem, Invalid>)
        ensures
            reports(made, item_fault(attributes, optional_text(source_key))),
            made matches Ok(item) ==> item.subject_of() == subject@ && item.attributes_of() == attributes && item.source_key_of()
                == optional_text(source_key),
    {
        match check_optional_map(&attributes, "attributes") {
            Ok(()) => {},
            Err(error) => {
                return Err(error);
            },
        }
        match check_optional_text("source_key", &source_key, INVENTORYITEM_SOURCE_KEY_MAX_LEN) {
            Ok(()) => Ok(InventoryItem { subject, attributes, source_key }),
            Err(error) => Err(error),
        }
    }
}

/// Builds an [`InventoryItem`]. Setters are infallible;
/// [`build`](InventoryItemBuilder::build) validates everything at once,
/// exactly as decoding does.
#[derive(Debug)]
pub struct InventoryItemBuilder {
    subject: Option<Subject>,
    attributes: Option<SortedMap>,
    source_key: Option<String>,
}

impl InventoryItemBuilder {
    /// The subject set so far.
    pub closed spec fn subject_part(self) -> Option<SubjectView> {
        optional_subject(self.subject)
    }

    /// The attributes set so far.
    pub closed spec fn attributes_part(self) -> Option<SortedMap> {
        self.attributes
    }

    /// The source key set so far.
    pub closed spec fn source_key_part(self) -> Option<Seq<char>> {
        optional_text(self.source_key)
    }

    /// Sets `subject`.
    pub fn subject(self, subject: Subject) -> (builder: InventoryItemBuilder)
        ensures
            builder.subject_part() == Some(subject@),
            builder.attributes_part() == self.attributes_part(),
            builder.source_key_part() == self.source_key_part(),
    {
        InventoryItemBuilder { subject: Some(subject), ..self }
    }

    /// Sets `attributes`.
    pub fn attributes(self, attributes: SortedMap) -> (builder: InventoryItemBuilder)
        ensures
            builder.subject_part() == self.subject_part(),
            builder.attributes_part() == Some(attributes),
            builder.source_key_part() == self.source_key_part(),
    {
        InventoryItemBuilder { attributes: Some(attributes), ..self }
    }

    /// Sets `source_key`.
    pub fn source_key(self, source_key: &str) -> (builder: InventoryItemBuilder)
        ensures
            builder.subject_part() == self.subject_part(),
            builder.attributes_part() == self.attributes_part(),
            builder.source_key_part() == Some(source_key@),
    {
        InventoryItemBuilder { source_key: Some(source_key.to_owned()), ..self }
    }

    /// Validates and builds.
    ///
    /// Returns [`Invalid`] naming the first field that is absent or breaks
    /// its schema invariants.
    pub fn build(self) -> (made: Result<InventoryItem, Invalid>)
        ensures
            reports(
                made,
                match self.subject_part() {
                    None => Some(("subject"@, Violation::Absent)),
                    Some(_) => item_fault(self.attributes_part(), self.source_key_part()),
                },
            ),
            made matches Ok(item) ==> Some(item.subject_of()) == self.subject_part() && item.attributes_of() == self.attributes_part()
                && item.source_key_of() == self.source_key_part(),
    {
        match self.subject {
            Some(subject) => InventoryItem::checked(subject, self.attributes, self.source_key),
            None => Err(Invalid::field("subject", Violation::Absent)),
        }
    }
}

/// What decoding a wire inventory item reports, if anything.
pub open spec fn wire_item_fault(wire: wire::InventoryItem) -> Option<Fault> {
    match wire.subject {
        None => Some(("subject"@, Violation::Absent)),
        Some(subject) => first_fault(
            fault_at("subject"@, wire_subject_fault(subject)),
            first_fault(
                optional_wire_map_fault("attributes"@, wire.attributes),
                optional_text_fault("source_key"@, optional_text(wire.source_key), INVENTORYITEM_SOURCE_KEY_MAX_LEN),
            ),
        ),
    }
}

/// Whether `item` is what the wire item `wire` stands for.
pub open spec fn item_decodes(wire: wire::InventoryItem, item: InventoryItem) -> bool {
    &&& wire.subject matches Some(subject) && subject_decodes(subject, item.subject_of())
    &&& optional_map_decodes(wire.attributes, item.attributes_of())
    &&& optional_text(wire.source_key) == item.source_key_of()
}

/// Decodes an optional wire subject, reporting a fault inside `field`.
pub(crate) fn subject_from_wire(field: &str, subject: Option<wire::Subject>) -> (made: Result<Subject, Invalid>)
    ensures
        reports(
            made,
            match subject {
                None => Some((field@, Violation::Absent)),
                Some(s) => fault_at(field@, wire_subject_fault(s)),
            },
        ),
        made matches Ok(decoded) ==> subject matches Some(s) && subject_decodes(s, decoded@),
{
    match subject {
        Some(subject) => match Subject::try_from(subject) {
            Ok(subject) => Ok(subject),
            Err(error) => Err(error.at(field)),
        },
        None => Err(Invalid::field(field, Violation::Absent)),
    }
}

impl TryFrom<wire::InventoryItem> for InventoryItem {
    type Error = Invalid;

    fn try_from(wire: wire::InventoryItem) -> (made: Result<InventoryItem, Invalid>)
        ensures
            reports(made, wire_item_fault(wire)),
            made matches Ok(item) ==> item_decodes(wire, item),
    {
        let subject = match subject_from_wire("subject", wire.subject) {
            Ok(subject) => subject,
            Err(error) => {
                return Err(error);
            },
        };
        let attributes = match optional_map_from_wire("attributes", wire.attributes) {
            Ok(attributes) => attributes,
            Err(error) => {
                return Err(error);
            },
        };
        proof {
            lemma_canonical_optional_map("attributes"@, attributes);
        }
        InventoryItem::checked(subject, attributes, wire.source_key)
    }
}

impl vstd::std_specs::convert::TryFromSpecImpl<wire::InventoryItem> for InventoryItem {
    open spec fn obeys_try_from_spec() -> bool {
        false
    }

    open spec fn try_from_spec(wire: wire::InventoryItem) -> Result<InventoryItem, Invalid> {
        arbitrary()
    }
}

impl From<InventoryItem> for wire::InventoryItem {
    fn from(value: InventoryItem) -> (wire: wire::InventoryItem)
        ensures
            item_decodes(wire, value),
            wire_item_fault(wire) is None,
    {
        proof {
            use_type_invariant(&value);
        }
        if let Some(map) = &value.attributes {
            proof {
                use_type_invariant(map);
            }
        }
        proof {
            lemma_optional_map_canonical(value.attributes);
        }
        wire::InventoryItem {
            subject: Some(wire::Subject::from(value.subject)),
            attributes: optional_map_into_wire(value.attributes),
            source_key: value.source_key,
        }
    }
}

impl vstd::std_specs::convert::FromSpecImpl<InventoryItem> for wire::InventoryItem {
    open spec fn obeys_from_spec() -> bool {
        false
    }

    open spec fn from_spec(value: InventoryItem) -> wire::InventoryItem {
        arbitrary()
    }
}

// ---------------------------------------------------------------- Inventory

/// The subjects of inventory items, in order.
pub open spec fn item_subjects(items: Seq<InventoryItem>) -> Seq<SubjectView> {
    Seq::new(items.len(), |i: int| items[i].subject_of())
}

/// What is wrong with an inventory's items, if anything: their count, then
/// the first item naming a subject an earlier one names.
pub open spec fn inventory_fault(items: Seq<InventoryItem>) -> Option<Fault> {
    first_fault(count_fault("items"@, items.len(), INVENTORY_ITEMS_MAX_ITEMS), repeat_fault("items"@, item_subjects(items), 0))
}

/// Validated form of the contract's `Inventory`: resources in an inventory
/// snapshot, each subject at most once.
#[derive(Debug, PartialEq, Eq)]
pub struct Inventory {
    items: Vec<InventoryItem>,
}

/// Finds the first position, in order, whose subject an earlier position
/// holds; reports it as a duplicate element of `field`.
pub(crate) fn check_distinct_subjects(field: &str, subjects: &Vec<&Subject>) -> (checked: Result<(), Invalid>)
    ensures
        reports(checked, repeat_fault(field@, Seq::new(subjects@.len(), |i: int| subjects@[i]@), 0)),
{
    let ghost keys = Seq::new(subjects@.len(), |i: int| subjects@[i]@);
    let mut i: usize = 0;
    while i < subjects.len()
        invariant
            0 <= i <= subjects@.len(),
            keys == Seq::new(subjects@.len(), |i: int| subjects@[i]@),
            forall|k: int| 0 <= k < i ==> !#[trigger] repeats_earlier(keys, k),
        decreases subjects@.len() - i,
    {
        proof {
            lemma_repeat_fault_skip(field@, keys, 0, i as int);
        }
        let mut j: usize = 0;
        while j < i
            invariant
                0 <= j <= i < subjects@.len(),
                keys == Seq::new(subjects@.len(), |i: int| subjects@[i]@),
                repeat_fault(field@, keys, 0) == repeat_fault(field@, keys, i as int),
                forall|k: int| 0 <= k < i ==> !#[trigger] repeats_earlier(keys, k),
                forall|k: int| 0 <= k < j ==> #[trigger] keys[k] != keys[i as int],
            decreases i - j,
        {
            if subjects[j].same(subjects[i]) {
                proof {
                    assert(keys[j as int] == keys[i as int]);
                    assert(repeats_earlier(keys, i as int));
                }
                return Err(Invalid::element(field, i, Violation::Duplicate));
            }
            j = j + 1;
        }
        i = i + 1;
    }
    proof {
        lemma_repeat_fault_skip(field@, keys, 0, subjects@.len() as int);
    }
    Ok(())
}

impl Inventory {
    #[verifier::type_invariant]
    spec fn valid(self) -> bool {
        inventory_fault(self.items@) is None
    }

    /// The items, in order.
    pub closed spec fn items_of(self) -> Seq<InventoryItem> {
        self.items@
    }

    /// A builder holding nothing yet.
    pub fn builder() -> (builder: InventoryBuilder)
        ensures
            builder.items_part().len() == 0,
    {
        InventoryBuilder { items: Vec::new() }
    }

    /// The `items`.
    pub fn items(&self) -> (items: &[InventoryItem])
        ensures
            items@ == self.items_of(),
    {
        self.items.as_slice()
    }

    fn checked(items: Vec<InventoryItem>) -> (made: Result<Inventory, Invalid>)
        ensures
            reports(made, inventory_fault(items@)),
            made matches Ok(inventory) ==> inventory.items_of() == items@,
    {
        if let Some(violation) = too_many(items.len(), INVENTORY_ITEMS_MAX_ITEMS) {
            return Err(Invalid::field("items", violation));
        }
        let mut subjects: Vec<&Subject> = Vec::new();
        let mut i: usize = 0;
        while i < items.len()
            invariant
                0 <= i <= items@.len(),
                subjects@.len() == i,
                forall|k: int| 0 <= k < i ==> (#[trigger] subjects@[k])@ == items@[k].subject_of(),
            decreases items@.len() - i,
        {
            subjects.push(items[i].subject());
            i = i + 1;
        }
        proof {
            assert(Seq::new(subjects@.len(), |i: int| subjects@[i]@) =~= item_subjects(items@));
        }
        match check_distinct_subjects("items", &subjects) {
            Ok(()) => Ok(Inventory { items }),
            Err(error) => Err(error),
        }
    }
}

/// Builds an [`Inventory`]. Setters are infallible;
/// [`build`](InventoryBuilder::build) validates everything at once, exactly
/// as decoding does.
#[derive(Debug)]
pub struct InventoryBuilder {
    items: Vec<InventoryItem>,
}

impl InventoryBuilder {
    /// The items set so far.
    pub closed spec fn items_part(self) -> Seq<InventoryItem> {
        self.items@
    }

    /// Sets `items`.
    pub fn items(self, items: Vec<InventoryItem>) -> (builder: InventoryBuilder)
        ensures
            builder.items_part() == items@,
    {
        InventoryBuilder { items }
    }

    /// Validates and builds.
    ///
    /// Returns [`Invalid`] for too many items, or naming the first item whose
    /// subject an earlier item already names.
    pub fn build(self) -> (made: Result<Inventory, Invalid>)
        ensures
            reports(made, inventory_fault(self.items_part())),
            made matches Ok(inventory) ==> inventory.items_of() == self.items_part(),
    {
        Inventory::checked(self.items)
    }
}

/// The subjects wire items decode to.
pub open spec fn wire_item_subjects(items: Seq<wire::InventoryItem>) -> Seq<SubjectView> {
    Seq::new(
        items.len(),
        |i: int|
            match items[i].subject {
                Some(subject) => wire_subject_view(subject),
                None => (Seq::empty(), Seq::empty(), Seq::empty()),
            },
    )
}

/// What decoding a wire inventory reports, if anything: the items in
/// order, then their count and uniqueness.
pub open spec fn wire_inventory_fault(wire: wire::Inventory) -> Option<Fault> {
    first_fault(
        items_fault("items"@, wire.items@, |item: wire::InventoryItem| wire_item_fault(item), 0),
        first_fault(
            count_fault("items"@, wire.items@.len(), INVENTORY_ITEMS_MAX_ITEMS),
            repeat_fault("items"@, wire_item_subjects(wire.items@), 0),
        ),
    )
}

/// Whether `inventory` is what the wire inventory `wire` stands for.
pub open spec fn inventory_decodes(wire: wire::Inventory, inventory: Inventory) -> bool {
    &&& inventory.items_of().len() == wire.items@.len()
    &&& forall|k: int| 0 <= k < wire.items@.len() ==> item_decodes(#[trigger] wire.items@[k], inventory.items_of()[k])
}

impl TryFrom<wire::Inventory> for Inventory {
    type Error = Invalid;

    fn try_from(wire: wire::Inventory) -> (made: Result<Inventory, Invalid>)
        ensures
            reports(made, wire_inventory_fault(wire)),
            made matches Ok(inventory) ==> inventory_decodes(wire, inventory),
    {
        let ghost ws = wire.items@;
        let ghost check = |item: wire::InventoryItem| wire_item_fault(item);
        let mut items: Vec<InventoryItem> = Vec::new();
        for element in it: wire.items.into_iter()
            invariant
                it.seq() == ws,
                items@.len() == it.index(),
                it.index() <= ws.len(),
                check == (|item: wire::InventoryItem| wire_item_fault(item)),
                forall|k: int| 0 <= k < it.index() ==> #[trigger] check(ws[k]) is None,
                forall|k: int| 0 <= k < it.index() ==> item_decodes(#[trigger] ws[k], items@[k]),
        {
            let index = items.len();
            proof {
                assert(element == ws[index as int]);
                lemma_items_fault_skip("items"@, ws, check, 0, index as int);
            }
            match InventoryItem::try_from(element) {
                Ok(item) => {
                    items.push(item);
                },
                Err(error) => {
                    return Err(error.at_index("items", index));
                },
            }
        }
        proof {
            lemma_items_fault_skip("items"@, ws, check, 0, ws.len() as int);
            assert(item_subjects(items@) =~= wire_item_subjects(ws));
        }
        Inventory::checked(items)
    }
}

impl vstd::std_specs::convert::TryFromSpecImpl<wire::Inventory> for Inventory {
    open spec fn obeys_try_from_spec() -> bool {
        false
    }

    open spec fn try_from_spec(wire: wire::Inventory) -> Result<Inventory, Invalid> {
        arbitrary()
    }
}

impl From<Inventory> for wire::Inventory {
    fn from(value: Inventory) -> (wire: wire::Inventory)
        ensures
            inventory_decodes(wire, value),
            wire_inventory_fault(wire) is None,
    {
        proof {
            use_type_invariant(&value);
        }
        let ghost vs = value.items@;
        let ghost check = |item: wire::InventoryItem| wire_item_fault(item);
        let mut out: Vec<wire::InventoryItem> = Vec::new();
        for item in it: value.items.into_iter()
            invariant
                it.seq() == vs,
                out@.len() == it.index(),
                it.index() <= vs.len(),
                forall|k: int| 0 <= k < it.index() ==> item_decodes(#[trigger] out@[k], vs[k]) && wire_item_fault(out@[k]) is None,
        {
            proof {
                assert(item == vs[out@.len() as int]);
            }
            out.push(wire::InventoryItem::from(item));
        }
        let ghost ws = out@;
        proof {
            assert forall|k: int| 0 <= k < ws.len() implies #[trigger] check(ws[k]) is None by {
                assert(item_decodes(ws[k], vs[k]));
            }
            lemma_items_fault_skip("items"@, ws, check, 0, ws.len() as int);
            assert forall|k: int| 0 <= k < ws.len() implies #[trigger] wire_item_subjects(ws)[k] == item_subjects(vs)[k] by {
                assert(item_decodes(ws[k], vs[k]));
            }
            assert(wire_item_subjects(ws) =~= item_subjects(vs));
        }
        wire::Inventory { items: out }
    }
}

impl vstd::std_specs::convert::FromSpecImpl<Inventory> for wire::Inventory {
    open spec fn obeys_from_spec() -> bool {
        false
    }

    open spec fn from_spec(value: Inventory) -> wire::Inventory {
        arbitrary()
    }
}

// ---------------------------------------------------------------- LogRecord

/// What the wire number of a severity reports, if anything.
pub open spec fn wire_severity_fault(number: Option<i32>) -> Option<Fault> {
    match number {
        Some(n) => match severity_of(n) {
            Err(violation) => Some(("severity"@, violation)),
            Ok(_) => None,
        },
        None => None,
    }
}

/// Whether an optional severity is what an optional wire number stands for.
pub open spec fn severity_decodes(number: Option<i32>, severity: Option<Severity>) -> bool {
    match (number, severity) {
        (None, None) => true,
        (Some(n), Some(s)) => severity_of(n) == Ok::<Severity, Violation>(s),
        _ => false,
    }
}

/// Whether a severity re-decodes to itself: every named one does, and an
/// unrecognized number does unless it is zero or a named one's number.
pub open spec fn severity_canonical(severity: Option<Severity>) -> bool {
    match severity {
        Some(s) => severity_of(severity_of_number(s)) == Ok::<Severity, Violation>(s),
        None => true,
    }
}

/// What is wrong with a log record's message and entry id, checked in order.
pub open spec fn log_text_fault(message: Seq<char>, entry_id: Option<Seq<char>>) -> Option<Fault> {
    first_fault(
        match length_fault(byte_len(message), LOGRECORD_MESSAGE_MAX_LEN) {
            Some(violation) => Some(("message"@, violation)),
            None => None,
        },
        optional_text_fault("entry_id"@, entry_id, LOGRECORD_ENTRY_ID_MAX_LEN),
    )
}

/// What is wrong with a log record's fields, checked in order, if anything.
pub open spec fn log_fault(message: Seq<char>, entry_id: Option<Seq<char>>, attributes: Option<SortedMap>) -> Option<Fault> {
    first_fault(log_text_fault(message, entry_id), optional_map_fault("attributes"@, attributes))
}

/// Validated form of the contract's `LogRecord`: one source log entry.
#[derive(Debug, PartialEq, Eq)]
pub struct LogRecord {
    occurred_at: Option<Timestamp>,
    severity: Option<Severity>,
    message: String,
    subject: Option<Subject>,
    entry_id: Option<String>,
    attributes: Option<SortedMap>,
}

impl LogRecord {
    #[verifier::type_invariant]
    spec fn valid(self) -> bool {
        log_fault(self.message@, optional_text(self.entry_id), self.attributes) is None
    }

    /// When the entry occurred, if the source said.
    pub closed spec fn occurred_at_of(self) -> Option<Timestamp> {
        self.occurred_at
    }

    /// The entry's severity, if the source said.
    pub closed spec fn severity_value(self) -> Option<Severity> {
        self.severity
    }

    /// The entry's text.
    pub closed spec fn message_of(self) -> Seq<char> {
        self.message@
    }

    /// The subject the entry is about, if any.
    pub closed spec fn subject_of(self) -> Option<SubjectView> {
        optional_subject(self.subject)
    }

    /// The source's identity for the entry, if any.
    pub closed spec fn entry_id_of(self) -> Option<Seq<char>> {
        optional_text(self.entry_id)
    }

    /// The entry's attributes, if any.
    pub closed spec fn attributes_of(self) -> Option<SortedMap> {
        self.attributes
    }

    /// A builder holding nothing yet.
    pub fn builder() -> (builder: LogRecordBuilder)
        ensures
            builder.occurred_at_part() is None,
            builder.severity_part() is None,
            builder.message_part() is None,
            builder.subject_part() is None,
            builder.entry_id_part() is None,
            builder.attributes_part() is None,
    {
        LogRecordBuilder { occurred_at: None, severity: None, message: None, subject: None, entry_id: None, attributes: None }
    }

    /// The `occurred_at`, when present.
    pub fn occurred_at(&self) -> (occurred_at: Option<&Timestamp>)
        ensures
            match occurred_at {
                Some(t) => self.occurred_at_of() == Some(*t),
                None => self.occurred_at_of() is None,
            },
    {
        match &self.occurred_at {
            Some(t) => Some(t),
            None => None,
        }
    }

    /// The `severity`, when present.
    pub fn severity(&self) -> (severity: Option<Severity>)
        ensures
            severity == self.severity_value(),
    {
        self.severity
    }

    /// The `message`.
    pub fn message(&self) -> (message: &str)
        ensures
            message@ == self.message_of(),
    {
        self.message.as_str()
    }

    /// The `subject`, when present.
    pub fn subject(&self) -> (subject: Option<&Subject>)
        ensures
            match subject {
                Some(s) => self.subject_of() == Some(s@),
                None => self.subject_of() is None,
            },
    {
        match &self.subject {
            Some(s) => Some(s),
            None => None,
        }
    }

    /// The `entry_id`, when present.
    pub fn entry_id(&self) -> (entry_id: Option<&str>)
        ensures
            match entry_id {
                Some(text) => self.entry_id_of() == Some(text@),
                None => self.entry_id_of() is None,
            },
    {
        match &self.entry_id {
            Some(text) => Some(text.as_str()),
            None => None,
        }
    }

    /// The `attributes`, when present.
    pub fn attributes(&self) -> (attributes: Option<&SortedMap>)
        ensures
            match attributes {
                Some(map) => self.attributes_of() == Some(*map),
                None => self.attributes_of() is None,
            },
    {
        match &self.attributes {
            Some(map) => Some(map),
            None => None,
        }
    }

    fn checked(
        occurred_at: Option<Timestamp>,
        severity: Option<Severity>,
        message: String,
        subject: Option<Subject>,
        entry_id: Option<String>,
        attributes: Option<SortedMap>,
    ) -> (made: Result<LogRecord, Invalid>)
        ensures
            reports(made, log_fault(message@, optional_text(entry_id), attributes)),
            made matches Ok(record) ==> {
                &&& record.occurred_at_of() == occurred_at
                &&& record.severity_value() == severity
                &&& record.message_of() == message@
                &&& record.subject_of() == optional_subject(subject)
                &&& record.entry_id_of() == optional_text(entry_id)
                &&& record.attributes_of() == attributes
            },
    {
        if let Some(violation) = too_long(message.as_str().len(), LOGRECORD_MESSAGE_MAX_LEN) {
            return Err(Invalid::field("message", violation));
        }
        match check_optional_text("entry_id", &entry_id, LOGRECORD_ENTRY_ID_MAX_LEN) {
            Ok(()) => {},
            Err(error) => {
                return Err(error);
            },
        }
        match check_optional_map(&attributes, "attributes") {
            Ok(()) => Ok(LogRecord { occurred_at, severity, message, subject, entry_id, attributes }),
            Err(error) => Err(error),
        }
    }
}

/// Builds a [`LogRecord`]. Setters are infallible;
/// [`build`](LogRecordBuilder::build) validates everything at once, exactly
/// as decoding does.
#[derive(Debug)]
pub struct LogRecordBuilder {
    occurred_at: Option<Timestamp>,
    severity: Option<Severity>,
    message: Option<String>,
    subject: Option<Subject>,
    entry_id: Option<String>,
    attributes: Option<SortedMap>,
}

impl LogRecordBuilder {
    pub closed spec fn occurred_at_part(self) -> Option<Timestamp> {
        self.occurred_at
    }

    pub closed spec fn severity_part(self) -> Option<Severity> {
        self.severity
    }

    pub closed spec fn message_part(self) -> Option<Seq<char>> {
        optional_text(self.message)
    }

    pub closed spec fn subject_part(self) -> Option<SubjectView> {
        optional_subject(self.subject)
    }

    pub closed spec fn entry_id_part(self) -> Option<Seq<char>> {
        optional_text(self.entry_id)
    }

    pub closed spec fn attributes_part(self) -> Option<SortedMap> {
        self.attributes
    }

    /// Whether `other` holds the same parts as this builder, but for the
    /// one named by `field` (0 to 5, in declaration order).
    pub open spec fn same_except(self, other: LogRecordBuilder, field: int) -> bool {
        &&& (field != 0 ==> other.occurred_at_part() == self.occurred_at_part())
        &&& (field != 1 ==> other.severity_part() == self.severity_part())
        &&& (field != 2 ==> other.message_part() == self.message_part())
        &&& (field != 3 ==> other.subject_part() == self.subject_part())
        &&& (field != 4 ==> other.entry_id_part() == self.entry_id_part())
        &&& (field != 5 ==> other.attributes_part() == self.attributes_part())
    }

    /// Sets `occurred_at`.
    pub fn occurred_at(self, occurred_at: Timestamp) -> (builder: LogRecordBuilder)
        ensures
            builder.occurred_at_part() == Some(occurred_at),
            self.same_except(builder, 0),
    {
        LogRecordBuilder { occurred_at: Some(occurred_at), ..self }
    }

    /// Sets `severity`.
    pub fn severity(self, severity: Severity) -> (builder: LogRecordBuilder)
        ensures
            builder.severity_part() == Some(severity),
            self.same_except(builder, 1),
    {
        LogRecordBuilder { severity: Some(severity), ..self }
    }

    /// Sets `message`.
    pub fn message(self, message: &str) -> (builder: LogRecordBuilder)
        ensures
            builder.message_part() == Some(message@),
            self.same_except(builder, 2),
    {
        LogRecordBuilder { message: Some(message.to_owned()), ..self }
    }

    /// Sets `subject`.
    pub fn subject(self, subject: Subject) -> (builder: LogRecordBuilder)
        ensures
            builder.subject_part() == Some(subject@),
            self.same_except(builder, 3),
    {
        LogRecordBuilder { subject: Some(subject), ..self }
    }

    /// Sets `entry_id`.
    pub fn entry_id(self, entry_id: &str) -> (builder: LogRecordBuilder)
        ensures
            builder.entry_id_part() == Some(entry_id@),
            self.same_except(builder, 4),
    {
        LogRecordBuilder { entry_id: Some(entry_id.to_owned()), ..self }
    }

    /// Sets `attributes`.
    pub fn attributes(self, attributes: SortedMap) -> (builder: LogRecordBuilder)
        ensures
            builder.attributes_part() == Some(attributes),
            self.same_except(builder, 5),
    {
        LogRecordBuilder { attributes: Some(attributes), ..self }
    }

    /// Validates and builds.
    ///
    /// Returns [`Invalid`] naming the first field that is absent or breaks
    /// its schema invariants.
    pub fn build(self) -> (made: Result<LogRecord, Invalid>)
        ensures
            reports(
                made,
                match self.message_part() {
                    None => Some(("message"@, Violation::Absent)),
                    Some(message) => log_fault(message, self.entry_id_part(), self.attributes_part()),
                },
            ),
            made matches Ok(record) ==> {
                &&& record.occurred_at_of() == self.occurred_at_part()
                &&& record.severity_value() == self.severity_part()
                &&& Some(record.message_of()) == self.message_part()
                &&& record.subject_of() == self.subject_part()
                &&& record.entry_id_of() == self.entry_id_part()
                &&& record.attributes_of() == self.attributes_part()
            },
    {
        match self.message {
            Some(message) => LogRecord::checked(self.occurred_at, self.severity, message, self.subject, self.entry_id, self.attributes),
            None => Err(Invalid::field("message", Violation::Absent)),
        }
    }
}

/// What decoding a wire log record reports, if anything: each field in
/// declaration order, then the record's own checks.
pub open spec fn wire_log_fault(wire: wire::LogRecord) -> Option<Fault> {
    first_fault(
        optional_wire_timestamp_fault("occurred_at"@, wire.occurred_at),
        first_fault(
            wire_severity_fault(wire.severity),
            match wire.message {
                None => Some(("message"@, Violation::Absent)),
                Some(message) => first_fault(
                    optional_wire_subject_fault("subject"@, wire.subject),
                    first_fault(
                        optional_wire_map_fault("attributes"@, wire.attributes),
                        log_text_fault(message@, optional_text(wire.entry_id)),
                    ),
                ),
            },
        ),
    )
}

/// Whether `record` is what the wire record `wire` stands for.
pub open spec fn log_decodes(wire: wire::LogRecord, record: LogRecord) -> bool {
    &&& optional_timestamp_of_wire(wire.occurred_at) == record.occurred_at_of()
    &&& severity_decodes(wire.severity, record.severity_value())
    &&& optional_text(wire.message) == Some(record.message_of())
    &&& optional_subject_decodes(wire.subject, record.subject_of())
    &&& optional_text(wire.entry_id) == record.entry_id_of()
    &&& optional_map_decodes(wire.attributes, record.attributes_of())
}

/// Decodes an optional wire severity.
fn severity_from_wire(number: Option<i32>) -> (made: Result<Option<Severity>, Invalid>)
    ensures
        reports(made, wire_severity_fault(number)),
        made matches Ok(severity) ==> severity_decodes(number, severity),
{
    match number {
        Some(n) => match Severity::try_from(n) {
            Ok(severity) => Ok(Some(severity)),
            Err(violation) => Err(Invalid::field("severity", violation)),
        },
        None => Ok(None),
    }
}

impl TryFrom<wire::LogRecord> for LogRecord {
    type Error = Invalid;

    fn try_from(wire: wire::LogRecord) -> (made: Result<LogRecord, Invalid>)
        ensures
            reports(made, wire_log_fault(wire)),
            made matches Ok(record) ==> log_decodes(wire, record),
    {
        let occurred_at = match optional_timestamp_from("occurred_at", wire.occurred_at) {
            Ok(t) => t,
            Err(error) => {
                return Err(error);
            },
        };
        let severity = match severity_from_wire(wire.severity) {
            Ok(severity) => severity,
            Err(error) => {
                return Err(error);
            },
        };
        let message = match wire.message {
            Some(message) => message,
            None => {
                return Err(Invalid::field("message", Violation::Absent));
            },
        };
        let subject = match optional_subject_from("subject", wire.subject) {
            Ok(subject) => subject,
            Err(error) => {
                return Err(error);
            },
        };
        let attributes = match optional_map_from_wire("attributes", wire.attributes) {
            Ok(attributes) => attributes,
            Err(error) => {
                return Err(error);
            },
        };
        proof {
            lemma_canonical_optional_map("attributes"@, attributes);
        }
        LogRecord::checked(occurred_at, severity, message, subject, wire.entry_id, attributes)
    }
}

impl vstd::std_specs::convert::TryFromSpecImpl<wire::LogRecord> for LogRecord {
    open spec fn obeys_try_from_spec() -> bool {
        false
    }

    open spec fn try_from_spec(wire: wire::LogRecord) -> Result<LogRecord, Invalid> {
        arbitrary()
    }
}

/// Rebuilds an optional wire subject.
pub(crate) fn optional_subject_into(subject: Option<Subject>) -> (w: Option<wire::Subject>)
    ensures
        optional_subject_decodes(w, optional_subject(subject)),
        optional_wire_subject_fault("subject"@, w) is None,
{
    match subject {
        Some(subject) => Some(wire::Subject::from(subject)),
        None => None,
    }
}

impl From<LogRecord> for wire::LogRecord {
    /// The wire form. A severity re-decodes to itself unless it is an
    /// unrecognized number equal to zero or to a named severity's number.
    fn from(value: LogRecord) -> (wire: wire::LogRecord)
        ensures
            severity_canonical(value.severity_value()) ==> log_decodes(wire, value) && wire_log_fault(wire) is None,
    {
        proof {
            use_type_invariant(&value);
        }
        if let Some(map) = &value.attributes {
            proof {
                use_type_invariant(map);
            }
        }
        proof {
            lemma_optional_map_canonical(value.attributes);
        }
        let severity = match value.severity {
            Some(severity) => Some(i32::from(severity)),
            None => None,
        };
        wire::LogRecord {
            occurred_at: optional_timestamp_into(value.occurred_at),
            severity,
            message: Some(value.message),
            subject: optional_subject_into(value.subject),
            entry_id: value.entry_id,
            attributes: optional_map_into_wire(value.attributes),
        }
    }
}

impl vstd::std_specs::convert::FromSpecImpl<LogRecord> for wire::LogRecord {
    open spec fn obeys_from_spec() -> bool {
        false
    }

    open spec fn from_spec(value: LogRecord) -> wire::LogRecord {
        arbitrary()
    }
}

// --------------------------------------------------------------------- Logs

/// What is wrong with a log payload's records, if anything.
pub open spec fn logs_fault(records: Seq<LogRecord>) -> Option<Fault> {
    count_fault("records"@, records.len(), LOGS_RECORDS_MAX_ITEMS)
}

/// Validated form of the contract's `Logs`: a payload of log records, in
/// source order.
#[derive(Debug, PartialEq, Eq)]
pub struct Logs {
    records: Vec<LogRecord>,
}

impl Logs {
    #[verifier::type_invariant]
    spec fn valid(self) -> bool {
        logs_fault(self.records@) is None
    }

    /// The records, in order.
    pub closed spec fn records_of(self) -> Seq<LogRecord> {
        self.records@
    }

    /// A builder holding nothing yet.
    pub fn builder() -> (builder: LogsBuilder)
        ensures
            builder.records_part().len() == 0,
    {
        LogsBuilder { records: Vec::new() }
    }

    /// The `records`.
    pub fn records(&self) -> (records: &[LogRecord])
        ensures
            records@ == self.records_of(),
    {
        self.records.as_slice()
    }

    fn checked(records: Vec<LogRecord>) -> (made: Result<Logs, Invalid>)
        ensures
            reports(made, logs_fault(records@)),
            made matches Ok(logs) ==> logs.records_of() == records@,
    {
        match too_many(records.len(), LOGS_RECORDS_MAX_ITEMS) {
            Some(violation) => Err(Invalid::field("records", violation)),
            None => Ok(Logs { records }),
        }
    }
}

/// Builds a [`Logs`] payload. Setters are infallible;
/// [`build`](LogsBuilder::build) validates everything at once, exactly as
/// decoding does.
#[derive(Debug)]
pub struct LogsBuilder {
    records: Vec<LogRecord>,
}

impl LogsBuilder {
    /// The records set so far.
    pub closed spec fn records_part(self) -> Seq<LogRecord> {
        self.records@
    }

    /// Sets `records`.
    pub fn records(self, records: Vec<LogRecord>) -> (builder: LogsBuilder)
        ensures
            builder.records_part() == records@,
    {
        LogsBuilder { records }
    }

    /// Validates and builds.
    ///
    /// Returns [`Invalid`] if there are more records than the schema allows.
    pub fn build(self) -> (made: Result<Logs, Invalid>)
        ensures
            reports(made, logs_fault(self.records_part())),
            made matches Ok(logs) ==> logs.records_of() == self.records_part(),
    {
        Logs::checked(self.records)
    }
}

/// What decoding a wire log payload reports, if anything: the records in
/// order, then their count.
pub open spec fn wire_logs_fault(wire: wire::Logs) -> Option<Fault> {
    first_fault(
        items_fault("records"@, wire.records@, |record: wire::LogRecord| wire_log_fault(record), 0),
        count_fault("records"@, wire.records@.len(), LOGS_RECORDS_MAX_ITEMS),
    )
}

/// Whether `logs` is what the wire payload `wire` stands for.
pub open spec fn logs_decodes(wire: wire::Logs, logs: Logs) -> bool {
    &&& logs.records_of().len() == wire.records@.len()
    &&& forall|k: int| 0 <= k < wire.records@.len() ==> log_decodes(#[trigger] wire.records@[k], logs.records_of()[k])
}

impl TryFrom<wire::Logs> for Logs {
    type Error = Invalid;

    fn try_from(wire: wire::Logs) -> (made: Result<Logs, Invalid>)
        ensures
            reports(made, wire_logs_fault(wire)),
            made matches Ok(logs) ==> logs_decodes(wire, logs),
    {
        let ghost ws = wire.records@;
        let ghost check = |record: wire::LogRecord| wire_log_fault(record);
        let mut records: Vec<LogRecord> = Vec::new();
        for element in it: wire.records.into_iter()
            invariant
                it.seq() == ws,
                records@.len() == it.index(),
                it.index() <= ws.len(),
                check == (|record: wire::LogRecord| wire_log_fault(record)),
                forall|k: int| 0 <= k < it.index() ==> #[trigger] check(ws[k]) is None,
                forall|k: int| 0 <= k < it.index() ==> log_decodes(#[trigger] ws[k], records@[k]),
        {
            let index = records.len();
            proof {
                assert(element == ws[index as int]);
                lemma_items_fault_skip("records"@, ws, check, 0, index as int);
            }
            match LogRecord::try_from(element) {
                Ok(record) => {
                    records.push(record);
                },
                Err(error) => {
                    return Err(error.at_index("records", index));
                },
            }
        }
        proof {
            lemma_items_fault_skip("records"@, ws, check, 0, ws.len() as int);
        }
        Logs::checked(records)
    }
}

impl vstd::std_specs::convert::TryFromSpecImpl<wire::Logs> for Logs {
    open spec fn obeys_try_from_spec() -> bool {
        false
    }

    open spec fn try_from_spec(wire: wire::Logs) -> Result<Logs, Invalid> {
        arbitrary()
    }
}

impl From<Logs> for wire::Logs {
    /// The wire form; it re-decodes to the same records whenever every
    /// severity is canonical.
    fn from(value: Logs) -> (wire: wire::Logs)
        ensures
            (forall|k: int| 0 <= k < value.records_of().len() ==> severity_canonical(#[trigger] value.records_of()[k].severity_value()))
                ==> logs_decodes(wire, value) && wire_logs_fault(wire) is None,
    {
        proof {
            use_type_invariant(&value);
        }
        let ghost vs = value.records@;
        let ghost check = |record: wire::LogRecord| wire_log_fault(record);
        let mut out: Vec<wire::LogRecord> = Vec::new();
        for record in it: value.records.into_iter()
            invariant
                it.seq() == vs,
                out@.len() == it.index(),
                it.index() <= vs.len(),
                forall|k: int|
                    0 <= k < it.index() ==> severity_canonical(vs[k].severity_value()) ==> log_decodes(#[trigger] out@[k], vs[k])
                        && wire_log_fault(out@[k]) is None,
        {
            proof {
                assert(record == vs[out@.len() as int]);
            }
            out.push(wire::LogRecord::from(record));
        }
        let ghost ws = out@;
        proof {
            if forall|k: int| 0 <= k < vs.len() ==> severity_canonical(#[trigger] vs[k].severity_value()) {
                assert forall|k: int| 0 <= k < ws.len() implies #[trigger] check(ws[k]) is None by {
                    assert(severity_canonical(vs[k].severity_value()));
                }
                lemma_items_fault_skip("records"@, ws, check, 0, ws.len() as int);
            }
        }
        wire::Logs { records: out }
    }
}

impl vstd::std_specs::convert::FromSpecImpl<Logs> for wire::Logs {
    open spec fn obeys_from_spec() -> bool {
        false
    }

    open spec fn from_spec(value: Logs) -> wire::Logs {
        arbitrary()
    }
}

// --------------------------------------------------------- StateObservation

/// What is wrong with a state observation's name, if anything.
pub open spec fn state_fault(name: Seq<char>) -> Option<Fault> {
    text_fault("name"@, name, STATEOBSERVATION_NAME_MAX_LEN)
}

/// Validated form of the contract's `StateObservation`: one named state a
/// subject reported.
#[derive(Debug, PartialEq, Eq)]
pub struct StateObservation {
    subject: Subject,
    name: String,
    value: Value,
    observed_at: Option<Timestamp>,
}

impl StateObservation {
    #[verifier::type_invariant]
    spec fn valid(self) -> bool {
        state_fault(self.name@) is None
    }

    pub closed spec fn subject_of(self) -> SubjectView {
        self.subject@
    }

    pub closed spec fn name_of(self) -> Seq<char> {
        self.name@
    }

    pub closed spec fn value_of(self) -> Value {
        self.value
    }

    pub closed spec fn observed_at_of(self) -> Option<Timestamp> {
        self.observed_at
    }

    /// A builder holding nothing yet.
    pub fn builder() -> (builder: StateObservationBuilder)
        ensures
            builder.subject_part() is None,
            builder.name_part() is None,
            builder.value_part() is None,
            builder.observed_at_part() is None,
    {
        StateObservationBuilder { subject: None, name: None, value: None, observed_at: None }
    }

    /// The `subject`.
    pub fn subject(&self) -> (subject: &Subject)
        ensures
            subject@ == self.subject_of(),
    {
        &self.subject
    }

    /// The `name`.
    pub fn name(&self) -> (name: &str)
        ensures
            name@ == self.name_of(),
    {
        self.name.as_str()
    }

    /// The `value`.
    pub fn value(&self) -> (value: &Value)
        ensures
            *value == self.value_of(),
    {
        &self.value
    }

    /// The `observed_at`, when present.
    pub fn observed_at(&self) -> (observed_at: Option<&Timestamp>)
        ensures
            match observed_at {
                Some(t) => self.observed_at_of() == Some(*t),
                None => self.observed_at_of() is None,
            },
    {
        match &self.observed_at {
            Some(t) => Some(t),
            None => None,
        }
    }

    fn checked(subject: Subject, name: String, value: Value, observed_at: Option<Timestamp>) -> (made: Result<StateObservation, Invalid>)
        ensures
            reports(made, state_fault(name@)),
            made matches Ok(state) ==> state.subject_of() == subject@ && state.name_of() == name@ && state.value_of() == value
                && state.observed_at_of() == observed_at,
    {
        match check_text("name", name.as_str(), STATEOBSERVATION_NAME_MAX_LEN) {
            Ok(()) => Ok(StateObservation { subject, name, value, observed_at }),
            Err(error) => Err(error),
        }
    }
}

/// Builds a [`StateObservation`]. Setters are infallible;
/// [`build`](StateObservationBuilder::build) validates everything at once,
/// exactly as decoding does.
#[derive(Debug)]
pub struct StateObservationBuilder {
    subject: Option<Subject>,
    name: Option<String>,
    value: Option<Value>,
    observed_at: Option<Timestamp>,
}

impl StateObservationBuilder {
    pub closed spec fn subject_part(self) -> Option<SubjectView> {
        optional_subject(self.subject)
    }

    pub closed spec fn name_part(self) -> Option<Seq<char>> {
        optional_text(self.name)
    }

    pub closed spec fn value_part(self) -> Option<Value> {
        self.value
    }

    pub closed spec fn observed_at_part(self) -> Option<Timestamp> {
        self.observed_at
    }

    /// Sets `subject`.
    pub fn subject(self, subject: Subject) -> (builder: StateObservationBuilder)
        ensures
            builder.subject_part() == Some(subject@),
            builder.name_part() == self.name_part(),
            builder.value_part() == self.value_part(),
            builder.observed_at_part() == self.observed_at_part(),
    {
        StateObservationBuilder { subject: Some(subject), ..self }
    }

    /// Sets `name`.
    pub fn name(self, name: &str) -> (builder: StateObservationBuilder)
        ensures
            builder.subject_part() == self.subject_part(),
            builder.name_part() == Some(name@),
            builder.value_part() == self.value_part(),
            builder.observed_at_part() == self.observed_at_part(),
    {
        StateObservationBuilder { name: Some(name.to_owned()), ..self }
    }

    /// Sets `value`.
    pub fn value(self, value: Value) -> (builder: StateObservationBuilder)
        ensures
            builder.subject_part() == self.subject_part(),
            builder.name_part() == self.name_part(),
            builder.value_part() == Some(value),
            builder.observed_at_part() == self.observed_at_part(),
    {
        StateObservationBuilder { value: Some(value), ..self }
    }

    /// Sets `observed_at`.
    pub fn observed_at(self, observed_at: Timestamp) -> (builder: StateObservationBuilder)
        ensures
            builder.subject_part() == self.subject_part(),
            builder.name_part() == self.name_part(),
            builder.value_part() == self.value_part(),
            builder.observed_at_part() == Some(observed_at),
    {
        StateObservationBuilder { observed_at: Some(observed_at), ..self }
    }

    /// Validates and builds.
    ///
    /// Returns [`Invalid`] naming the first field that is absent or breaks
    /// its schema invariants.
    pub fn build(self) -> (made: Result<StateObservation, Invalid>)
        ensures
            reports(
                made,
                match (self.subject_part(), self.name_part(), self.value_part()) {
                    (None, _, _) => Some(("subject"@, Violation::Absent)),
                    (Some(_), None, _) => Some(("name"@, Violation::Absent)),
                    (Some(_), Some(_), None) => Some(("value"@, Violation::Absent)),
                    (Some(_), Some(name), Some(_)) => state_fault(name),
                },
            ),
            made matches Ok(state) ==> Some(state.subject_of()) == self.subject_part() && Some(state.name_of()) == self.name_part()
                && Some(state.value_of()) == self.value_part() && state.observed_at_of() == self.observed_at_part(),
    {
        let subject = match self.subject {
            Some(subject) => subject,
            None => {
                return Err(Invalid::field("subject", Violation::Absent));
            },
        };
        let name = match self.name {
            Some(name) => name,
            None => {
                return Err(Invalid::field("name", Violation::Absent));
            },
        };
        match self.value {
            Some(value) => StateObservation::checked(subject, name, value, self.observed_at),
            None => Err(Invalid::field("value", Violation::Absent)),
        }
    }
}

/// What decoding a wire state observation reports, if anything.
pub open spec fn wire_state_fault(wire: wire::StateObservation) -> Option<Fault> {
    match (wire.subject, wire.name, wire.value) {
        (None, _, _) => Some(("subject"@, Violation::Absent)),
        (Some(subject), name, value) => first_fault(
            fault_at("subject"@, wire_subject_fault(subject)),
            match (name, value) {
                (None, _) => Some(("name"@, Violation::Absent)),
                (Some(_), None) => Some(("value"@, Violation::Absent)),
                (Some(name), Some(value)) => first_fault(
                    fault_at("value"@, wire_value_fault(value)),
                    first_fault(optional_wire_timestamp_fault("observed_at"@, wire.observed_at), state_fault(name@)),
                ),
            },
        ),
    }
}

/// Whether `state` is what the wire observation `wire` stands for.
pub open spec fn state_decodes(wire: wire::StateObservation, state: StateObservation) -> bool {
    &&& wire.subject matches Some(subject) && subject_decodes(subject, state.subject_of())
    &&& optional_text(wire.name) == Some(state.name_of())
    &&& wire.value matches Some(value) && decodes(value, state.value_of())
    &&& optional_timestamp_of_wire(wire.observed_at) == state.observed_at_of()
}

impl TryFrom<wire::StateObservation> for StateObservation {
    type Error = Invalid;

    fn try_from(wire: wire::StateObservation) -> (made: Result<StateObservation, Invalid>)
        ensures
            reports(made, wire_state_fault(wire)),
            made matches Ok(state) ==> state_decodes(wire, state),
    {
        let subject = match subject_from_wire("subject", wire.subject) {
            Ok(subject) => subject,
            Err(error) => {
                return Err(error);
            },
        };
        let name = match wire.name {
            Some(name) => name,
            None => {
                return Err(Invalid::field("name", Violation::Absent));
            },
        };
        let value = match wire.value {
            Some(value) => value,
            None => {
                return Err(Invalid::field("value", Violation::Absent));
            },
        };
        let value = match Value::try_from(value) {
            Ok(value) => value,
            Err(error) => {
                return Err(error.at("value"));
            },
        };
        let observed_at = match optional_timestamp_from("observed_at", wire.observed_at) {
            Ok(t) => t,
            Err(error) => {
                return Err(error);
            },
        };
        StateObservation::checked(subject, name, value, observed_at)
    }
}

impl vstd::std_specs::convert::TryFromSpecImpl<wire::StateObservation> for StateObservation {
    open spec fn obeys_try_from_spec() -> bool {
        false
    }

    open spec fn try_from_spec(wire: wire::StateObservation) -> Result<StateObservation, Invalid> {
        arbitrary()
    }
}

impl From<StateObservation> for wire::StateObservation {
    fn from(value: StateObservation) -> (wire: wire::StateObservation)
        ensures
            state_decodes(wire, value),
            wire_state_fault(wire) is None,
    {
        proof {
            use_type_invariant(&value);
        }
        wire::StateObservation {
            subject: Some(wire::Subject::from(value.subject)),
            name: Some(value.name),
            value: Some(wire::Value::from(value.value)),
            observed_at: optional_timestamp_into(value.observed_at),
        }
    }
}

impl vstd::std_specs::convert::FromSpecImpl<StateObservation> for wire::StateObservation {
    open spec fn obeys_from_spec() -> bool {
        false
    }

    open spec fn from_spec(value: StateObservation) -> wire::StateObservation {
        arbitrary()
    }
}

// ------------------------------------------------------------------- States

/// What is wrong with a states payload's observations, if anything.
pub open spec fn states_fault(observations: Seq<StateObservation>) -> Option<Fault> {
    count_fault("observations"@, observations.len(), STATES_OBSERVATIONS_MAX_ITEMS)
}

/// Validated form of the contract's `States`: a payload of state
/// observations, in source order.
#[derive(Debug, PartialEq, Eq)]
pub struct States {
    observations: Vec<StateObservation>,
}

impl States {
    #[verifier::type_invariant]
    spec fn valid(self) -> bool {
        states_fault(self.observations@) is None
    }

    /// The observations, in order.
    pub closed spec fn observations_of(self) -> Seq<StateObservation> {
        self.observations@
    }

    /// A builder holding nothing yet.
    pub fn builder() -> (builder: StatesBuilder)
        ensures
            builder.observations_part().len() == 0,
    {
        StatesBuilder { observations: Vec::new() }
    }

    /// The `observations`.
    pub fn observations(&self) -> (observations: &[StateObservation])
        ensures
            observations@ == self.observations_of(),
    {
        self.observations.as_slice()
    }

    fn checked(observations: Vec<StateObservation>) -> (made: Result<States, Invalid>)
        ensures
            reports(made, states_fault(observations@)),
            made matches Ok(states) ==> states.observations_of() == observations@,
    {
        match too_many(observations.len(), STATES_OBSERVATIONS_MAX_ITEMS) {
            Some(violation) => Err(Invalid::field("observations", violation)),
            None => Ok(States { observations }),
        }
    }
}

/// Builds a [`States`] payload. Setters are infallible;
/// [`build`](StatesBuilder::build) validates everything at once, exactly as
/// decoding does.
#[derive(Debug)]
pub struct StatesBuilder {
    observations: Vec<StateObservation>,
}

impl StatesBuilder {
    /// The observations set so far.
    pub closed spec fn observations_part(self) -> Seq<StateObservation> {
        self.observations@
    }

    /// Sets `observations`.
    pub fn observations(self, observations: Vec<StateObservation>) -> (builder: StatesBuilder)
        ensures
            builder.observations_part() == observations@,
    {
        StatesBuilder { observations }
    }

    /// Validates and builds.
    ///
    /// Returns [`Invalid`] if there are more observations than the schema
    /// allows.
    pub fn build(self) -> (made: Result<States, Invalid>)
        ensures
            reports(made, states_fault(self.observations_part())),
            made matches Ok(states) ==> states.observations_of() == self.observations_part(),
    {
        States::checked(self.observations)
    }
}

/// What decoding a wire states payload reports, if anything.
pub open spec fn wire_states_fault(wire: wire::States) -> Option<Fault> {
    first_fault(
        items_fault("observations"@, wire.observations@, |state: wire::StateObservation| wire_state_fault(state), 0),
        count_fault("observations"@, wire.observations@.len(), STATES_OBSERVATIONS_MAX_ITEMS),
    )
}

/// Whether `states` is what the wire payload `wire` stands for.
pub open spec fn states_decodes(wire: wire::States, states: States) -> bool {
    &&& states.observations_of().len() == wire.observations@.len()
    &&& forall|k: int| 0 <= k < wire.observations@.len() ==> state_decodes(#[trigger] wire.observations@[k], states.observations_of()[k])
}

impl TryFrom<wire::States> for States {
    type Error = Invalid;

    fn try_from(wire: wire::States) -> (made: Result<States, Invalid>)
        ensures
            reports(made, wire_states_fault(wire)),
            made matches Ok(states) ==> states_decodes(wire, states),
    {
        let ghost ws = wire.observations@;
        let ghost check = |state: wire::StateObservation| wire_state_fault(state);
        let mut observations: Vec<StateObservation> = Vec::new();
        for element in it: wire.observations.into_iter()
            invariant
                it.seq() == ws,
                observations@.len() == it.index(),
                it.index() <= ws.len(),
                check == (|state: wire::StateObservation| wire_state_fault(state)),
                forall|k: int| 0 <= k < it.index() ==> #[trigger] check(ws[k]) is None,
                forall|k: int| 0 <= k < it.index() ==> state_decodes(#[trigger] ws[k], observations@[k]),
        {
            let index = observations.len();
            proof {
                assert(element == ws[index as int]);
                lemma_items_fault_skip("observations"@, ws, check, 0, index as int);
            }
            match StateObservation::try_from(element) {
                Ok(state) => {
                    observations.push(state);
                },
                Err(error) => {
                    return Err(error.at_index("observations", index));
                },
            }
        }
        proof {
            lemma_items_fault_skip("observations"@, ws, check, 0, ws.len() as int);
        }
        States::checked(observations)
    }
}

impl vstd::std_specs::convert::TryFromSpecImpl<wire::States> for States {
    open spec fn obeys_try_from_spec() -> bool {
        false
    }

    open spec fn try_from_spec(wire: wire::States) -> Result<States, Invalid> {
        arbitrary()
    }
}

impl From<States> for wire::States {
    fn from(value: States) -> (wire: wire::States)
        ensures
            states_decodes(wire, value),
            wire_states_fault(wire) is None,
    {
        proof {
            use_type_invariant(&value);
        }
        let ghost vs = value.observations@;
        let ghost check = |state: wire::StateObservation| wire_state_fault(state);
        let mut out: Vec<wire::StateObservation> = Vec::new();
        for state in it: value.observations.into_iter()
            invariant
                it.seq() == vs,
                out@.len() == it.index(),
                it.index() <= vs.len(),
                forall|k: int| 0 <= k < it.index() ==> state_decodes(#[trigger] out@[k], vs[k]) && wire_state_fault(out@[k]) is None,
        {
            proof {
                assert(state == vs[out@.len() as int]);
            }
            out.push(wire::StateObservation::from(state));
        }
        let ghost ws = out@;
        proof {
            assert forall|k: int| 0 <= k < ws.len() implies #[trigger] check(ws[k]) is None by {
                assert(state_decodes(ws[k], vs[k]));
            }
            lemma_items_fault_skip("observations"@, ws, check, 0, ws.len() as int);
        }
        wire::States { observations: out }
    }
}

impl vstd::std_specs::convert::FromSpecImpl<States> for wire::States {
    open spec fn obeys_from_spec() -> bool {
        false
    }

    open spec fn from_spec(value: States) -> wire::States {
        arbitrary()
    }
}

} // verus!
