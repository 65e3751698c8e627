//! Recursively structured, source-neutral resource properties.
//!
//! Property values nest, so every stored map and array bounds how deep its
//! values go: a walk over a stored value, and its release, are bounded by
//! construction.

use vstd::prelude::*;

use crate::order::{Order, key_lt, single_key};
use crate::sort::{
    Keyed, TextKeyed, find_text, sort_by_key, first_adjacent_duplicate, strictly_sorted_by_key,
    has_repeated_key, least_repeated_key, lemma_repeats_preserved, lemma_find_in_permutation,
};
use crate::telemetry::context::Subject;
use crate::telemetry::name::Name;
use crate::telemetry::number::{Finite, NonFiniteError, is_finite_bits, normalized_bits};
use crate::telemetry::time::{DurationValue, Timestamp};
use crate::telemetry::vocabulary::SourceKey;
use crate::text::{append, append_decimal, decimal};

verus! {

broadcast use vstd::seq_lib::group_to_multiset_ensures;

/// Maximum number of nesting levels allowed below a property map.
///
/// The bound is set by what a decoder will read back: one level here costs
/// two or three levels of a decoder's own recursion limit.
pub const MAX_DEPTH: u32 = 32u32;

/// A source reference that may or may not resolve to a canonical subject.
#[derive(Clone, Debug, PartialEq, Eq, Hash)]
#[non_exhaustive]
pub struct ResourceReference {
    pub source_key: SourceKey,
    pub subject: Option<Subject>,
}

impl ResourceReference {
    pub fn new(source_key: SourceKey) -> (made: ResourceReference)
        ensures
            made.source_key == source_key,
            made.subject is None,
    {
        ResourceReference { source_key, subject: None }
    }

    pub fn with_subject(self, subject: Subject) -> (made: ResourceReference)
        ensures
            made.source_key == self.source_key,
            made.subject == Some(subject),
    {
        ResourceReference { subject: Some(subject), ..self }
    }
}

/// A recursively structured, source-neutral resource property value.
///
/// [`PropertyValue::Null`] means the source reported an explicit null, which
/// is distinct from the property being absent from a map.
#[derive(Debug, PartialEq, Eq, Hash)]
#[non_exhaustive]
pub enum PropertyValue {
    Null,
    Bool(bool),
    I64(i64),
    U64(u64),
    F64(Finite),
    String(String),
    Bytes(Vec<u8>),
    Timestamp(Timestamp),
    Duration(DurationValue),
    Reference(ResourceReference),
    Array(PropertyArray),
    Object(PropertyMap),
}

/// Whether `value` nests no deeper than `remaining` further levels.
pub open spec fn within_depth(value: PropertyValue, remaining: nat) -> bool
    decreases remaining,
{
    match value {
        PropertyValue::Array(array) => remaining > 0 && forall|i: int|
            0 <= i < array.elements().len() ==> within_depth(#[trigger] array.element(i), (remaining - 1) as nat),
        PropertyValue::Object(map) => remaining > 0 && forall|i: int|
            0 <= i < map.entries().len() ==> within_depth(#[trigger] map.entries()[i].value, (remaining - 1) as nat),
        _ => true,
    }
}

impl PropertyValue {
    /// Builds a floating point property from a double's bits, rejecting
    /// non-finite input.
    pub fn float_bits(bits: u64) -> (made: Result<PropertyValue, NonFiniteError>)
        ensures
            match made {
                Ok(PropertyValue::F64(value)) => is_finite_bits(bits) && value.bits_of() == normalized_bits(bits),
                Ok(_) => false,
                Err(_) => !is_finite_bits(bits),
            },
    {
        match Finite::from_bits(bits) {
            Ok(value) => Ok(PropertyValue::F64(value)),
            Err(error) => Err(error),
        }
    }

    /// Builds an array property, rejecting excessive nesting.
    ///
    /// Returns [`PropertyArrayError::DepthExceeded`] if the array nests deeper
    /// than [`MAX_DEPTH`].
    pub fn array(values: Vec<PropertyValue>) -> (made: Result<PropertyValue, PropertyArrayError>)
        ensures
            made is Ok <==> forall|i: int| 0 <= i < values.len() ==> within_depth(#[trigger] values@[i], (MAX_DEPTH - 1) as nat),
            match made {
                Ok(PropertyValue::Array(array)) => array.elements() == values@,
                Ok(_) => false,
                Err(error) => error == PropertyArrayError::DepthExceeded { limit: MAX_DEPTH },
            },
    {
        match PropertyArray::new(values) {
            Ok(array) => Ok(PropertyValue::Array(array)),
            Err(error) => Err(error),
        }
    }

    /// Returns whether this value nests no deeper than `remaining` further
    /// levels. The walk stops when the budget runs out, so its own recursion
    /// is bounded by the budget even when the value is deeper.
    fn within_depth(&self, remaining: u32) -> (within: bool)
        ensures
            within == within_depth(*self, remaining as nat),
        decreases remaining,
    {
        match self {
            PropertyValue::Array(items) => {
                if remaining == 0 {
                    return false;
                }
                let values = items.as_slice();
                let mut i: usize = 0;
                while i < values.len()
                    invariant
                        0 <= i <= values.len(),
                        values@ == items.elements(),
                        *self == PropertyValue::Array(*items),
                        remaining > 0,
                        forall|j: int| 0 <= j < i ==> within_depth(#[trigger] values@[j], (remaining - 1) as nat),
                    decreases values.len() - i,
                {
                    if !values[i].within_depth(remaining - 1) {
                        proof {
                            assert(items.element(i as int) == values@[i as int]);
                        }
                        return false;
                    }
                    i = i + 1;
                }
                true
            },
            PropertyValue::Object(map) => {
                if remaining == 0 {
                    return false;
                }
                let entries = map.as_slice();
                let mut i: usize = 0;
                while i < entries.len()
                    invariant
                        0 <= i <= entries.len(),
                        entries@ == map.entries(),
                        *self == PropertyValue::Object(*map),
                        remaining > 0,
                        forall|j: int| 0 <= j < i ==> within_depth(#[trigger] entries@[j].value, (remaining - 1) as nat),
                    decreases entries.len() - i,
                {
                    if !entries[i].value.within_depth(remaining - 1) {
                        proof {
                            assert(map.entries()[i as int] == entries@[i as int]);
                            assert(!within_depth(map.entries()[i as int].value, (remaining - 1) as nat));
                        }
                        return false;
                    }
                    i = i + 1;
                }
                true
            },
            _ => true,
        }
    }
}

impl From<bool> for PropertyValue {
    fn from(value: bool) -> (made: PropertyValue)
        ensures
            made == PropertyValue::Bool(value),
    {
        PropertyValue::Bool(value)
    }
}

impl vstd::std_specs::convert::FromSpecImpl<bool> for PropertyValue {
    open spec fn obeys_from_spec() -> bool {
        true
    }

    open spec fn from_spec(value: bool) -> PropertyValue {
        PropertyValue::Bool(value)
    }
}

impl From<i64> for PropertyValue {
    fn from(value: i64) -> (made: PropertyValue)
        ensures
            made == PropertyValue::I64(value),
    {
        PropertyValue::I64(value)
    }
}

impl vstd::std_specs::convert::FromSpecImpl<i64> for PropertyValue {
    open spec fn obeys_from_spec() -> bool {
        true
    }

    open spec fn from_spec(value: i64) -> PropertyValue {
        PropertyValue::I64(value)
    }
}

impl From<u64> for PropertyValue {
    fn from(value: u64) -> (made: PropertyValue)
        ensures
            made == PropertyValue::U64(value),
    {
        PropertyValue::U64(value)
    }
}

impl vstd::std_specs::convert::FromSpecImpl<u64> for PropertyValue {
    open spec fn obeys_from_spec() -> bool {
        true
    }

    open spec fn from_spec(value: u64) -> PropertyValue {
        PropertyValue::U64(value)
    }
}

impl From<Finite> for PropertyValue {
    fn from(value: Finite) -> (made: PropertyValue)
        ensures
            made == PropertyValue::F64(value),
    {
        PropertyValue::F64(value)
    }
}

impl vstd::std_specs::convert::FromSpecImpl<Finite> for PropertyValue {
    open spec fn obeys_from_spec() -> bool {
        true
    }

    open spec fn from_spec(value: Finite) -> PropertyValue {
        PropertyValue::F64(value)
    }
}

impl From<String> for PropertyValue {
    fn from(value: String) -> (made: PropertyValue)
        ensures
            made == PropertyValue::String(value),
    {
        PropertyValue::String(value)
    }
}

impl vstd::std_specs::convert::FromSpecImpl<String> for PropertyValue {
    open spec fn obeys_from_spec() -> bool {
        true
    }

    open spec fn from_spec(value: String) -> PropertyValue {
        PropertyValue::String(value)
    }
}

impl From<Timestamp> for PropertyValue {
    fn from(value: Timestamp) -> (made: PropertyValue)
        ensures
            made == PropertyValue::Timestamp(value),
    {
        PropertyValue::Timestamp(value)
    }
}

impl vstd::std_specs::convert::FromSpecImpl<Timestamp> for PropertyValue {
    open spec fn obeys_from_spec() -> bool {
        true
    }

    open spec fn from_spec(value: Timestamp) -> PropertyValue {
        PropertyValue::Timestamp(value)
    }
}

impl From<DurationValue> for PropertyValue {
    fn from(value: DurationValue) -> (made: PropertyValue)
        ensures
            made == PropertyValue::Duration(value),
    {
        PropertyValue::Duration(value)
    }
}

impl vstd::std_specs::convert::FromSpecImpl<DurationValue> for PropertyValue {
    open spec fn obeys_from_spec() -> bool {
        true
    }

    open spec fn from_spec(value: DurationValue) -> PropertyValue {
        PropertyValue::Duration(value)
    }
}

impl From<ResourceReference> for PropertyValue {
    fn from(value: ResourceReference) -> (made: PropertyValue)
        ensures
            made == PropertyValue::Reference(value),
    {
        PropertyValue::Reference(value)
    }
}

impl vstd::std_specs::convert::FromSpecImpl<ResourceReference> for PropertyValue {
    open spec fn obeys_from_spec() -> bool {
        true
    }

    open spec fn from_spec(value: ResourceReference) -> PropertyValue {
        PropertyValue::Reference(value)
    }
}

impl From<PropertyMap> for PropertyValue {
    fn from(value: PropertyMap) -> (made: PropertyValue)
        ensures
            made == PropertyValue::Object(value),
    {
        PropertyValue::Object(value)
    }
}

impl vstd::std_specs::convert::FromSpecImpl<PropertyMap> for PropertyValue {
    open spec fn obeys_from_spec() -> bool {
        true
    }

    open spec fn from_spec(value: PropertyMap) -> PropertyValue {
        PropertyValue::Object(value)
    }
}

impl From<PropertyArray> for PropertyValue {
    fn from(value: PropertyArray) -> (made: PropertyValue)
        ensures
            made == PropertyValue::Array(value),
    {
        PropertyValue::Array(value)
    }
}

impl vstd::std_specs::convert::FromSpecImpl<PropertyArray> for PropertyValue {
    open spec fn obeys_from_spec() -> bool {
        true
    }

    open spec fn from_spec(value: PropertyArray) -> PropertyValue {
        PropertyValue::Array(value)
    }
}

impl<'a> From<&'a str> for PropertyValue {
    fn from(value: &'a str) -> (made: PropertyValue)
        ensures
            made matches PropertyValue::String(text) && text@ == value@,
    {
        PropertyValue::String(value.to_owned())
    }
}

impl<'a> vstd::std_specs::convert::FromSpecImpl<&'a str> for PropertyValue {
    open spec fn obeys_from_spec() -> bool {
        false
    }

    open spec fn from_spec(value: &'a str) -> PropertyValue {
        arbitrary()
    }
}

/// A rejected recursively nested property array.
#[derive(Clone, Copy, Debug, PartialEq, Eq, Structural)]
#[non_exhaustive]
pub enum PropertyArrayError {
    DepthExceeded { limit: u32 },
}

/// What a rejected property array says of itself.
pub open spec fn array_error_text(error: PropertyArrayError) -> Seq<char> {
    match error {
        PropertyArrayError::DepthExceeded { limit } => "property array nests deeper than the limit of "@ + decimal(
            limit as nat,
        ) + " levels"@,
    }
}

impl PropertyArrayError {
    /// The human-readable description of the rejection.
    pub fn message(&self) -> (text: String)
        ensures
            text@ == array_error_text(*self),
    {
        let mut text = String::new();
        match self {
            PropertyArrayError::DepthExceeded { limit } => {
                append(&mut text, "property array nests deeper than the limit of ");
                append_decimal(&mut text, *limit as u64);
                append(&mut text, " levels");
            },
        }
        proof {
            assert(text@ =~= array_error_text(*self));
        }
        text
    }
}

/// A recursively bounded property array.
#[derive(Debug, PartialEq, Eq, Hash)]
pub struct PropertyArray {
    items: Vec<PropertyValue>,
}

impl PropertyArray {
    #[verifier::type_invariant]
    spec fn bounded(self) -> bool {
        forall|i: int| 0 <= i < self.items@.len() ==> within_depth(#[trigger] self.items@[i], (MAX_DEPTH - 1) as nat)
    }

    pub closed spec fn elements(self) -> Seq<PropertyValue> {
        self.items@
    }

    /// The element at `index`.
    pub open spec fn element(self, index: int) -> PropertyValue {
        self.elements()[index]
    }

    /// Builds an array, rejecting excessive nesting.
    ///
    /// Returns [`PropertyArrayError::DepthExceeded`] if the array nests deeper
    /// than [`MAX_DEPTH`].
    pub fn new(values: Vec<PropertyValue>) -> (made: Result<PropertyArray, PropertyArrayError>)
        ensures
            made is Ok <==> forall|i: int| 0 <= i < values.len() ==> within_depth(#[trigger] values@[i], (MAX_DEPTH - 1) as nat),
            match made {
                Ok(array) => array.elements() == values@,
                Err(error) => error == PropertyArrayError::DepthExceeded { limit: MAX_DEPTH },
            },
    {
        let mut i: usize = 0;
        while i < values.len()
            invariant
                0 <= i <= values.len(),
                forall|j: int| 0 <= j < i ==> within_depth(#[trigger] values@[j], (MAX_DEPTH - 1) as nat),
            decreases values.len() - i,
        {
            if !values[i].within_depth(MAX_DEPTH - 1) {
                return Err(PropertyArrayError::DepthExceeded { limit: MAX_DEPTH });
            }
            i = i + 1;
        }
        Ok(PropertyArray { items: values })
    }

    pub fn as_slice(&self) -> (values: &[PropertyValue])
        ensures
            values@ == self.elements(),
    {
        self.items.as_slice()
    }

    pub fn len(&self) -> (count: usize)
        ensures
            count == self.elements().len(),
    {
        self.items.len()
    }

    pub fn is_empty(&self) -> (empty: bool)
        ensures
            empty == (self.elements().len() == 0),
    {
        self.items.len() == 0
    }

    pub fn into_vec(self) -> (values: Vec<PropertyValue>)
        ensures
            values@ == self.elements(),
    {
        self.items
    }
}

/// One named resource property.
#[derive(Debug, PartialEq, Eq, Hash)]
#[non_exhaustive]
pub struct Property {
    pub name: Name,
    pub value: PropertyValue,
}

impl Property {
    pub fn new(name: Name, value: PropertyValue) -> (made: Property)
        ensures
            made.name == name,
            made.value == value,
    {
        Property { name, value }
    }
}

impl Keyed for Property {
    open spec fn key(&self) -> Seq<Seq<u8>> {
        single_key(self.name@)
    }

    fn compare_key(&self, other: &Property) -> (order: Order) {
        proof {
            crate::order::lemma_single_key(self.name@, other.name@);
            crate::order::lemma_single_key(other.name@, self.name@);
            crate::sort::lemma_key_order(self.key(), other.key());
        }
        self.name.compare(&other.name)
    }
}

impl TextKeyed for Property {
    open spec fn text(&self) -> Seq<char> {
        self.name@
    }

    fn text_str(&self) -> (text: &str) {
        self.name.as_str()
    }

    proof fn lemma_text_key(&self) {
    }
}

/// A rejected property map.
#[derive(Clone, Debug, PartialEq, Eq)]
#[non_exhaustive]
pub enum PropertyMapError {
    DuplicateName(Name),
    DepthExceeded { name: Name, limit: u32 },
}

/// What a rejected property map says of itself.
pub open spec fn map_error_text(error: PropertyMapError) -> Seq<char> {
    match error {
        PropertyMapError::DuplicateName(name) => "duplicate property name '"@ + name@ + "'"@,
        PropertyMapError::DepthExceeded { name, limit } => "property '"@ + name@ + "' nests deeper than the limit of "@
            + decimal(limit as nat) + " levels"@,
    }
}

impl PropertyMapError {
    /// The human-readable description of the rejection.
    pub fn message(&self) -> (text: String)
        ensures
            text@ == map_error_text(*self),
    {
        let mut text = String::new();
        match self {
            PropertyMapError::DuplicateName(name) => {
                append(&mut text, "duplicate property name '");
                append(&mut text, name.as_str());
                append(&mut text, "'");
            },
            PropertyMapError::DepthExceeded { name, limit } => {
                append(&mut text, "property '");
                append(&mut text, name.as_str());
                append(&mut text, "' nests deeper than the limit of ");
                append_decimal(&mut text, *limit as u64);
                append(&mut text, " levels");
            },
        }
        proof {
            assert(text@ =~= map_error_text(*self));
        }
        text
    }
}

/// An immutable, name-sorted object property map.
///
/// Sorting by name makes the representation canonical, so two maps carrying
/// the same properties compare equal regardless of the order the source
/// reported them.
#[derive(Debug, PartialEq, Eq, Hash)]
pub struct PropertyMap {
    items: Vec<Property>,
}

impl PropertyMap {
    #[verifier::type_invariant]
    spec fn canonical(self) -> bool {
        &&& strictly_sorted_by_key(self.items@)
        &&& forall|i: int| 0 <= i < self.items@.len() ==> within_depth(#[trigger] self.items@[i].value, (MAX_DEPTH - 1) as nat)
    }

    /// The properties, in name order.
    pub closed spec fn entries(self) -> Seq<Property> {
        self.items@
    }

    /// Sorts properties by name and rejects duplicates and excessive nesting.
    ///
    /// Returns [`PropertyMapError::DuplicateName`] naming the least repeated
    /// name if two properties share one, or else
    /// [`PropertyMapError::DepthExceeded`] naming the first property, in name
    /// order, that nests deeper than [`MAX_DEPTH`].
    pub fn new(properties: Vec<Property>) -> (made: Result<PropertyMap, PropertyMapError>)
        ensures
            match made {
                Ok(map) => {
                    &&& !has_repeated_key(properties@)
                    &&& map.entries().to_multiset() =~= properties@.to_multiset()
                    &&& strictly_sorted_by_key(map.entries())
                    &&& forall|i: int| 0 <= i < properties.len() ==> within_depth(#[trigger] properties@[i].value, (MAX_DEPTH - 1) as nat)
                },
                Err(PropertyMapError::DuplicateName(name)) => least_repeated_key(properties@, single_key(name@)),
                Err(PropertyMapError::DepthExceeded { name, limit }) => {
                    &&& !has_repeated_key(properties@)
                    &&& limit == MAX_DEPTH
                    &&& exists|i: int| 0 <= i < properties.len() && #[trigger] properties@[i].name@ == name@ && !within_depth(properties@[i].value, (MAX_DEPTH - 1) as nat)
                    &&& forall|j: int| 0 <= j < properties.len() && !within_depth(#[trigger] properties@[j].value, (MAX_DEPTH - 1) as nat)
                        ==> !key_lt(single_key(properties@[j].name@), single_key(name@))
                },
            },
    {
        let sorted = sort_by_key(properties);
        proof {
            lemma_repeats_preserved(properties@, sorted@);
        }
        if let Some(i) = first_adjacent_duplicate(&sorted) {
            return Err(PropertyMapError::DuplicateName(sorted[i].name.clone()));
        }
        let mut i: usize = 0;
        while i < sorted.len()
            invariant
                0 <= i <= sorted.len(),
                sorted@.to_multiset() =~= properties@.to_multiset(),
                !has_repeated_key(properties@),
                strictly_sorted_by_key(sorted@),
                forall|j: int| 0 <= j < i ==> within_depth(#[trigger] sorted@[j].value, (MAX_DEPTH - 1) as nat),
            decreases sorted.len() - i,
        {
            if !sorted[i].value.within_depth(MAX_DEPTH - 1) {
                proof {
                    let p = sorted@[i as int];
                    assert(sorted@.contains(p));
                    assert(sorted@.to_multiset().count(p) > 0);
                    assert(properties@.to_multiset().count(p) > 0);
                    assert(properties@.contains(p));
                    let k = choose|k: int| 0 <= k < properties@.len() && properties@[k] == p;
                    assert(properties@[k].name@ == p.name@ && !within_depth(properties@[k].value, (MAX_DEPTH - 1) as nat));
                }
                let name = sorted[i].name.clone();
                proof {
                    assert forall|j: int| 0 <= j < properties.len() && !within_depth(#[trigger] properties@[j].value, (MAX_DEPTH - 1) as nat)
                        implies !key_lt(single_key(properties@[j].name@), single_key(name@)) by {
                        let x = lemma_find_in_permutation(properties@, sorted@, j);
                        crate::order::lemma_keys_facts(sorted@[x].key(), sorted@[i as int].key(), sorted@[x].key());
                        if x < i {
                            assert(within_depth(sorted@[x].value, (MAX_DEPTH - 1) as nat));
                        } else if x > i {
                            assert(key_lt(sorted@[i as int].key(), sorted@[x].key()));
                        }
                    }
                }
                return Err(PropertyMapError::DepthExceeded { name, limit: MAX_DEPTH });
            }
            i = i + 1;
        }
        proof {
            assert forall|j: int| 0 <= j < properties.len() implies within_depth(#[trigger] properties@[j].value, (MAX_DEPTH - 1) as nat) by {
                let p = properties@[j];
                assert(properties@.contains(p));
                assert(properties@.to_multiset().count(p) > 0);
                assert(sorted@.to_multiset().count(p) > 0);
                assert(sorted@.contains(p));
            }
        }
        Ok(PropertyMap { items: sorted })
    }

    pub fn empty() -> (made: PropertyMap)
        ensures
            made.entries().len() == 0,
    {
        PropertyMap { items: Vec::new() }
    }

    pub fn as_slice(&self) -> (entries: &[Property])
        ensures
            entries@ == self.entries(),
    {
        self.items.as_slice()
    }

    /// Looks a property up by name, by binary search.
    pub fn get(&self, name: &str) -> (found: Option<&PropertyValue>)
        ensures
            match found {
                Some(value) => exists|i: int| 0 <= i < self.entries().len() && #[trigger] self.entries()[i].name@ == name@ && self.entries()[i].value == *value,
                None => forall|i: int| 0 <= i < self.entries().len() ==> #[trigger] self.entries()[i].name@ != name@,
            },
    {
        proof {
            use_type_invariant(self);
        }
        match find_text(&self.items, name) {
            Some(i) => {
                let value = &self.items[i].value;
                proof {
                    assert(self.entries()[i as int].name@ == name@ && self.entries()[i as int].value == *value);
                }
                Some(value)
            },
            None => {
                proof {
                    assert forall|i: int| 0 <= i < self.entries().len() implies #[trigger] self.entries()[i].name@ != name@ by {
                        assert(self.items@[i].text() == self.items@[i].name@);
                    }
                }
                None
            },
        }
    }

    pub fn len(&self) -> (count: usize)
        ensures
            count == self.entries().len(),
    {
        self.items.len()
    }

    pub fn is_empty(&self) -> (empty: bool)
        ensures
            empty == (self.entries().len() == 0),
    {
        self.items.len() == 0
    }
}

/// Building a property map sorts it: two maps built from the same
/// properties, in whatever order they arrived, hold them in the same order.
pub proof fn law_properties_ignore_arrival_order(
    first_input: Seq<Property>,
    second_input: Seq<Property>,
    first: PropertyMap,
    second: PropertyMap,
)
    requires
        first_input.to_multiset() =~= second_input.to_multiset(),
        first.entries().to_multiset() =~= first_input.to_multiset(),
        strictly_sorted_by_key(first.entries()),
        second.entries().to_multiset() =~= second_input.to_multiset(),
        strictly_sorted_by_key(second.entries()),
    ensures
        first.entries() == second.entries(),
{
    crate::sort::lemma_strictly_sorted_unique(first.entries(), second.entries());
}

} // verus!
