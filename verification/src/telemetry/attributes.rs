//! Typed key-value attributes, held sorted by key and duplicate-free.

use vstd::prelude::*;

use crate::order::{Order, key_lt, text_bytes, lemma_keys_facts, single_key, lemma_single_key};
use crate::sort::{
    Keyed, TextKeyed, find_text, sort_by_key, first_adjacent_duplicate, strictly_sorted_by_key, has_repeated_key,
    least_repeated_key, lemma_key_order,
};
use crate::telemetry::name::Name;
use crate::telemetry::number::{Finite, NonFiniteError, is_finite_bits, normalized_bits};
use crate::telemetry::vocabulary::AttrKey;
use crate::text::append;

verus! {

/// A typed scalar attribute value.
#[derive(Debug, PartialEq, Eq, Hash)]
#[non_exhaustive]
pub enum AttrValue {
    String(Name),
    Bool(bool),
    I64(i64),
    U64(u64),
    F64(Finite),
}

impl From<i64> for AttrValue {
    fn from(value: i64) -> (made: AttrValue)
        ensures
            made == AttrValue::I64(value),
    {
        AttrValue::I64(value)
    }
}

impl vstd::std_specs::convert::FromSpecImpl<i64> for AttrValue {
    open spec fn obeys_from_spec() -> bool {
        true
    }

    open spec fn from_spec(value: i64) -> AttrValue {
        AttrValue::I64(value)
    }
}

impl From<u64> for AttrValue {
    fn from(value: u64) -> (made: AttrValue)
        ensures
            made == AttrValue::U64(value),
    {
        AttrValue::U64(value)
    }
}

impl vstd::std_specs::convert::FromSpecImpl<u64> for AttrValue {
    open spec fn obeys_from_spec() -> bool {
        true
    }

    open spec fn from_spec(value: u64) -> AttrValue {
        AttrValue::U64(value)
    }
}

impl From<Finite> for AttrValue {
    fn from(value: Finite) -> (made: AttrValue)
        ensures
            made == AttrValue::F64(value),
    {
        AttrValue::F64(value)
    }
}

impl vstd::std_specs::convert::FromSpecImpl<Finite> for AttrValue {
    open spec fn obeys_from_spec() -> bool {
        true
    }

    open spec fn from_spec(value: Finite) -> AttrValue {
        AttrValue::F64(value)
    }
}

impl From<bool> for AttrValue {
    fn from(value: bool) -> (made: AttrValue)
        ensures
            made == AttrValue::Bool(value),
    {
        AttrValue::Bool(value)
    }
}

impl vstd::std_specs::convert::FromSpecImpl<bool> for AttrValue {
    open spec fn obeys_from_spec() -> bool {
        true
    }

    open spec fn from_spec(value: bool) -> AttrValue {
        AttrValue::Bool(value)
    }
}

impl From<Name> for AttrValue {
    fn from(value: Name) -> (made: AttrValue)
        ensures
            made == AttrValue::String(value),
    {
        AttrValue::String(value)
    }
}

impl vstd::std_specs::convert::FromSpecImpl<Name> for AttrValue {
    open spec fn obeys_from_spec() -> bool {
        true
    }

    open spec fn from_spec(value: Name) -> AttrValue {
        AttrValue::String(value)
    }
}

impl From<String> for AttrValue {
    fn from(value: String) -> (made: AttrValue)
        ensures
            made matches AttrValue::String(name) && name@ == value@,
    {
        AttrValue::String(Name::from(value))
    }
}

impl vstd::std_specs::convert::FromSpecImpl<String> for AttrValue {
    open spec fn obeys_from_spec() -> bool {
        false
    }

    open spec fn from_spec(value: String) -> AttrValue {
        arbitrary()
    }
}

impl<'a> From<&'a str> for AttrValue {
    fn from(value: &'a str) -> (made: AttrValue)
        ensures
            made matches AttrValue::String(name) && name@ == value@,
    {
        AttrValue::String(Name::from(value))
    }
}

impl<'a> vstd::std_specs::convert::FromSpecImpl<&'a str> for AttrValue {
    open spec fn obeys_from_spec() -> bool {
        false
    }

    open spec fn from_spec(value: &'a str) -> AttrValue {
        arbitrary()
    }
}

impl AttrValue {
    /// Builds a floating point value from a double's bits, rejecting
    /// non-finite input.
    pub fn float_bits(bits: u64) -> (made: Result<AttrValue, NonFiniteError>)
        ensures
            match made {
                Ok(AttrValue::F64(value)) => is_finite_bits(bits) && value.bits_of() == normalized_bits(bits),
                Ok(_) => false,
                Err(_) => !is_finite_bits(bits),
            },
    {
        match Finite::from_bits(bits) {
            Ok(value) => Ok(AttrValue::F64(value)),
            Err(error) => Err(error),
        }
    }
}

/// Whether two values are equal as data: names by their text.
pub open spec fn same_value(a: AttrValue, b: AttrValue) -> bool {
    match (a, b) {
        (AttrValue::String(x), AttrValue::String(y)) => x@ == y@,
        (AttrValue::Bool(x), AttrValue::Bool(y)) => x == y,
        (AttrValue::I64(x), AttrValue::I64(y)) => x == y,
        (AttrValue::U64(x), AttrValue::U64(y)) => x == y,
        (AttrValue::F64(x), AttrValue::F64(y)) => x == y,
        _ => false,
    }
}

impl AttrValue {
    /// Whether two values are equal as data.
    pub fn same(&self, other: &AttrValue) -> (same: bool)
        ensures
            same == same_value(*self, *other),
    {
        match (self, other) {
            (AttrValue::String(x), AttrValue::String(y)) => x.same(y),
            (AttrValue::Bool(x), AttrValue::Bool(y)) => *x == *y,
            (AttrValue::I64(x), AttrValue::I64(y)) => *x == *y,
            (AttrValue::U64(x), AttrValue::U64(y)) => *x == *y,
            (AttrValue::F64(x), AttrValue::F64(y)) => *x == *y,
            _ => false,
        }
    }
}

/// Whether two attribute sequences hold the same keys and values, in order.
pub open spec fn same_attributes(a: Seq<Attribute>, b: Seq<Attribute>) -> bool {
    &&& a.len() == b.len()
    &&& forall|i: int| #![trigger a[i]] 0 <= i < a.len() ==> a[i].key@ == b[i].key@ && same_value(a[i].value, b[i].value)
}

/// One key-value attribute.
#[derive(Debug, PartialEq, Eq, Hash)]
#[non_exhaustive]
pub struct Attribute {
    pub key: AttrKey,
    pub value: AttrValue,
}

impl Attribute {
    pub fn new(key: AttrKey, value: AttrValue) -> (made: Attribute)
        ensures
            made.key == key,
            made.value == value,
    {
        Attribute { key, value }
    }
}

impl Keyed for Attribute {
    open spec fn key(&self) -> Seq<Seq<u8>> {
        single_key(self.key@)
    }

    fn compare_key(&self, other: &Attribute) -> (order: Order) {
        proof {
            lemma_single_key(self.key@, other.key@);
            lemma_single_key(other.key@, self.key@);
            lemma_key_order(self.key(), other.key());
        }
        self.key.compare(&other.key)
    }
}

impl Clone for AttrValue {
    fn clone(&self) -> (copy: AttrValue)
        ensures
            copy == *self,
    {
        match self {
            AttrValue::String(name) => AttrValue::String(name.clone()),
            AttrValue::Bool(value) => AttrValue::Bool(*value),
            AttrValue::I64(value) => AttrValue::I64(*value),
            AttrValue::U64(value) => AttrValue::U64(*value),
            AttrValue::F64(value) => AttrValue::F64(*value),
        }
    }
}

impl Clone for Attribute {
    fn clone(&self) -> (copy: Attribute)
        ensures
            copy == *self,
    {
        Attribute { key: self.key.clone(), value: self.value.clone() }
    }
}

impl TextKeyed for Attribute {
    open spec fn text(&self) -> Seq<char> {
        self.key@
    }

    fn text_str(&self) -> (text: &str) {
        self.key.as_str()
    }

    proof fn lemma_text_key(&self) {
    }
}

/// A rejected attribute collection.
#[derive(Clone, Debug, PartialEq, Eq)]
#[non_exhaustive]
pub enum AttributesError {
    DuplicateKey(AttrKey),
}

/// What a rejected attribute collection says of itself.
pub open spec fn attributes_error_text(error: AttributesError) -> Seq<char> {
    match error {
        AttributesError::DuplicateKey(key) => "duplicate attribute key '"@ + key@ + "'"@,
    }
}

impl AttributesError {
    /// The human-readable description of the rejection.
    pub fn message(&self) -> (text: String)
        ensures
            text@ == attributes_error_text(*self),
    {
        let mut text = String::new();
        match self {
            AttributesError::DuplicateKey(key) => {
                append(&mut text, "duplicate attribute key '");
                append(&mut text, key.as_str());
                append(&mut text, "'");
            },
        }
        proof {
            assert(text@ =~= attributes_error_text(*self));
        }
        text
    }
}

/// An immutable, key-sorted attribute collection.
#[derive(Debug, PartialEq, Eq, Hash)]
pub struct Attributes {
    items: Vec<Attribute>,
}

impl Attributes {
    #[verifier::type_invariant]
    spec fn sorted_unique(self) -> bool {
        strictly_sorted_by_key(self.items@)
    }

    /// The attributes, in key order.
    pub closed spec fn entries(self) -> Seq<Attribute> {
        self.items@
    }

    /// Sorts attributes by key and rejects duplicate keys.
    ///
    /// Returns [`AttributesError::DuplicateKey`] naming the least repeated key
    /// if two attributes share a key.
    pub fn new(attributes: Vec<Attribute>) -> (made: Result<Attributes, AttributesError>)
        ensures
            made is Ok <==> !has_repeated_key(attributes@),
            match made {
                Ok(collection) => {
                    &&& collection.entries().to_multiset() =~= attributes@.to_multiset()
                    &&& strictly_sorted_by_key(collection.entries())
                },
                Err(AttributesError::DuplicateKey(key)) => least_repeated_key(attributes@, single_key(key@)),
            },
    {
        let sorted = sort_by_key(attributes);
        proof {
            crate::sort::lemma_repeats_preserved(attributes@, sorted@);
        }
        match first_adjacent_duplicate(&sorted) {
            Some(i) => Err(AttributesError::DuplicateKey(sorted[i].key.clone())),
            None => Ok(Attributes { items: sorted }),
        }
    }

    pub fn duplicate(&self) -> (copy: Attributes)
        ensures
            copy.entries() == self.entries(),
    {
        proof {
            use_type_invariant(self);
        }
        let items = self.items.clone();
        proof {
            assert(items@ =~= self.items@);
        }
        Attributes { items }
    }

    pub fn empty() -> (made: Attributes)
        ensures
            made.entries().len() == 0,
    {
        Attributes { items: Vec::new() }
    }

    pub fn as_slice(&self) -> (entries: &[Attribute])
        ensures
            entries@ == self.entries(),
    {
        self.items.as_slice()
    }

    /// Looks a key up by binary search.
    pub fn get(&self, key: &str) -> (found: Option<&AttrValue>)
        ensures
            match found {
                Some(value) => exists|i: int| 0 <= i < self.entries().len() && #[trigger] self.entries()[i].key@ == key@ && self.entries()[i].value == *value,
                None => forall|i: int| 0 <= i < self.entries().len() ==> #[trigger] self.entries()[i].key@ != key@,
            },
    {
        proof {
            use_type_invariant(self);
        }
        match find_text(&self.items, key) {
            Some(i) => {
                let value = &self.items[i].value;
                proof {
                    assert(self.entries()[i as int].key@ == key@ && self.entries()[i as int].value == *value);
                }
                Some(value)
            },
            None => {
                proof {
                    assert forall|i: int| 0 <= i < self.entries().len() implies #[trigger] self.entries()[i].key@ != key@ by {
                        assert(self.items@[i].text() == self.items@[i].key@);
                    }
                }
                None
            },
        }
    }

    /// Whether two collections hold the same attributes.
    pub fn same(&self, other: &Attributes) -> (same: bool)
        ensures
            same == same_attributes(self.entries(), other.entries()),
    {
        let a = self.items.as_slice();
        let b = other.items.as_slice();
        if a.len() != b.len() {
            return false;
        }
        let mut i: usize = 0;
        while i < a.len()
            invariant
                0 <= i <= a.len(),
                a.len() == b.len(),
                a@ == self.entries(),
                b@ == other.entries(),
                forall|j: int| #![trigger a@[j]] 0 <= j < i ==> a@[j].key@ == b@[j].key@ && same_value(a@[j].value, b@[j].value),
            decreases a.len() - i,
        {
            let same_key = a[i].key.same(&b[i].key);
            let same_val = a[i].value.same(&b[i].value);
            if !same_key || !same_val {
                return false;
            }
            assert(a@[i as int].key@ == b@[i as int].key@ && same_value(a@[i as int].value, b@[i as int].value));
            i = i + 1;
        }
        true
    }

    pub fn len(&self) -> (count: usize)
        ensures
            count == self.entries().len(),
    {
        self.items.len()
    }

    pub fn is_empty(&self) -> (empty: bool)
        ensures
            empty == (self.entries().len() == 0),
    {
        self.items.len() == 0
    }
}

impl Clone for Attributes {
    fn clone(&self) -> (copy: Attributes)
        ensures
            copy.entries() == self.entries(),
    {
        self.duplicate()
    }
}

/// Building attributes sorts them: two collections built from the same
/// attributes, in whatever order they arrived, hold them in the same order.
pub proof fn law_attributes_ignore_arrival_order(
    first_input: Seq<Attribute>,
    second_input: Seq<Attribute>,
    first: Attributes,
    second: Attributes,
)
    requires
        first_input.to_multiset() =~= second_input.to_multiset(),
        first.entries().to_multiset() =~= first_input.to_multiset(),
        strictly_sorted_by_key(first.entries()),
        second.entries().to_multiset() =~= second_input.to_multiset(),
        strictly_sorted_by_key(second.entries()),
    ensures
        first.entries() == second.entries(),
{
    crate::sort::lemma_strictly_sorted_unique(first.entries(), second.entries());
}

} // verus!
