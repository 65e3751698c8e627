//! The recursive property value: null, bool, integers, finite double, string,
//! bytes, instant, list, or key-sorted map.
//!
//! A wire value is a struct holding an optional arm and its validated form is
//! a tree; a wire map is an entry list and its validated form is sorted by key
//! and cannot hold a key twice. Construction goes through checked
//! constructors, so every bound holds for as long as a value exists; reading
//! goes through [`Value::kind`], which borrows.

use vstd::prelude::*;

use crate::order::{Order, compare_text, single_key, lemma_single_key};
use crate::schema::invalid::{Fault, Invalid, Violation, byte_len, element_path, fault_at, first_fault, length_fault, nested_path, reports, too_long, too_many};
use crate::schema::identity::count_fault;
use crate::schema::limits::{
    VALUE_BYTES_VALUE_MAX_LEN, VALUE_LIST_VALUES_MAX_ITEMS, VALUE_MAP_ENTRIES_MAX_ITEMS, VALUE_MAP_ENTRY_KEY_MAX_LEN, VALUE_MAX_DEPTH,
    VALUE_STRING_VALUE_MAX_LEN,
};
use crate::schema::value::{Timestamp, double_fault, timestamp_of_wire, wire_timestamp_fault};
use crate::schema::wire;
use crate::sort::{Keyed, TextKeyed, find_text, lemma_key_order, sort_by_key, strictly_sorted_by_key, upper_bound};
use crate::telemetry::number::{Finite, normalized_bits};

verus! {

broadcast use vstd::seq_lib::group_to_multiset_ensures;

/// The stored form of a value, one arm per kind the schema declares.
///
/// Public so that contracts can speak of it; a [`Value`] holding one is only
/// made by the checked constructors.
#[derive(Debug, PartialEq, Eq)]
pub enum Repr {
    Null,
    Bool(bool),
    Int(i64),
    Uint(u64),
    Double(Finite),
    String(String),
    Bytes(Vec<u8>),
    Timestamp(Timestamp),
    List(Vec<Value>),
    Entries(Vec<(String, Value)>),
}

/// A recursive property value.
///
/// Maps are sorted by key and hold no key twice, so the canonical entry order
/// the schema asks for is a property of the value rather than a pass over it.
#[derive(Debug, PartialEq, Eq)]
pub struct Value {
    repr: Repr,
    /// Logical nesting depth: a scalar is 1, a container one more than its
    /// deepest child. Computed at construction so the bound is checked once.
    depth: u32,
}

/// A borrowed view of a [`Value`] for pattern matching.
#[derive(Clone, Copy, Debug, PartialEq)]
#[non_exhaustive]
pub enum ValueKind<'a> {
    /// Present and explicitly null: a different fact from absent.
    Null,
    Bool(bool),
    Int(i64),
    Uint(u64),
    Double(Finite),
    String(&'a str),
    Bytes(&'a [u8]),
    Timestamp(Timestamp),
    /// A list whose order is data.
    List(&'a [Value]),
    /// A map's entries, sorted by key.
    Entries(&'a [(String, Value)]),
}

impl Keyed for (String, Value) {
    open spec fn key(&self) -> Seq<Seq<u8>> {
        single_key(self.0@)
    }

    fn compare_key(&self, other: &(String, Value)) -> (order: Order) {
        proof {
            lemma_single_key(self.0@, other.0@);
            lemma_single_key(other.0@, self.0@);
            lemma_key_order(self.key(), other.key());
        }
        compare_text(self.0.as_str(), other.0.as_str())
    }
}

impl TextKeyed for (String, Value) {
    open spec fn text(&self) -> Seq<char> {
        self.0@
    }

    fn text_str(&self) -> (text: &str) {
        self.0.as_str()
    }

    proof fn lemma_text_key(&self) {
    }
}

/// Whether `depth` is one more than the deepest of `values`, or one when
/// there are none.
pub open spec fn one_deeper(depth: nat, values: Seq<Value>) -> bool {
    &&& forall|i: int| 0 <= i < values.len() ==> #[trigger] values[i].depth_of() < depth
    &&& if values.len() == 0 {
        depth == 1
    } else {
        exists|i: int| 0 <= i < values.len() && #[trigger] values[i].depth_of() + 1 == depth
    }
}

/// The values of a map's entries, in entry order.
pub open spec fn entry_values(entries: Seq<(String, Value)>) -> Seq<Value> {
    Seq::new(entries.len(), |i: int| entries[i].1)
}

/// The keys of a map's entries, in entry order.
pub open spec fn entry_keys(entries: Seq<(String, Value)>) -> Seq<Seq<char>> {
    Seq::new(entries.len(), |i: int| entries[i].0@)
}

/// What is wrong with a map key on its own, if anything.
pub open spec fn key_violation(key: Seq<char>) -> Option<Violation> {
    if key.len() == 0 {
        Some(Violation::Empty)
    } else {
        length_fault(byte_len(key), VALUE_MAP_ENTRY_KEY_MAX_LEN)
    }
}

/// Whether a map's stored entries are canonical: within the count bound,
/// every key valid, keys strictly ascending.
pub open spec fn entries_canonical(entries: Seq<(String, Value)>) -> bool {
    &&& entries.len() <= VALUE_MAP_ENTRIES_MAX_ITEMS
    &&& forall|i: int| 0 <= i < entries.len() ==> key_violation(#[trigger] entries[i].0@) is None
    &&& strictly_sorted_by_key(entries)
}

/// The fault of a container whose children reach `MAX_DEPTH`, reported at
/// `field`.
pub open spec fn depth_fault(field: Seq<char>, values: Seq<Value>) -> Option<Fault> {
    if exists|i: int| 0 <= i < values.len() && #[trigger] values[i].depth_of() >= VALUE_MAX_DEPTH {
        Some((field, Violation::TooDeep { limit: VALUE_MAX_DEPTH }))
    } else {
        None
    }
}

/// What building a list of `values` reports, if anything.
pub open spec fn list_fault(values: Seq<Value>) -> Option<Fault> {
    first_fault(count_fault("values"@, values.len(), VALUE_LIST_VALUES_MAX_ITEMS), depth_fault("values"@, values))
}

/// The path of a map entry's key.
pub open spec fn entry_key_path(index: nat) -> Seq<char> {
    nested_path(element_path("entries"@, index), "key"@)
}

/// What is wrong with the key at `index` of an entry list, if anything: its
/// own bounds, or else that an earlier entry already holds it.
pub open spec fn entry_key_fault(keys: Seq<Seq<char>>, index: int) -> Option<Fault> {
    match key_violation(keys[index]) {
        Some(violation) => Some((entry_key_path(index as nat), violation)),
        None => if exists|j: int| 0 <= j < index && #[trigger] keys[j] == keys[index] {
            Some((entry_key_path(index as nat), Violation::Duplicate))
        } else {
            None
        },
    }
}

/// The first key fault of an entry list from `from` on.
pub open spec fn keys_fault(keys: Seq<Seq<char>>, from: int) -> Option<Fault>
    decreases keys.len() - from,
{
    if from < 0 || from >= keys.len() {
        None
    } else {
        first_fault(entry_key_fault(keys, from), keys_fault(keys, from + 1))
    }
}

/// What collecting entries with these keys into a map reports, if anything:
/// the keys in order, then the entry count.
pub open spec fn collect_fault(keys: Seq<Seq<char>>) -> Option<Fault> {
    first_fault(keys_fault(keys, 0), count_fault("entries"@, keys.len(), VALUE_MAP_ENTRIES_MAX_ITEMS))
}

/// What building a map of `entries` reports, if anything.
pub open spec fn map_fault(entries: Seq<(String, Value)>) -> Option<Fault> {
    first_fault(collect_fault(entry_keys(entries)), depth_fault("entries"@, entry_values(entries)))
}

/// Whether `kind` shows `repr`.
pub open spec fn kind_matches<'a>(kind: ValueKind<'a>, repr: Repr) -> bool {
    match (kind, repr) {
        (ValueKind::Null, Repr::Null) => true,
        (ValueKind::Bool(a), Repr::Bool(b)) => a == b,
        (ValueKind::Int(a), Repr::Int(b)) => a == b,
        (ValueKind::Uint(a), Repr::Uint(b)) => a == b,
        (ValueKind::Double(a), Repr::Double(b)) => a == b,
        (ValueKind::String(a), Repr::String(b)) => a@ == b@,
        (ValueKind::Bytes(a), Repr::Bytes(b)) => a@ == b@,
        (ValueKind::Timestamp(a), Repr::Timestamp(b)) => a == b,
        (ValueKind::List(a), Repr::List(b)) => a@ == b@,
        (ValueKind::Entries(a), Repr::Entries(b)) => a@ == b@,
        _ => false,
    }
}

impl Value {
    #[verifier::type_invariant]
    spec fn well_formed(self) -> bool {
        &&& 1 <= self.depth <= VALUE_MAX_DEPTH
        &&& match self.repr {
            Repr::String(text) => byte_len(text@) <= VALUE_STRING_VALUE_MAX_LEN && self.depth == 1,
            Repr::Bytes(bytes) => bytes@.len() <= VALUE_BYTES_VALUE_MAX_LEN && self.depth == 1,
            Repr::List(values) => values@.len() <= VALUE_LIST_VALUES_MAX_ITEMS && one_deeper(self.depth as nat, values@),
            Repr::Entries(entries) => entries_canonical(entries@) && one_deeper(self.depth as nat, entry_values(entries@)),
            _ => self.depth == 1,
        }
    }

    /// The stored form.
    pub closed spec fn repr_of(self) -> Repr {
        self.repr
    }

    /// The logical nesting depth.
    pub closed spec fn depth_of(self) -> nat {
        self.depth as nat
    }

    /// A scalar of the given stored form.
    fn scalar(repr: Repr) -> (made: Value)
        requires
            !(repr is String || repr is Bytes || repr is List || repr is Entries),
        ensures
            made.repr_of() == repr,
            made.depth_of() == 1,
    {
        Value { repr, depth: 1 }
    }

    /// The explicit null.
    pub fn null() -> (made: Value)
        ensures
            made.repr_of() == Repr::Null,
            made.depth_of() == 1,
    {
        Value::scalar(Repr::Null)
    }

    /// A boolean value.
    pub fn bool(value: bool) -> (made: Value)
        ensures
            made.repr_of() == Repr::Bool(value),
            made.depth_of() == 1,
    {
        Value::scalar(Repr::Bool(value))
    }

    /// A signed integer value.
    pub fn integer(value: i64) -> (made: Value)
        ensures
            made.repr_of() == Repr::Int(value),
            made.depth_of() == 1,
    {
        Value::scalar(Repr::Int(value))
    }

    /// An unsigned integer value.
    pub fn uint(value: u64) -> (made: Value)
        ensures
            made.repr_of() == Repr::Uint(value),
            made.depth_of() == 1,
    {
        Value::scalar(Repr::Uint(value))
    }

    /// An instant.
    pub fn timestamp(value: Timestamp) -> (made: Value)
        ensures
            made.repr_of() == Repr::Timestamp(value),
            made.depth_of() == 1,
    {
        Value::scalar(Repr::Timestamp(value))
    }

    /// A double value, from the double's bits.
    ///
    /// Refuses `NaN` and the infinities.
    pub fn double(bits: u64) -> (made: Result<Value, Invalid>)
        ensures
            reports(made, double_fault(bits)),
            made matches Ok(value) ==> value.repr_of() matches Repr::Double(f) && f.bits_of() == normalized_bits(bits)
                && value.depth_of() == 1,
    {
        match Finite::from_bits(bits) {
            Ok(value) => Ok(Value::scalar(Repr::Double(value))),
            Err(_) => Err(Invalid::field("double_value", Violation::NotFinite)),
        }
    }

    /// A string value.
    ///
    /// Refuses a string over the schema's byte bound.
    pub fn string(value: String) -> (made: Result<Value, Invalid>)
        ensures
            reports(
                made,
                match length_fault(byte_len(value@), VALUE_STRING_VALUE_MAX_LEN) {
                    Some(violation) => Some(("string_value"@, violation)),
                    None => None,
                },
            ),
            made matches Ok(made_value) ==> made_value.repr_of() == Repr::String(value) && made_value.depth_of() == 1,
    {
        match too_long(value.as_str().len(), VALUE_STRING_VALUE_MAX_LEN) {
            Some(violation) => Err(Invalid::field("string_value", violation)),
            None => Ok(Value { repr: Repr::String(value), depth: 1 }),
        }
    }

    /// A bytes value.
    ///
    /// Refuses bytes over the schema's bound.
    pub fn bytes(value: Vec<u8>) -> (made: Result<Value, Invalid>)
        ensures
            reports(
                made,
                match length_fault(value@.len(), VALUE_BYTES_VALUE_MAX_LEN) {
                    Some(violation) => Some(("bytes_value"@, violation)),
                    None => None,
                },
            ),
            made matches Ok(made_value) ==> made_value.repr_of() == Repr::Bytes(value) && made_value.depth_of() == 1,
    {
        match too_long(value.len(), VALUE_BYTES_VALUE_MAX_LEN) {
            Some(violation) => Err(Invalid::field("bytes_value", violation)),
            None => Ok(Value { repr: Repr::Bytes(value), depth: 1 }),
        }
    }

    /// The value, for pattern matching.
    pub fn kind(&self) -> (kind: ValueKind<'_>)
        ensures
            kind_matches(kind, self.repr_of()),
            self.repr_of() matches Repr::List(values) ==> one_deeper(self.depth_of(), values@),
            self.repr_of() matches Repr::Entries(entries) ==> one_deeper(self.depth_of(), entry_values(entries@)),
    {
        proof {
            use_type_invariant(self);
        }
        match &self.repr {
            Repr::Null => ValueKind::Null,
            Repr::Bool(value) => ValueKind::Bool(*value),
            Repr::Int(value) => ValueKind::Int(*value),
            Repr::Uint(value) => ValueKind::Uint(*value),
            Repr::Double(value) => ValueKind::Double(*value),
            Repr::String(value) => ValueKind::String(value.as_str()),
            Repr::Bytes(value) => ValueKind::Bytes(value.as_slice()),
            Repr::Timestamp(value) => ValueKind::Timestamp(*value),
            Repr::List(values) => ValueKind::List(values.as_slice()),
            Repr::Entries(entries) => ValueKind::Entries(entries.as_slice()),
        }
    }

    /// A list value. Order is data: it is preserved exactly, never sorted.
    ///
    /// Refuses a list over the schema's element bound, or one nested past the
    /// schema's depth bound.
    pub fn list(values: Vec<Value>) -> (made: Result<Value, Invalid>)
        ensures
            reports(made, list_fault(values@)),
            made matches Ok(value) ==> value.repr_of() == Repr::List(values) && one_deeper(value.depth_of(), values@),
    {
        if let Some(violation) = too_many(values.len(), VALUE_LIST_VALUES_MAX_ITEMS) {
            return Err(Invalid::field("values", violation));
        }
        let deepest = deepest_of(&values);
        if deepest >= VALUE_MAX_DEPTH {
            return Err(Invalid::field("values", Violation::TooDeep { limit: VALUE_MAX_DEPTH }));
        }
        Ok(Value { repr: Repr::List(values), depth: deepest + 1 })
    }

    /// A map value, sorted by key.
    ///
    /// Entries may arrive in any order; the map sorts them. What it refuses
    /// to do is choose between two values for one key: a map that names a key
    /// twice has no reading, so it is rejected rather than last-write-wins.
    ///
    /// Refuses an empty or over-long key or a repeated key (naming the first
    /// entry, in input order, at fault), more entries than the schema's
    /// bound, or nesting past the schema's depth bound.
    pub fn map(entries: Vec<(String, Value)>) -> (made: Result<Value, Invalid>)
        ensures
            reports(made, map_fault(entries@)),
            made matches Ok(value) ==> value.repr_of() matches Repr::Entries(sorted) && sorted@.to_multiset() =~= entries@.to_multiset()
                && strictly_sorted_by_key(sorted@),
            made matches Ok(value) ==> one_deeper(value.depth_of(), entry_values(entries@)),
    {
        match check_keys(&entries) {
            Ok(()) => {},
            Err(error) => {
                return Err(error);
            },
        }
        if let Some(violation) = too_many(entries.len(), VALUE_MAP_ENTRIES_MAX_ITEMS) {
            return Err(Invalid::field("entries", violation));
        }
        let deepest = deepest_entry(&entries);
        if deepest >= VALUE_MAX_DEPTH {
            return Err(Invalid::field("entries", Violation::TooDeep { limit: VALUE_MAX_DEPTH }));
        }
        let ghost input = entries@;
        let sorted = sort_by_key(entries);
        proof {
            lemma_canonical_entries(input, sorted@);
            lemma_one_deeper_permuted(input, sorted@, (deepest + 1) as nat);
        }
        Ok(Value { repr: Repr::Entries(sorted), depth: deepest + 1 })
    }

    /// Logical nesting depth: a scalar is 1, a container one more than its
    /// deepest child.
    pub fn depth(&self) -> (depth: u32)
        ensures
            depth == self.depth_of(),
            1 <= depth <= VALUE_MAX_DEPTH,
    {
        proof {
            use_type_invariant(self);
        }
        self.depth
    }
}

/// The deepest depth among `values`; zero for none.
fn deepest_of(values: &Vec<Value>) -> (deepest: u32)
    ensures
        forall|i: int| 0 <= i < values@.len() ==> #[trigger] values@[i].depth_of() <= deepest,
        values@.len() == 0 ==> deepest == 0,
        values@.len() > 0 ==> exists|i: int| 0 <= i < values@.len() && #[trigger] values@[i].depth_of() == deepest,
{
    let mut deepest: u32 = 0;
    let mut i: usize = 0;
    while i < values.len()
        invariant
            0 <= i <= values@.len(),
            forall|k: int| 0 <= k < i ==> #[trigger] values@[k].depth_of() <= deepest,
            i == 0 ==> deepest == 0,
            i > 0 ==> exists|k: int| 0 <= k < i && #[trigger] values@[k].depth_of() == deepest,
        decreases values@.len() - i,
    {
        let depth = values[i].depth();
        if depth > deepest {
            deepest = depth;
        }
        i = i + 1;
    }
    deepest
}

/// The deepest depth among the values of `entries`; zero for none.
fn deepest_entry(entries: &Vec<(String, Value)>) -> (deepest: u32)
    ensures
        forall|i: int| 0 <= i < entries@.len() ==> #[trigger] entry_values(entries@)[i].depth_of() <= deepest,
        entries@.len() == 0 ==> deepest == 0,
        entries@.len() > 0 ==> exists|i: int| 0 <= i < entries@.len() && #[trigger] entry_values(entries@)[i].depth_of() == deepest,
{
    let mut deepest: u32 = 0;
    let mut i: usize = 0;
    while i < entries.len()
        invariant
            0 <= i <= entries@.len(),
            forall|k: int| 0 <= k < i ==> #[trigger] entry_values(entries@)[k].depth_of() <= deepest,
            i == 0 ==> deepest == 0,
            i > 0 ==> exists|k: int| 0 <= k < i && #[trigger] entry_values(entries@)[k].depth_of() == deepest,
        decreases entries@.len() - i,
    {
        let depth = entries[i].1.depth();
        proof {
            assert(entry_values(entries@)[i as int] == entries@[i as int].1);
        }
        if depth > deepest {
            deepest = depth;
        }
        i = i + 1;
    }
    deepest
}

/// Key faults before `to` are absent from `from` on, so the first fault from
/// `from` is the first from `to`.
proof fn lemma_keys_fault_skip(keys: Seq<Seq<char>>, from: int, to: int)
    requires
        0 <= from <= to <= keys.len(),
        forall|k: int| from <= k < to ==> #[trigger] entry_key_fault(keys, k) is None,
    ensures
        keys_fault(keys, from) == keys_fault(keys, to),
    decreases to - from,
{
    if from < to {
        lemma_keys_fault_skip(keys, from + 1, to);
    }
}

/// Checks each entry's key in order: its bounds, then that no earlier entry
/// holds it.
fn check_keys(entries: &Vec<(String, Value)>) -> (checked: Result<(), Invalid>)
    ensures
        reports(checked, keys_fault(entry_keys(entries@), 0)),
{
    let ghost keys = entry_keys(entries@);
    let mut i: usize = 0;
    while i < entries.len()
        invariant
            0 <= i <= entries@.len(),
            keys == entry_keys(entries@),
            forall|k: int| 0 <= k < i ==> #[trigger] entry_key_fault(keys, k) is None,
        decreases entries@.len() - i,
    {
        let key = entries[i].0.as_str();
        proof {
            assert(keys[i as int] == key@);
            lemma_keys_fault_skip(keys, 0, i as int);
        }
        if key.is_empty() {
            return Err(Invalid::field("key", Violation::Empty).at_index("entries", i));
        }
        if let Some(violation) = too_long(key.len(), VALUE_MAP_ENTRY_KEY_MAX_LEN) {
            return Err(Invalid::field("key", violation).at_index("entries", i));
        }
        proof {
            assert(key_violation(keys[i as int]) is None);
        }
        let mut j: usize = 0;
        while j < i
            invariant
                0 <= j <= i < entries@.len(),
                keys == entry_keys(entries@),
                key@ == keys[i as int],
                key_violation(keys[i as int]) is None,
                keys_fault(keys, 0) == keys_fault(keys, i as int),
                forall|k: int| 0 <= k < i ==> #[trigger] entry_key_fault(keys, k) is None,
                forall|k: int| 0 <= k < j ==> #[trigger] keys[k] != keys[i as int],
            decreases i - j,
        {
            proof {
                assert(keys[j as int] == entries@[j as int].0@);
            }
            if compare_text(entries[j].0.as_str(), key) == Order::Equal {
                proof {
                    assert(keys[j as int] == keys[i as int]);
                    assert(key_violation(keys[i as int]) is None);
                    assert(entry_key_fault(keys, i as int) == Some((entry_key_path(i as nat), Violation::Duplicate)));
                }
                return Err(Invalid::field("key", Violation::Duplicate).at_index("entries", i));
            }
            j = j + 1;
        }
        i = i + 1;
    }
    proof {
        lemma_keys_fault_skip(keys, 0, entries@.len() as int);
    }
    Ok(())
}

/// Entries whose keys pass every key check, sorted, are canonical.
proof fn lemma_canonical_entries(input: Seq<(String, Value)>, sorted: Seq<(String, Value)>)
    requires
        keys_fault(entry_keys(input), 0) is None,
        input.len() <= VALUE_MAP_ENTRIES_MAX_ITEMS,
        sorted.to_multiset() =~= input.to_multiset(),
        crate::sort::sorted_by_key(sorted),
    ensures
        entries_canonical(sorted),
{
    let keys = entry_keys(input);
    assert forall|k: int| 0 <= k < input.len() implies #[trigger] entry_key_fault(keys, k) is None by {
        lemma_keys_fault_skip_to(keys, k);
    }
    assert(!crate::sort::has_repeated_key(input)) by {
        if crate::sort::has_repeated_key(input) {
            let (a, b) = choose|a: int, b: int| 0 <= a < input.len() && 0 <= b < input.len() && a != b && #[trigger] input[a].key() == #[trigger] input[b].key();
            lemma_single_key(input[a].0@, input[b].0@);
            let lo = if a < b { a } else { b };
            let hi = if a < b { b } else { a };
            assert(keys[lo] == keys[hi]);
            assert(entry_key_fault(keys, hi) is None);
        }
    }
    crate::sort::lemma_repeats_preserved(input, sorted);
    assert forall|i: int| 0 <= i < sorted.len() - 1 implies sorted[i].key() != #[trigger] sorted[i + 1].key() by {
        if sorted[i].key() == sorted[i + 1].key() {
            assert(crate::sort::has_repeated_key(sorted));
        }
    }
    crate::sort::lemma_no_adjacent_equal_strict(sorted);
    assert forall|i: int| 0 <= i < sorted.len() implies key_violation(#[trigger] sorted[i].0@) is None by {
        let j = crate::sort::lemma_find_in_permutation(sorted, input, i);
        assert(keys[j] == input[j].0@);
        assert(entry_key_fault(keys, j) is None);
    }
    assert(sorted.len() == input.len()) by {
        assert(sorted.to_multiset().len() == input.to_multiset().len());
    }
}

/// With no fault before `k`, none at `k` either, once the whole list is free
/// of faults.
proof fn lemma_keys_fault_skip_to(keys: Seq<Seq<char>>, k: int)
    requires
        0 <= k < keys.len(),
        keys_fault(keys, 0) is None,
    ensures
        entry_key_fault(keys, k) is None,
    decreases k,
{
    if k > 0 {
        lemma_keys_fault_skip_to(keys, k - 1);
        lemma_keys_fault_upto(keys, k - 1);
    }
}

/// A list free of key faults from `0` is free of them from every later start.
proof fn lemma_keys_fault_upto(keys: Seq<Seq<char>>, k: int)
    requires
        0 <= k < keys.len(),
        keys_fault(keys, 0) is None,
    ensures
        keys_fault(keys, k) is None,
        keys_fault(keys, k + 1) is None,
    decreases k,
{
    if k > 0 {
        lemma_keys_fault_upto(keys, k - 1);
    }
}

/// Being one deeper than a set of values does not depend on their order.
proof fn lemma_one_deeper_permuted(a: Seq<(String, Value)>, b: Seq<(String, Value)>, depth: nat)
    requires
        a.to_multiset() =~= b.to_multiset(),
        one_deeper(depth, entry_values(a)),
    ensures
        one_deeper(depth, entry_values(b)),
{
    assert(a.len() == b.len()) by {
        assert(a.to_multiset().len() == b.to_multiset().len());
    }
    assert forall|i: int| 0 <= i < b.len() implies #[trigger] entry_values(b)[i].depth_of() < depth by {
        let j = crate::sort::lemma_find_in_permutation(b, a, i);
        assert(entry_values(a)[j] == a[j].1);
    }
    if b.len() > 0 {
        let i = choose|i: int| 0 <= i < a.len() && #[trigger] entry_values(a)[i].depth_of() + 1 == depth;
        let j = crate::sort::lemma_find_in_permutation(a, b, i);
        assert(entry_values(b)[j] == b[j].1);
    }
}

// ------------------------------------------------------------ wire decoding

/// The larger of two depths.
pub open spec fn deeper(a: nat, b: nat) -> nat {
    if a >= b {
        a
    } else {
        b
    }
}

/// The depth a wire value decodes to.
pub open spec fn wire_depth(w: wire::Value) -> nat
    decreases w,
{
    match w.kind {
        Some(wire::ValueArm::ListValue(list)) => 1 + wire_values_depth(list.values@, 0),
        Some(wire::ValueArm::MapValue(map)) => 1 + wire_entries_depth(map.entries@, 0),
        _ => 1,
    }
}

/// The deepest decoded depth among wire values from `from` on; zero for
/// none.
pub open spec fn wire_values_depth(values: Seq<wire::Value>, from: int) -> nat
    decreases values, values.len() - from,
{
    if 0 <= from < values.len() {
        deeper(wire_depth(values[from]), wire_values_depth(values, from + 1))
    } else {
        0
    }
}

/// The deepest decoded depth among wire entries' values from `from` on.
pub open spec fn wire_entries_depth(entries: Seq<wire::MapEntry>, from: int) -> nat
    decreases entries, entries.len() - from,
{
    if 0 <= from < entries.len() {
        deeper(
            match entries[from].value {
                Some(value) => wire_depth(value),
                None => 0,
            },
            wire_entries_depth(entries, from + 1),
        )
    } else {
        0
    }
}

/// The fault a fault inside element `index` of `field` is reported as.
pub open spec fn element_fault(field: Seq<char>, index: int, fault: Option<Fault>) -> Option<Fault> {
    match fault {
        Some((path, violation)) => Some((nested_path(element_path(field, index as nat), path), violation)),
        None => None,
    }
}

/// What decoding a wire value reports, if anything.
pub open spec fn wire_value_fault(w: wire::Value) -> Option<Fault>
    decreases w,
{
    match w.kind {
        None => Some(("kind"@, Violation::Absent)),
        Some(wire::ValueArm::DoubleValue(bits)) => double_fault(bits),
        Some(wire::ValueArm::StringValue(text)) => match length_fault(byte_len(text@), VALUE_STRING_VALUE_MAX_LEN) {
            Some(violation) => Some(("string_value"@, violation)),
            None => None,
        },
        Some(wire::ValueArm::BytesValue(bytes)) => match length_fault(bytes@.len(), VALUE_BYTES_VALUE_MAX_LEN) {
            Some(violation) => Some(("bytes_value"@, violation)),
            None => None,
        },
        Some(wire::ValueArm::TimestampValue(t)) => fault_at("timestamp_value"@, wire_timestamp_fault(t)),
        Some(wire::ValueArm::ListValue(list)) => first_fault(
            wire_values_fault(list.values@, 0),
            fault_at("list_value"@, wire_list_shape_fault(list.values@)),
        ),
        Some(wire::ValueArm::MapValue(map)) => fault_at(
            "map_value"@,
            first_fault(
                wire_entries_fault(map.entries@, 0),
                first_fault(collect_fault(wire_entry_keys(map.entries@)), wire_entries_depth_fault(map.entries@)),
            ),
        ),
        Some(_) => None,
    }
}

/// The first fault among wire list elements from `from` on.
pub open spec fn wire_values_fault(values: Seq<wire::Value>, from: int) -> Option<Fault>
    decreases values, values.len() - from,
{
    if 0 <= from < values.len() {
        first_fault(element_fault("values"@, from, wire_value_fault(values[from])), wire_values_fault(values, from + 1))
    } else {
        None
    }
}

/// The first fault among wire map entries from `from` on: a missing key, a
/// missing value, or a value that does not decode.
pub open spec fn wire_entries_fault(entries: Seq<wire::MapEntry>, from: int) -> Option<Fault>
    decreases entries, entries.len() - from,
{
    if 0 <= from < entries.len() {
        first_fault(
            match (entries[from].key, entries[from].value) {
                (None, _) => Some((entry_key_path(from as nat), Violation::Absent)),
                (Some(_), None) => Some((nested_path(element_path("entries"@, from as nat), "value"@), Violation::Absent)),
                (Some(_), Some(value)) => element_fault("entries"@, from, fault_at("value"@, wire_value_fault(value))),
            },
            wire_entries_fault(entries, from + 1),
        )
    } else {
        None
    }
}

/// What a decoded list of these wire elements reports as a list.
pub open spec fn wire_list_shape_fault(values: Seq<wire::Value>) -> Option<Fault> {
    first_fault(
        count_fault("values"@, values.len(), VALUE_LIST_VALUES_MAX_ITEMS),
        if wire_values_depth(values, 0) >= VALUE_MAX_DEPTH {
            Some(("values"@, Violation::TooDeep { limit: VALUE_MAX_DEPTH }))
        } else {
            None
        },
    )
}

/// The depth fault of a map holding these decoded wire entries.
pub open spec fn wire_entries_depth_fault(entries: Seq<wire::MapEntry>) -> Option<Fault> {
    if wire_entries_depth(entries, 0) >= VALUE_MAX_DEPTH {
        Some(("entries"@, Violation::TooDeep { limit: VALUE_MAX_DEPTH }))
    } else {
        None
    }
}

/// The keys of wire map entries, empty where absent.
pub open spec fn wire_entry_keys(entries: Seq<wire::MapEntry>) -> Seq<Seq<char>> {
    Seq::new(
        entries.len(),
        |i: int|
            match entries[i].key {
                Some(key) => key@,
                None => Seq::empty(),
            },
    )
}

/// What decoding a bare wire map reports, if anything: the entries in order,
/// then the keys and the count.
pub open spec fn wire_map_fault(map: wire::ValueMap) -> Option<Fault> {
    first_fault(wire_entries_fault(map.entries@, 0), collect_fault(wire_entry_keys(map.entries@)))
}

/// Whether `v` is the validated form of the wire value `w`.
pub open spec fn decodes(w: wire::Value, v: Value) -> bool
    decreases w,
{
    &&& v.depth_of() == wire_depth(w)
    &&& match w.kind {
        Some(wire::ValueArm::NullValue) => v.repr_of() == Repr::Null,
        Some(wire::ValueArm::BoolValue(b)) => v.repr_of() == Repr::Bool(b),
        Some(wire::ValueArm::IntValue(i)) => v.repr_of() == Repr::Int(i),
        Some(wire::ValueArm::UintValue(u)) => v.repr_of() == Repr::Uint(u),
        Some(wire::ValueArm::DoubleValue(bits)) => v.repr_of() matches Repr::Double(f) && f.bits_of() == normalized_bits(bits),
        Some(wire::ValueArm::StringValue(text)) => v.repr_of() matches Repr::String(s) && s@ == text@,
        Some(wire::ValueArm::BytesValue(bytes)) => v.repr_of() matches Repr::Bytes(b) && b@ == bytes@,
        Some(wire::ValueArm::TimestampValue(t)) => v.repr_of() == Repr::Timestamp(timestamp_of_wire(t)),
        Some(wire::ValueArm::ListValue(list)) => v.repr_of() matches Repr::List(values) && values_decode(list.values@, values@, 0)
            && values@.len() == list.values@.len(),
        Some(wire::ValueArm::MapValue(map)) => v.repr_of() matches Repr::Entries(entries) && entries_decode(map.entries@, entries@, 0)
            && entries@.len() == map.entries@.len(),
        None => false,
    }
}

/// Whether each wire element from `from` on decodes to the value at its
/// position.
pub open spec fn values_decode(ws: Seq<wire::Value>, vs: Seq<Value>, from: int) -> bool
    decreases ws, ws.len() - from,
{
    if 0 <= from < ws.len() {
        decodes(ws[from], vs[from]) && values_decode(ws, vs, from + 1)
    } else {
        true
    }
}

/// Whether each wire entry from `from` on has its key among `es`, holding the
/// value it decodes to.
pub open spec fn entries_decode(ws: Seq<wire::MapEntry>, es: Seq<(String, Value)>, from: int) -> bool
    decreases ws, ws.len() - from,
{
    if 0 <= from < ws.len() {
        &&& match (ws[from].key, ws[from].value) {
            (Some(key), Some(value)) => exists|j: int| 0 <= j < es.len() && es[j].0@ == key@ && decodes(value, #[trigger] es[j].1),
            _ => false,
        }
        &&& entries_decode(ws, es, from + 1)
    } else {
        true
    }
}

/// List element faults before `to` are absent, so the first fault from
/// `from` is the first from `to`.
proof fn lemma_values_fault_skip(ws: Seq<wire::Value>, from: int, to: int)
    requires
        0 <= from <= to <= ws.len(),
        forall|k: int| from <= k < to ==> #[trigger] wire_value_fault(ws[k]) is None,
    ensures
        wire_values_fault(ws, from) == wire_values_fault(ws, to),
    decreases to - from,
{
    if from < to {
        lemma_values_fault_skip(ws, from + 1, to);
        assert(wire_value_fault(ws[from]) is None);
        assert(element_fault("values"@, from, wire_value_fault(ws[from])) is None);
        assert(wire_values_fault(ws, from) == wire_values_fault(ws, from + 1));
    }
}

/// The fault of one wire map entry.
pub open spec fn wire_entry_fault(entries: Seq<wire::MapEntry>, index: int) -> Option<Fault> {
    match (entries[index].key, entries[index].value) {
        (None, _) => Some((entry_key_path(index as nat), Violation::Absent)),
        (Some(_), None) => Some((nested_path(element_path("entries"@, index as nat), "value"@), Violation::Absent)),
        (Some(_), Some(value)) => element_fault("entries"@, index, fault_at("value"@, wire_value_fault(value))),
    }
}

/// Entry faults before `to` are absent, so the first fault from `from` is
/// the first from `to`.
proof fn lemma_entries_fault_skip(ws: Seq<wire::MapEntry>, from: int, to: int)
    requires
        0 <= from <= to <= ws.len(),
        forall|k: int| from <= k < to ==> #[trigger] wire_entry_fault(ws, k) is None,
    ensures
        wire_entries_fault(ws, from) == wire_entries_fault(ws, to),
    decreases to - from,
{
    if from < to {
        lemma_entries_fault_skip(ws, from + 1, to);
        assert(wire_entry_fault(ws, from) is None);
        assert(wire_entries_fault(ws, from) == wire_entries_fault(ws, from + 1));
    }
}

/// Position-wise decoding is `values_decode`.
proof fn lemma_values_decode(ws: Seq<wire::Value>, vs: Seq<Value>, from: int)
    requires
        0 <= from <= ws.len(),
        vs.len() == ws.len(),
        forall|k: int| from <= k < ws.len() ==> decodes(#[trigger] ws[k], vs[k]),
    ensures
        values_decode(ws, vs, from),
    decreases ws.len() - from,
{
    if from < ws.len() {
        lemma_values_decode(ws, vs, from + 1);
    }
}

/// Every entry found among `es` is `entries_decode`.
proof fn lemma_entries_decode(ws: Seq<wire::MapEntry>, es: Seq<(String, Value)>, from: int)
    requires
        0 <= from <= ws.len(),
        forall|k: int|
            from <= k < ws.len() ==> (#[trigger] ws[k]).key is Some && ws[k].value is Some && exists|j: int|
                0 <= j < es.len() && es[j].0@ == ws[k].key->0@ && decodes(ws[k].value->0, #[trigger] es[j].1),
    ensures
        entries_decode(ws, es, from),
    decreases ws.len() - from,
{
    if from < ws.len() {
        lemma_entries_decode(ws, es, from + 1);
        let w = ws[from];
        assert(w.key is Some && w.value is Some);
    }
}

/// Values decoded from wire values sit at the wire depths, so the deepest of
/// them is the deepest wire depth.
proof fn lemma_values_depth(ws: Seq<wire::Value>, vs: Seq<Value>, from: int)
    requires
        0 <= from <= ws.len(),
        vs.len() == ws.len(),
        forall|k: int| 0 <= k < ws.len() ==> #[trigger] vs[k].depth_of() == wire_depth(ws[k]),
    ensures
        forall|k: int| from <= k < ws.len() ==> #[trigger] vs[k].depth_of() <= wire_values_depth(ws, from),
        from < ws.len() ==> exists|k: int| from <= k < ws.len() && #[trigger] vs[k].depth_of() == wire_values_depth(ws, from),
        from == ws.len() ==> wire_values_depth(ws, from) == 0,
    decreases ws.len() - from,
{
    if from < ws.len() {
        lemma_values_depth(ws, vs, from + 1);
        assert(vs[from].depth_of() == wire_depth(ws[from]));
    }
}

/// The depth of a decoded wire map entry's value.
pub open spec fn wire_entry_depth(entries: Seq<wire::MapEntry>, index: int) -> nat {
    match entries[index].value {
        Some(value) => wire_depth(value),
        None => 0,
    }
}

/// Map values decoded from wire entries sit at the wire depths.
proof fn lemma_entries_depth(ws: Seq<wire::MapEntry>, vs: Seq<Value>, from: int)
    requires
        0 <= from <= ws.len(),
        vs.len() == ws.len(),
        forall|k: int| 0 <= k < ws.len() ==> #[trigger] vs[k].depth_of() == wire_entry_depth(ws, k),
    ensures
        forall|k: int| from <= k < ws.len() ==> #[trigger] vs[k].depth_of() <= wire_entries_depth(ws, from),
        from < ws.len() ==> exists|k: int| from <= k < ws.len() && #[trigger] vs[k].depth_of() == wire_entries_depth(ws, from),
        from == ws.len() ==> wire_entries_depth(ws, from) == 0,
    decreases ws.len() - from,
{
    if from < ws.len() {
        lemma_entries_depth(ws, vs, from + 1);
        assert(vs[from].depth_of() == wire_entry_depth(ws, from));
    }
}

/// Decodes a wire value, running every check its constructor runs.
fn value_from_wire(w: wire::Value) -> (made: Result<Value, Invalid>)
    ensures
        reports(made, wire_value_fault(w)),
        made matches Ok(v) ==> decodes(w, v),
    decreases w,
{
    let ghost whole = w;
    match w.kind {
        None => Err(Invalid::field("kind", Violation::Absent)),
        Some(wire::ValueArm::NullValue) => Ok(Value::null()),
        Some(wire::ValueArm::BoolValue(b)) => Ok(Value::bool(b)),
        Some(wire::ValueArm::IntValue(i)) => Ok(Value::integer(i)),
        Some(wire::ValueArm::UintValue(u)) => Ok(Value::uint(u)),
        Some(wire::ValueArm::DoubleValue(bits)) => Value::double(bits),
        Some(wire::ValueArm::StringValue(text)) => Value::string(text),
        Some(wire::ValueArm::BytesValue(bytes)) => Value::bytes(bytes),
        Some(wire::ValueArm::TimestampValue(t)) => match Timestamp::try_from(t) {
            Ok(t) => Ok(Value::timestamp(t)),
            Err(error) => Err(error.at("timestamp_value")),
        },
        Some(wire::ValueArm::ListValue(list)) => {
            let ghost ws = list.values@;
            proof {
                let k = whole.kind;
                let a = k->0;
                assert(decreases_to!(whole => k));
                assert(decreases_to!(k => a));
                assert(decreases_to!(a => list));
            }
            let values = match elements_from_wire(list) {
                Ok(values) => values,
                Err(error) => {
                    return Err(error);
                },
            };
            proof {
                lemma_values_depth(ws, values@, 0);
                lemma_values_decode(ws, values@, 0);
                if wire_values_depth(ws, 0) >= VALUE_MAX_DEPTH {
                    let k = choose|k: int| 0 <= k < ws.len() && #[trigger] values@[k].depth_of() == wire_values_depth(ws, 0);
                    assert(values@[k].depth_of() >= VALUE_MAX_DEPTH);
                }
                assert(list_fault(values@) == wire_list_shape_fault(ws));
            }
            match Value::list(values) {
                Ok(v) => Ok(v),
                Err(error) => Err(error.at("list_value")),
            }
        },
        Some(wire::ValueArm::MapValue(map)) => {
            let ghost ws = map.entries@;
            proof {
                let k = whole.kind;
                let a = k->0;
                assert(decreases_to!(whole => k));
                assert(decreases_to!(k => a));
                assert(decreases_to!(a => map));
            }
            let entries = match entries_from_wire(map) {
                Ok(entries) => entries,
                Err(error) => {
                    return Err(error.at("map_value"));
                },
            };
            let ghost input = entries@;
            proof {
                assert(entry_keys(input) =~= wire_entry_keys(ws));
                assert forall|k: int| 0 <= k < ws.len() implies #[trigger] entry_values(input)[k].depth_of() == wire_entry_depth(ws, k) by {
                    assert(entry_values(input)[k] == input[k].1);
                }
                lemma_entries_depth(ws, entry_values(input), 0);
                if wire_entries_depth(ws, 0) >= VALUE_MAX_DEPTH {
                    let k = choose|k: int| 0 <= k < ws.len() && #[trigger] entry_values(input)[k].depth_of() == wire_entries_depth(ws, 0);
                    assert(entry_values(input)[k].depth_of() >= VALUE_MAX_DEPTH);
                }
                assert(map_fault(input) == first_fault(collect_fault(wire_entry_keys(ws)), wire_entries_depth_fault(ws)));
            }
            match Value::map(entries) {
                Ok(v) => {
                    proof {
                        let sorted = v.repr_of()->Entries_0@;
                        assert forall|k: int| 0 <= k < ws.len() implies (#[trigger] ws[k]).key is Some && ws[k].value is Some && exists|j: int|
                            0 <= j < sorted.len() && sorted[j].0@ == ws[k].key->0@ && decodes(ws[k].value->0, #[trigger] sorted[j].1) by {
                            let j = crate::sort::lemma_find_in_permutation(input, sorted, k);
                            assert(sorted[j] == input[k]);
                        }
                        lemma_entries_decode(ws, sorted, 0);
                        assert(sorted.len() == input.len()) by {
                            assert(sorted.to_multiset().len() == input.to_multiset().len());
                        }
                    }
                    Ok(v)
                },
                Err(error) => Err(error.at("map_value")),
            }
        },
    }
}

/// Decodes the elements of a wire list in order, naming the first that does
/// not decode.
fn elements_from_wire(list: wire::ValueList) -> (made: Result<Vec<Value>, Invalid>)
    ensures
        reports(made, wire_values_fault(list.values@, 0)),
        made matches Ok(values) ==> values@.len() == list.values@.len() && forall|k: int|
            0 <= k < values@.len() ==> decodes(#[trigger] list.values@[k], values@[k]),
    decreases list,
{
    let ghost whole = list;
    let ghost ws = list.values@;
    let mut values: Vec<Value> = Vec::new();
    for element in it: list.values.into_iter()
        invariant
            whole == list,
            ws == whole.values@,
            it.seq() == ws,
            values@.len() == it.index(),
            it.index() <= ws.len(),
            forall|k: int| 0 <= k < it.index() ==> #[trigger] wire_value_fault(ws[k]) is None,
            forall|k: int| 0 <= k < it.index() ==> decodes(#[trigger] ws[k], values@[k]),
    {
        let index = values.len();
        proof {
            assert(element == ws[index as int]);
            assert(decreases_to!(whole => whole.values));
            assert(decreases_to!(whole.values => whole.values@));
            assert(decreases_to!(whole.values@ => whole.values@[index as int]));
            lemma_values_fault_skip(ws, 0, index as int);
        }
        match value_from_wire(element) {
            Ok(value) => {
                values.push(value);
            },
            Err(error) => {
                return Err(error.at_index("values", index));
            },
        }
    }
    proof {
        lemma_values_fault_skip(ws, 0, ws.len() as int);
    }
    Ok(values)
}

/// Decodes the entries of a wire map in order, naming the first whose key or
/// value is absent or whose value does not decode. The entries keep their
/// wire order; collecting them into a map is a separate step.
fn entries_from_wire(map: wire::ValueMap) -> (made: Result<Vec<(String, Value)>, Invalid>)
    ensures
        reports(made, wire_entries_fault(map.entries@, 0)),
        made matches Ok(entries) ==> entries@.len() == map.entries@.len() && forall|k: int|
            0 <= k < entries@.len() ==> (#[trigger] map.entries@[k]).key == Some(entries@[k].0) && map.entries@[k].value is Some
                && decodes(map.entries@[k].value->0, entries@[k].1),
    decreases map,
{
    let ghost whole = map;
    let ghost ws = map.entries@;
    let mut entries: Vec<(String, Value)> = Vec::new();
    for entry in it: map.entries.into_iter()
        invariant
            whole == map,
            ws == whole.entries@,
            it.seq() == ws,
            entries@.len() == it.index(),
            it.index() <= ws.len(),
            forall|k: int| 0 <= k < it.index() ==> #[trigger] wire_entry_fault(ws, k) is None,
            forall|k: int|
                0 <= k < it.index() ==> (#[trigger] ws[k]).key == Some(entries@[k].0) && ws[k].value is Some && decodes(
                    ws[k].value->0,
                    entries@[k].1,
                ),
    {
        let index = entries.len();
        proof {
            assert(entry == ws[index as int]);
            lemma_entries_fault_skip(ws, 0, index as int);
        }
        let key = match entry.key {
            Some(key) => key,
            None => {
                return Err(Invalid::field("key", Violation::Absent).at_index("entries", index));
            },
        };
        let value = match entry.value {
            Some(value) => value,
            None => {
                return Err(Invalid::field("value", Violation::Absent).at_index("entries", index));
            },
        };
        proof {
            let e = whole.entries@[index as int];
            assert(decreases_to!(whole => whole.entries));
            assert(decreases_to!(whole.entries => whole.entries@));
            assert(decreases_to!(whole.entries@ => e));
            assert(decreases_to!(e => e.value));
            assert(decreases_to!(e.value => e.value->0));
        }
        match value_from_wire(value) {
            Ok(value) => {
                entries.push((key, value));
            },
            Err(error) => {
                return Err(error.at("value").at_index("entries", index));
            },
        }
    }
    proof {
        lemma_entries_fault_skip(ws, 0, ws.len() as int);
    }
    Ok(entries)
}

// ------------------------------------------------------------- bare maps

/// A map from text keys to values, sorted by key with no key twice.
///
/// The form of the fields typed as a bare map (attribute sets, observed
/// properties), which hold the map without a [`Value`] around it. Inserting
/// a key already present replaces its value.
#[derive(Debug, PartialEq, Eq)]
pub struct SortedMap {
    entries: Vec<(String, Value)>,
}

/// The first key, from `from` on, that is empty or over the key bound,
/// reported at `field`.
pub open spec fn bare_keys_fault(field: Seq<char>, keys: Seq<Seq<char>>, from: int) -> Option<Fault>
    decreases keys.len() - from,
{
    if from < 0 || from >= keys.len() {
        None
    } else {
        match key_violation(keys[from]) {
            Some(violation) => Some((field, violation)),
            None => bare_keys_fault(field, keys, from + 1),
        }
    }
}

/// What checking a bare map held at `field` reports, if anything: each key
/// in key order, then the entry count.
pub open spec fn bare_map_fault(field: Seq<char>, entries: Seq<(String, Value)>) -> Option<Fault> {
    first_fault(bare_keys_fault(field, entry_keys(entries), 0), count_fault(field, entries.len(), VALUE_MAP_ENTRIES_MAX_ITEMS))
}

impl SortedMap {
    #[verifier::type_invariant]
    pub(crate) open spec fn sorted(self) -> bool {
        strictly_sorted_by_key(self.entries_of())
    }

    /// The entries, in key order.
    pub closed spec fn entries_of(self) -> Seq<(String, Value)> {
        self.entries@
    }

    /// An empty map.
    pub fn new() -> (made: SortedMap)
        ensures
            made.entries_of().len() == 0,
    {
        SortedMap { entries: Vec::new() }
    }

    /// Sets `key` to `value`, returning the value it replaced.
    pub fn insert(&mut self, key: String, value: Value) -> (replaced: Option<Value>)
        ensures
            strictly_sorted_by_key(final(self).entries_of()),
            match replaced {
                Some(previous) => exists|p: int|
                    #![trigger old(self).entries_of()[p]]
                    0 <= p < old(self).entries_of().len() && old(self).entries_of()[p].0@ == key@ && old(self).entries_of()[p].1 == previous
                        && final(self).entries_of() == old(self).entries_of().update(p, (key, value)),
                None => (forall|i: int| #![trigger old(self).entries_of()[i]] 0 <= i < old(self).entries_of().len() ==> old(self).entries_of()[i].0@ != key@)
                    && exists|p: int| 0 <= p <= old(self).entries_of().len() && final(self).entries_of() == old(self).entries_of().insert(p, (key, value)),
            },
    {
        proof {
            use_type_invariant(&*self);
        }
        let entry = (key, value);
        proof {
            crate::sort::lemma_strictly_sorted_is_sorted(self.entries@);
        }
        let pos = upper_bound(&self.entries, &entry);
        let ghost before = self.entries@;
        if pos > 0 && compare_text(self.entries[pos - 1].0.as_str(), entry.0.as_str()) == Order::Equal {
            let mut entries: Vec<(String, Value)> = Vec::new();
            std::mem::swap(&mut entries, &mut self.entries);
            let previous = entries.remove(pos - 1);
            entries.insert(pos - 1, entry);
            proof {
                assert(before[pos - 1].0@ == entry.0@);
                lemma_single_key(before[pos - 1].0@, entry.0@);
                assert(before[pos - 1].key() == entry.key());
                assert(entries@ == before.update(pos - 1, entry));
                assert forall|i: int, j: int| 0 <= i < j < entries@.len() implies crate::order::key_lt(#[trigger] entries@[i].key(), #[trigger] entries@[j].key()) by {
                    assert(entries@[i].key() == before[i].key());
                    assert(entries@[j].key() == before[j].key());
                }
            }
            self.entries = entries;
            proof {
                assert(self.entries@ == before.update(pos - 1, entry));
                assert(before[pos - 1].0@ == entry.0@);
                assert(previous == before[pos - 1]);
                assert(entry == (key, value));
                assert(old(self).entries_of() == before);
                assert(final(self).entries_of() == self.entries@);
                let p = pos - 1;
                assert(0 <= p < old(self).entries_of().len() && old(self).entries_of()[p].0@ == key@ && old(self).entries_of()[p].1 == previous.1
                        && final(self).entries_of() == old(self).entries_of().update(p, (key, value)));
            }
            return Some(previous.1);
        }
        proof {
            assert forall|i: int| 0 <= i < before.len() implies #[trigger] before[i].0@ != entry.0@ by {
                lemma_single_key(before[i].0@, entry.0@);
                crate::order::lemma_keys_facts(before[i].key(), entry.key(), entry.key());
                if i == pos - 1 {
                } else if i < pos - 1 {
                    crate::order::lemma_keys_facts(before[i].key(), before[pos - 1].key(), entry.key());
                    crate::order::lemma_keys_facts(before[pos - 1].key(), entry.key(), entry.key());
                    lemma_single_key(before[pos - 1].0@, entry.0@);
                }
            }
        }
        let mut entries: Vec<(String, Value)> = Vec::new();
        std::mem::swap(&mut entries, &mut self.entries);
        entries.insert(pos, entry);
        proof {
            assert forall|i: int, j: int| 0 <= i < j < entries@.len() implies crate::order::key_lt(#[trigger] entries@[i].key(), #[trigger] entries@[j].key()) by {
                if j == pos as int {
                    lemma_single_key(before[i].0@, entry.0@);
                    crate::order::lemma_keys_facts(before[i].key(), entry.key(), entry.key());
                } else if i == pos as int {
                } else if i < pos && j > pos {
                    crate::order::lemma_keys_facts(before[i].key(), entry.key(), before[j - 1].key());
                    lemma_single_key(before[i].0@, entry.0@);
                    crate::order::lemma_keys_facts(entry.key(), before[i].key(), entry.key());
                    crate::order::lemma_keys_facts(before[i].key(), before[j - 1].key(), before[j - 1].key());
                }
            }
        }
        self.entries = entries;
        proof {
            assert(self.entries@ == before.insert(pos as int, entry));
            assert(entry == (key, value));
            assert forall|i: int| #![trigger old(self).entries_of()[i]] 0 <= i < old(self).entries_of().len() implies old(self).entries_of()[i].0@ != key@ by {
                assert(old(self).entries_of()[i] == before[i]);
                assert(before[i].0@ != entry.0@);
            }
            assert(old(self).entries_of() == before);
            assert(final(self).entries_of() == self.entries@);
            assert(0 <= pos <= old(self).entries_of().len());
            assert(final(self).entries_of() == old(self).entries_of().insert(pos as int, (key, value)));
        }
        None
    }

    /// The number of entries.
    pub fn len(&self) -> (count: usize)
        ensures
            count == self.entries_of().len(),
    {
        self.entries.len()
    }

    /// Whether the map holds no entry.
    pub fn is_empty(&self) -> (empty: bool)
        ensures
            empty == (self.entries_of().len() == 0),
    {
        self.entries.len() == 0
    }

    /// The entries, in key order.
    pub fn entries(&self) -> (entries: &[(String, Value)])
        ensures
            entries@ == self.entries_of(),
            strictly_sorted_by_key(entries@),
    {
        proof {
            use_type_invariant(self);
        }
        self.entries.as_slice()
    }

    /// The value held at `key`, by binary search.
    pub fn get(&self, key: &str) -> (found: Option<&Value>)
        ensures
            match found {
                Some(value) => exists|i: int|
                    #![trigger self.entries_of()[i]]
                    0 <= i < self.entries_of().len() && self.entries_of()[i].0@ == key@ && self.entries_of()[i].1 == *value,
                None => forall|i: int| #![trigger self.entries_of()[i]] 0 <= i < self.entries_of().len() ==> self.entries_of()[i].0@ != key@,
            },
    {
        proof {
            use_type_invariant(self);
        }
        match find_text(&self.entries, key) {
            Some(i) => {
                proof {
                    assert(self.entries_of()[i as int].0@ == key@);
                    assert(self.entries_of()[i as int].1 == self.entries@[i as int].1);
                }
                Some(&self.entries[i].1)
            },
            None => {
                proof {
                    assert forall|i: int| #![trigger self.entries_of()[i]] 0 <= i < self.entries_of().len() implies self.entries_of()[i].0@ != key@ by {
                        assert(self.entries@[i].text() != key@);
                    }
                }
                None
            },
        }
    }
}

/// Collects entries into a sorted map, checking each key in order (its
/// bounds, then that no earlier entry holds it) and then the entry count:
/// everything a map must be except the depth rule, which only applies under
/// a [`Value`].
pub fn collect_map(entries: Vec<(String, Value)>) -> (made: Result<SortedMap, Invalid>)
    ensures
        reports(made, collect_fault(entry_keys(entries@))),
        made matches Ok(map) ==> map.entries_of().to_multiset() =~= entries@.to_multiset() && entries_canonical(map.entries_of()),
{
    match check_keys(&entries) {
        Ok(()) => {},
        Err(error) => {
            return Err(error);
        },
    }
    if let Some(violation) = too_many(entries.len(), VALUE_MAP_ENTRIES_MAX_ITEMS) {
        return Err(Invalid::field("entries", violation));
    }
    let ghost input = entries@;
    let sorted = sort_by_key(entries);
    proof {
        lemma_canonical_entries(input, sorted@);
    }
    Ok(SortedMap { entries: sorted })
}

/// Checks a bare map handed over whole: each key's bounds in key order, then
/// the entry count, every fault reported at `field`.
pub fn check_map(map: &SortedMap, field: &str) -> (checked: Result<(), Invalid>)
    ensures
        reports(checked, bare_map_fault(field@, map.entries_of())),
{
    let ghost keys = entry_keys(map.entries_of());
    let entries = map.entries();
    let mut i: usize = 0;
    while i < entries.len()
        invariant
            0 <= i <= entries@.len(),
            entries@ == map.entries_of(),
            keys == entry_keys(entries@),
            bare_keys_fault(field@, keys, 0) == bare_keys_fault(field@, keys, i as int),
        decreases entries@.len() - i,
    {
        let key = entries[i].0.as_str();
        proof {
            assert(keys[i as int] == key@);
        }
        if key.is_empty() {
            return Err(Invalid::field(field, Violation::Empty));
        }
        if let Some(violation) = too_long(key.len(), VALUE_MAP_ENTRY_KEY_MAX_LEN) {
            return Err(Invalid::field(field, violation));
        }
        i = i + 1;
    }
    match too_many(entries.len(), VALUE_MAP_ENTRIES_MAX_ITEMS) {
        Some(violation) => Err(Invalid::field(field, violation)),
        None => Ok(()),
    }
}

/// Decodes a bare wire map: the entries in order, then the keys and count,
/// with the same checks [`Value::map`] runs but for depth.
pub fn map_from_wire(map: wire::ValueMap) -> (made: Result<SortedMap, Invalid>)
    ensures
        reports(made, wire_map_fault(map)),
        made matches Ok(decoded) ==> entries_decode(map.entries@, decoded.entries_of(), 0) && decoded.entries_of().len()
            == map.entries@.len() && entries_canonical(decoded.entries_of()),
{
    let ghost ws = map.entries@;
    let entries = match entries_from_wire(map) {
        Ok(entries) => entries,
        Err(error) => {
            return Err(error);
        },
    };
    let ghost input = entries@;
    proof {
        assert(entry_keys(input) =~= wire_entry_keys(ws));
    }
    match collect_map(entries) {
        Ok(collected) => {
            proof {
                let sorted = collected.entries_of();
                assert forall|k: int| 0 <= k < ws.len() implies (#[trigger] ws[k]).key is Some && ws[k].value is Some && exists|j: int|
                    0 <= j < sorted.len() && sorted[j].0@ == ws[k].key->0@ && decodes(ws[k].value->0, #[trigger] sorted[j].1) by {
                    let j = crate::sort::lemma_find_in_permutation(input, sorted, k);
                    assert(sorted[j] == input[k]);
                }
                lemma_entries_decode(ws, sorted, 0);
                assert(sorted.len() == input.len()) by {
                    assert(sorted.to_multiset().len() == input.to_multiset().len());
                }
            }
            Ok(collected)
        },
        Err(error) => Err(error),
    }
}

impl TryFrom<wire::Value> for Value {
    type Error = Invalid;

    /// Decodes and validates a wire value. Wire map entries arrive in any
    /// order; the validated form sorts them.
    fn try_from(wire: wire::Value) -> (made: Result<Value, Invalid>)
        ensures
            reports(made, wire_value_fault(wire)),
            made matches Ok(v) ==> decodes(wire, v),
    {
        value_from_wire(wire)
    }
}

impl vstd::std_specs::convert::TryFromSpecImpl<wire::Value> for Value {
    open spec fn obeys_try_from_spec() -> bool {
        false
    }

    open spec fn try_from_spec(wire: wire::Value) -> Result<Value, Invalid> {
        arbitrary()
    }
}

/// Rebuilds the wire form of a value; map entries come out in key order.
fn value_into_wire(value: Value) -> (w: wire::Value)
    ensures
        decodes(w, value),
        wire_value_fault(w) is None,
    decreases value.depth_of(), 1nat,
{
    proof {
        use_type_invariant(&value);
    }
    let ghost whole = value;
    let depth = value.depth;
    let kind = match value.repr {
        Repr::Null => wire::ValueArm::NullValue,
        Repr::Bool(b) => wire::ValueArm::BoolValue(b),
        Repr::Int(i) => wire::ValueArm::IntValue(i),
        Repr::Uint(u) => wire::ValueArm::UintValue(u),
        Repr::Double(f) => {
            let bits = f.to_bits();
            proof {
                assert(normalized_bits(bits) == bits);
            }
            wire::ValueArm::DoubleValue(bits)
        },
        Repr::String(text) => wire::ValueArm::StringValue(text),
        Repr::Bytes(bytes) => wire::ValueArm::BytesValue(bytes),
        Repr::Timestamp(t) => wire::ValueArm::TimestampValue(wire::Timestamp::from(t)),
        Repr::List(values) => {
            let ghost vs = values@;
            let mut out: Vec<wire::Value> = Vec::new();
            for element in it: values.into_iter()
                invariant
                    it.seq() == vs,
                    out@.len() == it.index(),
                    it.index() <= vs.len(),
                    whole == value,
                    whole.depth_of() == depth,
                    one_deeper(depth as nat, vs),
                    forall|k: int| 0 <= k < it.index() ==> decodes(#[trigger] out@[k], vs[k]) && wire_value_fault(out@[k]) is None,
            {
                proof {
                    assert(element == vs[out@.len() as int]);
                    assert(element.depth_of() < whole.depth_of());
                }
                let rebuilt = value_into_wire(element);
                out.push(rebuilt);
            }
            let ghost ws = out@;
            proof {
                assert forall|k: int| 0 <= k < ws.len() implies decodes(#[trigger] ws[k], vs[k]) by {}
                lemma_values_decode(ws, vs, 0);
                lemma_values_depth(ws, vs, 0);
                lemma_values_fault_skip(ws, 0, ws.len() as int);
                if vs.len() > 0 {
                    let k = choose|k: int| 0 <= k < vs.len() && #[trigger] vs[k].depth_of() + 1 == depth;
                    let m = choose|m: int| 0 <= m < ws.len() && #[trigger] vs[m].depth_of() == wire_values_depth(ws, 0);
                    assert(vs[k].depth_of() <= wire_values_depth(ws, 0));
                    assert(vs[m].depth_of() < depth);
                }
            }
            wire::ValueArm::ListValue(wire::ValueList { values: out })
        },
        Repr::Entries(entries) => {
            let ghost es = entries@;
            proof {
                assert forall|k: int| 0 <= k < es.len() implies #[trigger] es[k].1.depth_of() < depth by {
                    assert(entry_values(es)[k] == es[k].1);
                }
            }
            let map = map_into_wire_entries(entries, Ghost(depth as nat));
            proof {
                let ws = map.entries@;
                assert forall|k: int| 0 <= k < ws.len() implies #[trigger] entry_values(es)[k].depth_of() == wire_entry_depth(ws, k) by {
                    assert(entry_values(es)[k] == es[k].1);
                }
                lemma_entries_depth(ws, entry_values(es), 0);
                if es.len() > 0 {
                    let k = choose|k: int| 0 <= k < es.len() && #[trigger] entry_values(es)[k].depth_of() + 1 == depth;
                    let m = choose|m: int| 0 <= m < ws.len() && #[trigger] entry_values(es)[m].depth_of() == wire_entries_depth(ws, 0);
                    assert(entry_values(es)[k].depth_of() <= wire_entries_depth(ws, 0));
                    assert(entry_values(es)[m].depth_of() < depth);
                }
            }
            wire::ValueArm::MapValue(map)
        },
    };
    wire::Value { kind: Some(kind) }
}

/// Rebuilds the wire entries of canonical map entries, in key order; every
/// value is shallower than `bound`.
fn map_into_wire_entries(entries: Vec<(String, Value)>, Ghost(bound): Ghost<nat>) -> (map: wire::ValueMap)
    requires
        entries_canonical(entries@),
        forall|k: int| 0 <= k < entries@.len() ==> (#[trigger] entries@[k]).1.depth_of() < bound,
    ensures
        map.entries@.len() == entries@.len(),
        wire_map_fault(map) is None,
        entries_decode(map.entries@, entries@, 0),
        forall|k: int|
            0 <= k < entries@.len() ==> (#[trigger] map.entries@[k]).key == Some(entries@[k].0) && map.entries@[k].value is Some
                && decodes(map.entries@[k].value->0, entries@[k].1),
    decreases bound, 0nat,
{
    let ghost es = entries@;
    let mut out: Vec<wire::MapEntry> = Vec::new();
    for entry in it: entries.into_iter()
        invariant
            it.seq() == es,
            out@.len() == it.index(),
            it.index() <= es.len(),
            forall|k: int| 0 <= k < es.len() ==> (#[trigger] es[k]).1.depth_of() < bound,
            forall|k: int|
                0 <= k < it.index() ==> (#[trigger] out@[k]).key == Some(es[k].0) && out@[k].value is Some && decodes(
                    out@[k].value->0,
                    es[k].1,
                ) && wire_value_fault(out@[k].value->0) is None,
    {
        proof {
            assert(entry == es[out@.len() as int]);
        }
        let (key, value) = entry;
        let rebuilt = value_into_wire(value);
        out.push(wire::MapEntry { key: Some(key), value: Some(rebuilt) });
    }
    let ghost ws = out@;
    proof {
        assert forall|k: int| 0 <= k < ws.len() implies #[trigger] wire_entry_fault(ws, k) is None by {}
        lemma_entries_fault_skip(ws, 0, ws.len() as int);
        assert forall|k: int|
            0 <= k < ws.len() implies (#[trigger] ws[k]).key is Some && ws[k].value is Some && exists|j: int|
                0 <= j < es.len() && es[j].0@ == ws[k].key->0@ && decodes(ws[k].value->0, #[trigger] es[j].1) by {
            assert(es[k].0@ == ws[k].key->0@);
        }
        lemma_entries_decode(ws, es, 0);
        assert(wire_entry_keys(ws) =~= entry_keys(es));
        lemma_canonical_keys(es);
    }
    wire::ValueMap { entries: out }
}

/// Canonical entries pass every key check and the count check.
proof fn lemma_canonical_keys(es: Seq<(String, Value)>)
    requires
        entries_canonical(es),
    ensures
        collect_fault(entry_keys(es)) is None,
{
    let keys = entry_keys(es);
    assert forall|k: int| 0 <= k < keys.len() implies #[trigger] entry_key_fault(keys, k) is None by {
        assert(keys[k] == es[k].0@);
        assert forall|j: int| 0 <= j < k implies #[trigger] keys[j] != keys[k] by {
            assert(keys[j] == es[j].0@);
            assert(crate::order::key_lt(es[j].key(), es[k].key()));
            crate::order::lemma_keys_facts(es[j].key(), es[k].key(), es[k].key());
        }
    }
    lemma_keys_fault_skip(keys, 0, keys.len() as int);
}

impl From<Value> for wire::Value {
    /// The wire form, map entries in key order.
    fn from(value: Value) -> (w: wire::Value)
        ensures
            decodes(w, value),
            wire_value_fault(w) is None,
    {
        value_into_wire(value)
    }
}

impl vstd::std_specs::convert::FromSpecImpl<Value> for wire::Value {
    open spec fn obeys_from_spec() -> bool {
        false
    }

    open spec fn from_spec(value: Value) -> wire::Value {
        arbitrary()
    }
}

/// Rebuilds the wire form of a bare map, entries in key order.
pub fn map_into_wire(map: SortedMap) -> (w: wire::ValueMap)
    ensures
        entries_decode(w.entries@, map.entries_of(), 0),
        w.entries@.len() == map.entries_of().len(),
        entries_canonical(map.entries_of()) ==> wire_map_fault(w) is None,
{
    proof {
        use_type_invariant(&map);
    }
    let ghost es = map.entries_of();
    let entries = map.entries;
    let mut out: Vec<wire::MapEntry> = Vec::new();
    for entry in it: entries.into_iter()
        invariant
            it.seq() == es,
            out@.len() == it.index(),
            it.index() <= es.len(),
            forall|k: int|
                0 <= k < it.index() ==> (#[trigger] out@[k]).key == Some(es[k].0) && out@[k].value is Some && decodes(
                    out@[k].value->0,
                    es[k].1,
                ) && wire_value_fault(out@[k].value->0) is None,
    {
        proof {
            assert(entry == es[out@.len() as int]);
        }
        let (key, value) = entry;
        let rebuilt = value_into_wire(value);
        out.push(wire::MapEntry { key: Some(key), value: Some(rebuilt) });
    }
    let ghost ws = out@;
    proof {
        assert forall|k: int| 0 <= k < ws.len() implies #[trigger] wire_entry_fault(ws, k) is None by {}
        lemma_entries_fault_skip(ws, 0, ws.len() as int);
        assert forall|k: int|
            0 <= k < ws.len() implies (#[trigger] ws[k]).key is Some && ws[k].value is Some && exists|j: int|
                0 <= j < es.len() && es[j].0@ == ws[k].key->0@ && decodes(ws[k].value->0, #[trigger] es[j].1) by {
            assert(es[k].0@ == ws[k].key->0@);
        }
        lemma_entries_decode(ws, es, 0);
        assert(wire_entry_keys(ws) =~= entry_keys(es));
        if entries_canonical(es) {
            lemma_canonical_keys(es);
        }
    }
    wire::ValueMap { entries: out }
}

/// Keys valid from `from` on report no bare-key fault.
proof fn lemma_bare_keys_valid(field: Seq<char>, keys: Seq<Seq<char>>, from: int)
    requires
        0 <= from <= keys.len(),
        forall|k: int| from <= k < keys.len() ==> key_violation(#[trigger] keys[k]) is None,
    ensures
        bare_keys_fault(field, keys, from) is None,
    decreases keys.len() - from,
{
    if from < keys.len() {
        lemma_bare_keys_valid(field, keys, from + 1);
    }
}

/// A bare map reporting no fault at `field` is canonical, and a canonical
/// one reports none.
pub proof fn lemma_bare_map_canonical(field: Seq<char>, map: SortedMap)
    ensures
        strictly_sorted_by_key(map.entries_of()) ==> (bare_map_fault(field, map.entries_of()) is None <==> entries_canonical(map.entries_of())),
{
    let es = map.entries_of();
    let keys = entry_keys(es);
    if strictly_sorted_by_key(es) {
        if entries_canonical(es) {
            assert forall|k: int| 0 <= k < keys.len() implies key_violation(#[trigger] keys[k]) is None by {
                assert(keys[k] == es[k].0@);
            }
            lemma_bare_keys_valid(field, keys, 0);
        }
        if bare_map_fault(field, es) is None {
            assert forall|k: int| 0 <= k < es.len() implies key_violation(#[trigger] es[k].0@) is None by {
                lemma_bare_keys_reach(field, keys, 0, k);
                assert(keys[k] == es[k].0@);
            }
        }
    }
}

/// With no bare-key fault from `from`, the key at `k` is valid.
proof fn lemma_bare_keys_reach(field: Seq<char>, keys: Seq<Seq<char>>, from: int, k: int)
    requires
        0 <= from <= k < keys.len(),
        bare_keys_fault(field, keys, from) is None,
    ensures
        key_violation(keys[k]) is None,
    decreases k - from,
{
    if from < k {
        lemma_bare_keys_reach(field, keys, from + 1, k);
    }
}

/// What checking an optional bare map held at `field` reports.
pub open spec fn optional_map_fault(field: Seq<char>, map: Option<SortedMap>) -> Option<Fault> {
    match map {
        Some(map) => bare_map_fault(field, map.entries_of()),
        None => None,
    }
}

/// What decoding an optional bare wire map inside `field` reports.
pub open spec fn optional_wire_map_fault(field: Seq<char>, map: Option<wire::ValueMap>) -> Option<Fault> {
    match map {
        Some(map) => fault_at(field, wire_map_fault(map)),
        None => None,
    }
}

/// Whether an optional validated bare map is what an optional wire map
/// stands for.
pub open spec fn optional_map_decodes(wire: Option<wire::ValueMap>, map: Option<SortedMap>) -> bool {
    match (wire, map) {
        (None, None) => true,
        (Some(w), Some(m)) => entries_decode(w.entries@, m.entries_of(), 0) && m.entries_of().len() == w.entries@.len()
            && entries_canonical(m.entries_of()),
        _ => false,
    }
}

/// Decodes an optional bare wire map, reporting a fault inside `field`.
pub fn optional_map_from_wire(field: &str, map: Option<wire::ValueMap>) -> (made: Result<Option<SortedMap>, Invalid>)
    ensures
        reports(made, optional_wire_map_fault(field@, map)),
        made matches Ok(decoded) ==> optional_map_decodes(map, decoded),
{
    match map {
        Some(map) => match map_from_wire(map) {
            Ok(decoded) => Ok(Some(decoded)),
            Err(error) => Err(error.at(field)),
        },
        None => Ok(None),
    }
}

/// Checks an optional bare map at `field`.
pub fn check_optional_map(map: &Option<SortedMap>, field: &str) -> (checked: Result<(), Invalid>)
    ensures
        reports(checked, optional_map_fault(field@, *map)),
{
    match map {
        Some(map) => check_map(map, field),
        None => Ok(()),
    }
}

/// Rebuilds an optional bare wire map.
pub fn optional_map_into_wire(map: Option<SortedMap>) -> (w: Option<wire::ValueMap>)
    requires
        map matches Some(m) ==> entries_canonical(m.entries_of()),
    ensures
        optional_map_decodes(w, map),
        w matches Some(m) ==> wire_map_fault(m) is None,
{
    match map {
        Some(map) => {
            Some(map_into_wire(map))
        },
        None => None,
    }
}

} // verus!
