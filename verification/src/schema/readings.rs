//! Validated numeric readings: value ranges, signal descriptors, samples,
//! and the payload that joins samples to their descriptors.

use vstd::prelude::*;

use crate::order::{Order, compare_text};
use crate::schema::identity::{
    SignalKey, count_fault, key_decodes, optional_text, subject_decodes, wire_signal_key_fault, wire_subject_view,
};
use crate::schema::invalid::{
    Fault, Invalid, Violation, check_optional_text, element_path, fault_at, first_fault, items_fault, lemma_items_fault_skip,
    lemma_repeat_fault_skip, optional_text_fault, repeat_fault, repeats_earlier, reports, too_many,
};
use crate::schema::limits::{
    READINGS_DESCRIPTORS_MAX_ITEMS, READINGS_SAMPLES_MAX_ITEMS, SIGNALDESCRIPTOR_KIND_MAX_LEN, SIGNALDESCRIPTOR_UNIT_MAX_LEN,
};
use crate::schema::records::{optional_timestamp_from, optional_timestamp_into, optional_timestamp_of_wire, optional_wire_timestamp_fault};
use crate::schema::value::{NumericValue, Timestamp, numeric_decodes, wire_numeric_fault};
use crate::schema::wire;
use crate::telemetry::number::{normalized_bits, total_order_key};

verus! {

/// The view of a signal key: its subject's view and its facet.
pub type KeyView = ((Seq<char>, Seq<Seq<char>>, Seq<char>), Option<Seq<char>>);

/// The rule that a range bounds something.
pub const RANGE_HAS_A_BOUND: &'static str = "a range states at least one bound";

/// The rule that a range's bounds are comparable.
pub const RANGE_BOUNDS_SHARE_AN_ARM: &'static str = "a range's bounds take the same numeric arm";

/// The rule that a range is not inverted.
pub const RANGE_MIN_NOT_ABOVE_MAX: &'static str = "a range's minimum does not exceed its maximum";

/// The rule joining samples to descriptors.
pub const SAMPLE_KEY_RESOLVES: &'static str = "every sample's key resolves to a descriptor in this batch";

/// A numeric sample's arm (by wire field number) and its position in that
/// arm's order.
pub open spec fn numeric_rank(value: NumericValue) -> (int, int) {
    match value {
        NumericValue::Double(f) => (1, f.order_key()),
        NumericValue::Int(i) => (2, i as int),
        NumericValue::Uint(u) => (3, u as int),
    }
}

/// The rank a wire numeric sample decodes to.
pub open spec fn wire_numeric_rank(wire: wire::NumericValue) -> (int, int) {
    match wire.kind {
        Some(wire::NumericArm::DoubleValue(bits)) => (1, total_order_key(normalized_bits(bits))),
        Some(wire::NumericArm::IntValue(i)) => (2, i as int),
        Some(wire::NumericArm::UintValue(u)) => (3, u as int),
        None => (0, 0),
    }
}

/// The rank of an optional sample.
pub open spec fn optional_rank(value: Option<NumericValue>) -> Option<(int, int)> {
    match value {
        Some(v) => Some(numeric_rank(v)),
        None => None,
    }
}

/// What is wrong with a range's bounds, given by rank, if anything: no bound
/// at all, bounds of different arms, or a minimum above the maximum.
pub open spec fn range_fault(min: Option<(int, int)>, max: Option<(int, int)>) -> Option<Fault> {
    match (min, max) {
        (None, None) => Some(("min"@, Violation::Rule(RANGE_HAS_A_BOUND))),
        (Some(low), Some(high)) => if low.0 != high.0 {
            Some(("max"@, Violation::Rule(RANGE_BOUNDS_SHARE_AN_ARM)))
        } else if low.1 > high.1 {
            Some(("max"@, Violation::Rule(RANGE_MIN_NOT_ABOVE_MAX)))
        } else {
            None
        },
        _ => None,
    }
}

// --------------------------------------------------------------- ValueRange

/// Validated form of the contract's `ValueRange`: an optional minimum and
/// maximum of one numeric arm, in order.
#[derive(Debug, PartialEq, Eq)]
pub struct ValueRange {
    min: Option<NumericValue>,
    max: Option<NumericValue>,
}

impl ValueRange {
    #[verifier::type_invariant]
    spec fn valid(self) -> bool {
        range_fault(optional_rank(self.min), optional_rank(self.max)) is None
    }

    pub closed spec fn min_of(self) -> Option<NumericValue> {
        self.min
    }

    pub closed spec fn max_of(self) -> Option<NumericValue> {
        self.max
    }

    /// A builder holding nothing yet.
    pub fn builder() -> (builder: ValueRangeBuilder)
        ensures
            builder.min_part() is None,
            builder.max_part() is None,
    {
        ValueRangeBuilder { min: None, max: None }
    }

    /// The `min`, when present.
    pub fn min(&self) -> (min: Option<&NumericValue>)
        ensures
            match min {
                Some(v) => self.min_of() == Some(*v),
                None => self.min_of() is None,
            },
    {
        match &self.min {
            Some(v) => Some(v),
            None => None,
        }
    }

    /// The `max`, when present.
    pub fn max(&self) -> (max: Option<&NumericValue>)
        ensures
            match max {
                Some(v) => self.max_of() == Some(*v),
                None => self.max_of() is None,
            },
    {
        match &self.max {
            Some(v) => Some(v),
            None => None,
        }
    }

    fn checked(min: Option<NumericValue>, max: Option<NumericValue>) -> (made: Result<ValueRange, Invalid>)
        ensures
            reports(made, range_fault(optional_rank(min), optional_rank(max))),
            made matches Ok(range) ==> range.min_of() == min && range.max_of() == max,
    {
        match (min, max) {
            (None, None) => Err(Invalid::field("min", Violation::Rule(RANGE_HAS_A_BOUND))),
            (Some(low), Some(high)) => {
                let (same_arm, above) = match (low, high) {
                    (NumericValue::Double(a), NumericValue::Double(b)) => (true, a.compare(b) == Order::Greater),
                    (NumericValue::Int(a), NumericValue::Int(b)) => (true, a > b),
                    (NumericValue::Uint(a), NumericValue::Uint(b)) => (true, a > b),
                    _ => (false, false),
                };
                if !same_arm {
                    Err(Invalid::field("max", Violation::Rule(RANGE_BOUNDS_SHARE_AN_ARM)))
                } else if above {
                    Err(Invalid::field("max", Violation::Rule(RANGE_MIN_NOT_ABOVE_MAX)))
                } else {
                    Ok(ValueRange { min, max })
                }
            },
            _ => Ok(ValueRange { min, max }),
        }
    }
}

impl Clone for ValueRange {
    fn clone(&self) -> (copy: ValueRange)
        ensures
            copy == *self,
    {
        proof {
            use_type_invariant(self);
        }
        ValueRange { min: self.min, max: self.max }
    }
}

/// Builds a [`ValueRange`]. Setters are infallible;
/// [`build`](ValueRangeBuilder::build) validates everything at once, exactly
/// as decoding does.
#[derive(Clone, Debug)]
pub struct ValueRangeBuilder {
    min: Option<NumericValue>,
    max: Option<NumericValue>,
}

impl ValueRangeBuilder {
    pub closed spec fn min_part(self) -> Option<NumericValue> {
        self.min
    }

    pub closed spec fn max_part(self) -> Option<NumericValue> {
        self.max
    }

    /// Sets `min`.
    pub fn min(self, min: NumericValue) -> (builder: ValueRangeBuilder)
        ensures
            builder.min_part() == Some(min),
            builder.max_part() == self.max_part(),
    {
        ValueRangeBuilder { min: Some(min), ..self }
    }

    /// Sets `max`.
    pub fn max(self, max: NumericValue) -> (builder: ValueRangeBuilder)
        ensures
            builder.min_part() == self.min_part(),
            builder.max_part() == Some(max),
    {
        ValueRangeBuilder { max: Some(max), ..self }
    }

    /// Validates and builds.
    ///
    /// Returns [`Invalid`] when neither bound is set, when the bounds take
    /// different arms, or when the minimum exceeds the maximum.
    pub fn build(self) -> (made: Result<ValueRange, Invalid>)
        ensures
            reports(made, range_fault(optional_rank(self.min_part()), optional_rank(self.max_part()))),
            made matches Ok(range) ==> range.min_of() == self.min_part() && range.max_of() == self.max_part(),
    {
        ValueRange::checked(self.min, self.max)
    }
}

/// What decoding an optional wire sample inside `field` reports.
pub open spec fn optional_wire_numeric_fault(field: Seq<char>, value: Option<wire::NumericValue>) -> Option<Fault> {
    match value {
        Some(v) => fault_at(field, wire_numeric_fault(v)),
        None => None,
    }
}

/// The rank an optional wire sample decodes to.
pub open spec fn optional_wire_rank(value: Option<wire::NumericValue>) -> Option<(int, int)> {
    match value {
        Some(v) => Some(wire_numeric_rank(v)),
        None => None,
    }
}

/// Whether an optional sample is what an optional wire sample stands for.
pub open spec fn optional_numeric_decodes(wire: Option<wire::NumericValue>, value: Option<NumericValue>) -> bool {
    match (wire, value) {
        (None, None) => true,
        (Some(w), Some(v)) => numeric_decodes(w, v),
        _ => false,
    }
}

/// What decoding a wire range reports, if anything: each bound, then the
/// range's rules.
pub open spec fn wire_range_fault(wire: wire::ValueRange) -> Option<Fault> {
    first_fault(
        optional_wire_numeric_fault("min"@, wire.min),
        first_fault(
            optional_wire_numeric_fault("max"@, wire.max),
            range_fault(optional_wire_rank(wire.min), optional_wire_rank(wire.max)),
        ),
    )
}

/// Whether `range` is what the wire range `wire` stands for.
pub open spec fn range_decodes(wire: wire::ValueRange, range: ValueRange) -> bool {
    optional_numeric_decodes(wire.min, range.min_of()) && optional_numeric_decodes(wire.max, range.max_of())
}

/// Decodes an optional wire sample, reporting a fault inside `field`.
fn optional_numeric_from(field: &str, value: Option<wire::NumericValue>) -> (made: Result<Option<NumericValue>, Invalid>)
    ensures
        reports(made, optional_wire_numeric_fault(field@, value)),
        made matches Ok(v) ==> optional_numeric_decodes(value, v) && optional_rank(v) == optional_wire_rank(value),
{
    match value {
        Some(v) => match NumericValue::try_from(v) {
            Ok(decoded) => Ok(Some(decoded)),
            Err(error) => Err(error.at(field)),
        },
        None => Ok(None),
    }
}

/// Rebuilds an optional wire sample.
fn optional_numeric_into(value: Option<NumericValue>) -> (w: Option<wire::NumericValue>)
    ensures
        optional_numeric_decodes(w, value),
        optional_wire_rank(w) == optional_rank(value),
        optional_wire_numeric_fault("min"@, w) is None,
        optional_wire_numeric_fault("max"@, w) is None,
{
    match value {
        Some(v) => Some(wire::NumericValue::from(v)),
        None => None,
    }
}

impl TryFrom<wire::ValueRange> for ValueRange {
    type Error = Invalid;

    fn try_from(wire: wire::ValueRange) -> (made: Result<ValueRange, Invalid>)
        ensures
            reports(made, wire_range_fault(wire)),
            made matches Ok(range) ==> range_decodes(wire, range),
    {
        let min = match optional_numeric_from("min", wire.min) {
            Ok(v) => v,
            Err(error) => {
                return Err(error);
            },
        };
        let max = match optional_numeric_from("max", wire.max) {
            Ok(v) => v,
            Err(error) => {
                return Err(error);
            },
        };
        ValueRange::checked(min, max)
    }
}

impl vstd::std_specs::convert::TryFromSpecImpl<wire::ValueRange> for ValueRange {
    open spec fn obeys_try_from_spec() -> bool {
        false
    }

    open spec fn try_from_spec(wire: wire::ValueRange) -> Result<ValueRange, Invalid> {
        arbitrary()
    }
}

impl From<ValueRange> for wire::ValueRange {
    fn from(value: ValueRange) -> (wire: wire::ValueRange)
        ensures
            range_decodes(wire, value),
            wire_range_fault(wire) is None,
    {
        proof {
            use_type_invariant(&value);
        }
        wire::ValueRange { min: optional_numeric_into(value.min), max: optional_numeric_into(value.max) }
    }
}

impl vstd::std_specs::convert::FromSpecImpl<ValueRange> for wire::ValueRange {
    open spec fn obeys_from_spec() -> bool {
        false
    }

    open spec fn from_spec(value: ValueRange) -> wire::ValueRange {
        arbitrary()
    }
}

// ------------------------------------------------------------- signal keys

/// The key view a wire signal key decodes to, where it decodes.
pub open spec fn wire_key_view(wire: wire::SignalKey) -> KeyView {
    (
        match wire.subject {
            Some(subject) => wire_subject_view(subject),
            None => (Seq::empty(), Seq::empty(), Seq::empty()),
        },
        optional_text(wire.facet),
    )
}

/// Whether two signal keys hold the same parts.
fn same_key(a: &SignalKey, b: &SignalKey) -> (same: bool)
    ensures
        same == (a@ == b@),
{
    if !a.subject().same(b.subject()) {
        return false;
    }
    match (a.facet(), b.facet()) {
        (Some(x), Some(y)) => compare_text(x, y) == Order::Equal,
        (None, None) => true,
        _ => false,
    }
}

/// Finds the first position, in order, whose key an earlier position holds;
/// reports it as a duplicate element of `field`.
fn check_distinct_keys(field: &str, keys: &Vec<&SignalKey>) -> (checked: Result<(), Invalid>)
    ensures
        reports(checked, repeat_fault(field@, Seq::new(keys@.len(), |i: int| keys@[i]@), 0)),
{
    let ghost views = Seq::new(keys@.len(), |i: int| keys@[i]@);
    let mut i: usize = 0;
    while i < keys.len()
        invariant
            0 <= i <= keys@.len(),
            views == Seq::new(keys@.len(), |i: int| keys@[i]@),
            forall|k: int| 0 <= k < i ==> !#[trigger] repeats_earlier(views, k),
        decreases keys@.len() - i,
    {
        proof {
            lemma_repeat_fault_skip(field@, views, 0, i as int);
        }
        let mut j: usize = 0;
        while j < i
            invariant
                0 <= j <= i < keys@.len(),
                views == Seq::new(keys@.len(), |i: int| keys@[i]@),
                repeat_fault(field@, views, 0) == repeat_fault(field@, views, i as int),
                forall|k: int| 0 <= k < i ==> !#[trigger] repeats_earlier(views, k),
                forall|k: int| 0 <= k < j ==> #[trigger] views[k] != views[i as int],
            decreases i - j,
        {
            if same_key(keys[j], keys[i]) {
                proof {
                    assert(views[j as int] == views[i as int]);
                    assert(repeats_earlier(views, i as int));
                }
                return Err(Invalid::element(field, i, Violation::Duplicate));
            }
            j = j + 1;
        }
        i = i + 1;
    }
    proof {
        lemma_repeat_fault_skip(field@, views, 0, keys@.len() as int);
    }
    Ok(())
}

// --------------------------------------------------------- SignalDescriptor

/// What is wrong with a descriptor's own fields, checked in order.
pub open spec fn descriptor_fault(kind: Option<Seq<char>>, unit: Option<Seq<char>>) -> Option<Fault> {
    first_fault(
        optional_text_fault("kind"@, kind, SIGNALDESCRIPTOR_KIND_MAX_LEN),
        optional_text_fault("unit"@, unit, SIGNALDESCRIPTOR_UNIT_MAX_LEN),
    )
}

/// Validated form of the contract's `SignalDescriptor`: what a signal is,
/// shared by every sample of it.
#[derive(Debug, PartialEq, Eq)]
pub struct SignalDescriptor {
    key: SignalKey,
    kind: Option<String>,
    unit: Option<String>,
    range: Option<ValueRange>,
}

impl SignalDescriptor {
    #[verifier::type_invariant]
    spec fn valid(self) -> bool {
        descriptor_fault(optional_text(self.kind), optional_text(self.unit)) is None
    }

    pub closed spec fn key_of(self) -> KeyView {
        self.key@
    }

    pub closed spec fn kind_of(self) -> Option<Seq<char>> {
        optional_text(self.kind)
    }

    pub closed spec fn unit_of(self) -> Option<Seq<char>> {
        optional_text(self.unit)
    }

    pub closed spec fn range_of(self) -> Option<ValueRange> {
        self.range
    }

    /// A builder holding nothing yet.
    pub fn builder() -> (builder: SignalDescriptorBuilder)
        ensures
            builder.key_part() is None,
            builder.kind_part() is None,
            builder.unit_part() is None,
            builder.range_part() is None,
    {
        SignalDescriptorBuilder { key: None, kind: None, unit: None, range: None }
    }

    /// The `key`.
    pub fn key(&self) -> (key: &SignalKey)
        ensures
            key@ == self.key_of(),
    {
        &self.key
    }

    /// The `kind`, when present.
    pub fn kind(&self) -> (kind: Option<&str>)
        ensures
            match kind {
                Some(text) => self.kind_of() == Some(text@),
                None => self.kind_of() is None,
            },
    {
        match &self.kind {
            Some(text) => Some(text.as_str()),
            None => None,
        }
    }

    /// The `unit`, when present.
    pub fn unit(&self) -> (unit: Option<&str>)
        ensures
            match unit {
                Some(text) => self.unit_of() == Some(text@),
                None => self.unit_of() is None,
            },
    {
        match &self.unit {
            Some(text) => Some(text.as_str()),
            None => None,
        }
    }

    /// The `range`, when present.
    pub fn range(&self) -> (range: Option<&ValueRange>)
        ensures
            match range {
                Some(r) => self.range_of() == Some(*r),
                None => self.range_of() is None,
            },
    {
        match &self.range {
            Some(r) => Some(r),
            None => None,
        }
    }

    fn checked(key: SignalKey, kind: Option<String>, unit: Option<String>, range: Option<ValueRange>) -> (made: Result<SignalDescriptor, Invalid>)
        ensures
            reports(made, descriptor_fault(optional_text(kind), optional_text(unit))),
            made matches Ok(d) ==> d.key_of() == key@ && d.kind_of() == optional_text(kind) && d.unit_of() == optional_text(unit)
                && d.range_of() == range,
    {
        match check_optional_text("kind", &kind, SIGNALDESCRIPTOR_KIND_MAX_LEN) {
            Ok(()) => {},
            Err(error) => {
                return Err(error);
            },
        }
        match check_optional_text("unit", &unit, SIGNALDESCRIPTOR_UNIT_MAX_LEN) {
            Ok(()) => Ok(SignalDescriptor { key, kind, unit, range }),
            Err(error) => Err(error),
        }
    }
}

/// Builds a [`SignalDescriptor`]. Setters are infallible;
/// [`build`](SignalDescriptorBuilder::build) validates everything at once,
/// exactly as decoding does.
#[derive(Debug)]
pub struct SignalDescriptorBuilder {
    key: Option<SignalKey>,
    kind: Option<String>,
    unit: Option<String>,
    range: Option<ValueRange>,
}

impl SignalDescriptorBuilder {
    pub closed spec fn key_part(self) -> Option<KeyView> {
        match self.key {
            Some(key) => Some(key@),
            None => None,
        }
    }

    pub closed spec fn kind_part(self) -> Option<Seq<char>> {
        optional_text(self.kind)
    }

    pub closed spec fn unit_part(self) -> Option<Seq<char>> {
        optional_text(self.unit)
    }

    pub closed spec fn range_part(self) -> Option<ValueRange> {
        self.range
    }

    /// Sets `key`.
    pub fn key(self, key: SignalKey) -> (builder: SignalDescriptorBuilder)
        ensures
            builder.key_part() == Some(key@),
            builder.kind_part() == self.kind_part(),
            builder.unit_part() == self.unit_part(),
            builder.range_part() == self.range_part(),
    {
        SignalDescriptorBuilder { key: Some(key), ..self }
    }

    /// Sets `kind`.
    pub fn kind(self, kind: &str) -> (builder: SignalDescriptorBuilder)
        ensures
            builder.key_part() == self.key_part(),
            builder.kind_part() == Some(kind@),
            builder.unit_part() == self.unit_part(),
            builder.range_part() == self.range_part(),
    {
        SignalDescriptorBuilder { kind: Some(kind.to_owned()), ..self }
    }

    /// Sets `unit`.
    pub fn unit(self, unit: &str) -> (builder: SignalDescriptorBuilder)
        ensures
            builder.key_part() == self.key_part(),
            builder.kind_part() == self.kind_part(),
            builder.unit_part() == Some(unit@),
            builder.range_part() == self.range_part(),
    {
        SignalDescriptorBuilder { unit: Some(unit.to_owned()), ..self }
    }

    /// Sets `range`.
    pub fn range(self, range: ValueRange) -> (builder: SignalDescriptorBuilder)
        ensures
            builder.key_part() == self.key_part(),
            builder.kind_part() == self.kind_part(),
            builder.unit_part() == self.unit_part(),
            builder.range_part() == Some(range),
    {
        SignalDescriptorBuilder { range: Some(range), ..self }
    }

    /// Validates and builds.
    ///
    /// Returns [`Invalid`] naming the first field that is absent or breaks
    /// its schema invariants.
    pub fn build(self) -> (made: Result<SignalDescriptor, Invalid>)
        ensures
            reports(
                made,
                match self.key_part() {
                    None => Some(("key"@, Violation::Absent)),
                    Some(_) => descriptor_fault(self.kind_part(), self.unit_part()),
                },
            ),
            made matches Ok(d) ==> Some(d.key_of()) == self.key_part() && d.kind_of() == self.kind_part() && d.unit_of()
                == self.unit_part() && d.range_of() == self.range_part(),
    {
        match self.key {
            Some(key) => SignalDescriptor::checked(key, self.kind, self.unit, self.range),
            None => Err(Invalid::field("key", Violation::Absent)),
        }
    }
}

/// What decoding an optional wire range inside `field` reports.
pub open spec fn optional_wire_range_fault(value: Option<wire::ValueRange>) -> Option<Fault> {
    match value {
        Some(range) => fault_at("range"@, wire_range_fault(range)),
        None => None,
    }
}

/// Whether an optional range is what an optional wire range stands for.
pub open spec fn optional_range_decodes(wire: Option<wire::ValueRange>, range: Option<ValueRange>) -> bool {
    match (wire, range) {
        (None, None) => true,
        (Some(w), Some(r)) => range_decodes(w, r),
        _ => false,
    }
}

/// What decoding a wire descriptor reports, if anything.
pub open spec fn wire_descriptor_fault(wire: wire::SignalDescriptor) -> Option<Fault> {
    match wire.key {
        None => Some(("key"@, Violation::Absent)),
        Some(key) => first_fault(
            fault_at("key"@, wire_signal_key_fault(key)),
            first_fault(
                optional_wire_range_fault(wire.range),
                descriptor_fault(optional_text(wire.kind), optional_text(wire.unit)),
            ),
        ),
    }
}

/// Whether `descriptor` is what the wire descriptor `wire` stands for.
pub open spec fn descriptor_decodes(wire: wire::SignalDescriptor, descriptor: SignalDescriptor) -> bool {
    &&& wire.key matches Some(key) && key_decodes(key, descriptor.key_of())
    &&& optional_text(wire.kind) == descriptor.kind_of()
    &&& optional_text(wire.unit) == descriptor.unit_of()
    &&& optional_range_decodes(wire.range, descriptor.range_of())
}

/// Decodes a required wire signal key, reporting a fault inside `key`.
fn key_from_wire(key: Option<wire::SignalKey>) -> (made: Result<SignalKey, Invalid>)
    ensures
        reports(
            made,
            match key {
                None => Some(("key"@, Violation::Absent)),
                Some(k) => fault_at("key"@, wire_signal_key_fault(k)),
            },
        ),
        made matches Ok(decoded) ==> key matches Some(k) && key_decodes(k, decoded@),
{
    match key {
        Some(key) => match SignalKey::try_from(key) {
            Ok(key) => Ok(key),
            Err(error) => Err(error.at("key")),
        },
        None => Err(Invalid::field("key", Violation::Absent)),
    }
}

impl TryFrom<wire::SignalDescriptor> for SignalDescriptor {
    type Error = Invalid;

    fn try_from(wire: wire::SignalDescriptor) -> (made: Result<SignalDescriptor, Invalid>)
        ensures
            reports(made, wire_descriptor_fault(wire)),
            made matches Ok(d) ==> descriptor_decodes(wire, d),
    {
        let key = match key_from_wire(wire.key) {
            Ok(key) => key,
            Err(error) => {
                return Err(error);
            },
        };
        let range = match wire.range {
            Some(range) => match ValueRange::try_from(range) {
                Ok(range) => Some(range),
                Err(error) => {
                    return Err(error.at("range"));
                },
            },
            None => None,
        };
        SignalDescriptor::checked(key, wire.kind, wire.unit, range)
    }
}

impl vstd::std_specs::convert::TryFromSpecImpl<wire::SignalDescriptor> for SignalDescriptor {
    open spec fn obeys_try_from_spec() -> bool {
        false
    }

    open spec fn try_from_spec(wire: wire::SignalDescriptor) -> Result<SignalDescriptor, Invalid> {
        arbitrary()
    }
}

impl From<SignalDescriptor> for wire::SignalDescriptor {
    fn from(value: SignalDescriptor) -> (wire: wire::SignalDescriptor)
        ensures
            descriptor_decodes(wire, value),
            wire_descriptor_fault(wire) is None,
    {
        proof {
            use_type_invariant(&value);
        }
        let range = match value.range {
            Some(range) => Some(wire::ValueRange::from(range)),
            None => None,
        };
        wire::SignalDescriptor { key: Some(wire::SignalKey::from(value.key)), kind: value.kind, unit: value.unit, range }
    }
}

impl vstd::std_specs::convert::FromSpecImpl<SignalDescriptor> for wire::SignalDescriptor {
    open spec fn obeys_from_spec() -> bool {
        false
    }

    open spec fn from_spec(value: SignalDescriptor) -> wire::SignalDescriptor {
        arbitrary()
    }
}

// ------------------------------------------------------------------ Reading

/// Validated form of the contract's `Reading`: one sample of a signal.
#[derive(Debug, PartialEq, Eq)]
pub struct Reading {
    key: SignalKey,
    value: NumericValue,
    observed_at: Option<Timestamp>,
}

impl Reading {
    pub closed spec fn key_of(self) -> KeyView {
        self.key@
    }

    pub closed spec fn value_of(self) -> NumericValue {
        self.value
    }

    pub closed spec fn observed_at_of(self) -> Option<Timestamp> {
        self.observed_at
    }

    /// A builder holding nothing yet.
    pub fn builder() -> (builder: ReadingBuilder)
        ensures
            builder.key_part() is None,
            builder.value_part() is None,
            builder.observed_at_part() is None,
    {
        ReadingBuilder { key: None, value: None, observed_at: None }
    }

    /// The `key`.
    pub fn key(&self) -> (key: &SignalKey)
        ensures
            key@ == self.key_of(),
    {
        &self.key
    }

    /// The `value`.
    pub fn value(&self) -> (value: &NumericValue)
        ensures
            *value == self.value_of(),
    {
        &self.value
    }

    /// The `observed_at`, when present.
    pub fn observed_at(&self) -> (observed_at: Option<&Timestamp>)
        ensures
            match observed_at {
                Some(t) => self.observed_at_of() == Some(*t),
                None => self.observed_at_of() is None,
            },
    {
        match &self.observed_at {
            Some(t) => Some(t),
            None => None,
        }
    }
}

/// Builds a [`Reading`]. Setters are infallible;
/// [`build`](ReadingBuilder::build) validates everything at once, exactly as
/// decoding does.
#[derive(Debug)]
pub struct ReadingBuilder {
    key: Option<SignalKey>,
    value: Option<NumericValue>,
    observed_at: Option<Timestamp>,
}

impl ReadingBuilder {
    pub closed spec fn key_part(self) -> Option<KeyView> {
        match self.key {
            Some(key) => Some(key@),
            None => None,
        }
    }

    pub closed spec fn value_part(self) -> Option<NumericValue> {
        self.value
    }

    pub closed spec fn observed_at_part(self) -> Option<Timestamp> {
        self.observed_at
    }

    /// Sets `key`.
    pub fn key(self, key: SignalKey) -> (builder: ReadingBuilder)
        ensures
            builder.key_part() == Some(key@),
            builder.value_part() == self.value_part(),
            builder.observed_at_part() == self.observed_at_part(),
    {
        ReadingBuilder { key: Some(key), ..self }
    }

    /// Sets `value`.
    pub fn value(self, value: NumericValue) -> (builder: ReadingBuilder)
        ensures
            builder.key_part() == self.key_part(),
            builder.value_part() == Some(value),
            builder.observed_at_part() == self.observed_at_part(),
    {
        ReadingBuilder { value: Some(value), ..self }
    }

    /// Sets `observed_at`.
    pub fn observed_at(self, observed_at: Timestamp) -> (builder: ReadingBuilder)
        ensures
            builder.key_part() == self.key_part(),
            builder.value_part() == self.value_part(),
            builder.observed_at_part() == Some(observed_at),
    {
        ReadingBuilder { observed_at: Some(observed_at), ..self }
    }

    /// Validates and builds.
    ///
    /// Returns [`Invalid`] naming the first required field that is absent.
    pub fn build(self) -> (made: Result<Reading, Invalid>)
        ensures
            reports(
                made,
                match (self.key_part(), self.value_part()) {
                    (None, _) => Some(("key"@, Violation::Absent)),
                    (Some(_), None) => Some(("value"@, Violation::Absent)),
                    _ => None,
                },
            ),
            made matches Ok(r) ==> Some(r.key_of()) == self.key_part() && Some(r.value_of()) == self.value_part()
                && r.observed_at_of() == self.observed_at_part(),
    {
        let key = match self.key {
            Some(key) => key,
            None => {
                return Err(Invalid::field("key", Violation::Absent));
            },
        };
        match self.value {
            Some(value) => Ok(Reading { key, value, observed_at: self.observed_at }),
            None => Err(Invalid::field("value", Violation::Absent)),
        }
    }
}

/// What decoding a wire reading reports, if anything.
pub open spec fn wire_reading_fault(wire: wire::Reading) -> Option<Fault> {
    match (wire.key, wire.value) {
        (None, _) => Some(("key"@, Violation::Absent)),
        (Some(key), value) => first_fault(
            fault_at("key"@, wire_signal_key_fault(key)),
            match value {
                None => Some(("value"@, Violation::Absent)),
                Some(v) => first_fault(fault_at("value"@, wire_numeric_fault(v)), optional_wire_timestamp_fault("observed_at"@, wire.observed_at)),
            },
        ),
    }
}

/// Whether `reading` is what the wire reading `wire` stands for.
pub open spec fn reading_decodes(wire: wire::Reading, reading: Reading) -> bool {
    &&& wire.key matches Some(key) && key_decodes(key, reading.key_of())
    &&& wire.value matches Some(v) && numeric_decodes(v, reading.value_of())
    &&& optional_timestamp_of_wire(wire.observed_at) == reading.observed_at_of()
}

impl TryFrom<wire::Reading> for Reading {
    type Error = Invalid;

    fn try_from(wire: wire::Reading) -> (made: Result<Reading, Invalid>)
        ensures
            reports(made, wire_reading_fault(wire)),
            made matches Ok(r) ==> reading_decodes(wire, r),
    {
        let key = match key_from_wire(wire.key) {
            Ok(key) => key,
            Err(error) => {
                return Err(error);
            },
        };
        let value = match wire.value {
            Some(value) => match NumericValue::try_from(value) {
                Ok(value) => value,
                Err(error) => {
                    return Err(error.at("value"));
                },
            },
            None => {
                return Err(Invalid::field("value", Violation::Absent));
            },
        };
        let observed_at = match optional_timestamp_from("observed_at", wire.observed_at) {
            Ok(t) => t,
            Err(error) => {
                return Err(error);
            },
        };
        Ok(Reading { key, value, observed_at })
    }
}

impl vstd::std_specs::convert::TryFromSpecImpl<wire::Reading> for Reading {
    open spec fn obeys_try_from_spec() -> bool {
        false
    }

    open spec fn try_from_spec(wire: wire::Reading) -> Result<Reading, Invalid> {
        arbitrary()
    }
}

impl From<Reading> for wire::Reading {
    fn from(value: Reading) -> (wire: wire::Reading)
        ensures
            reading_decodes(wire, value),
            wire_reading_fault(wire) is None,
    {
        wire::Reading {
            key: Some(wire::SignalKey::from(value.key)),
            value: Some(wire::NumericValue::from(value.value)),
            observed_at: optional_timestamp_into(value.observed_at),
        }
    }
}

impl vstd::std_specs::convert::FromSpecImpl<Reading> for wire::Reading {
    open spec fn obeys_from_spec() -> bool {
        false
    }

    open spec fn from_spec(value: Reading) -> wire::Reading {
        arbitrary()
    }
}

// ----------------------------------------------------------------- Readings

/// The keys of descriptors, in order.
pub open spec fn descriptor_keys(descriptors: Seq<SignalDescriptor>) -> Seq<KeyView> {
    Seq::new(descriptors.len(), |i: int| descriptors[i].key_of())
}

/// The keys of samples, in order.
pub open spec fn sample_keys(samples: Seq<Reading>) -> Seq<KeyView> {
    Seq::new(samples.len(), |i: int| samples[i].key_of())
}

/// The first sample, from `from` on, whose key no descriptor holds.
pub open spec fn unresolved_fault(samples: Seq<KeyView>, known: Seq<KeyView>, from: int) -> Option<Fault>
    decreases samples.len() - from,
{
    if from < 0 || from >= samples.len() {
        None
    } else if !known.contains(samples[from]) {
        Some((element_path("samples"@, from as nat), Violation::Rule(SAMPLE_KEY_RESOLVES)))
    } else {
        unresolved_fault(samples, known, from + 1)
    }
}

proof fn lemma_unresolved_skip(samples: Seq<KeyView>, known: Seq<KeyView>, from: int, to: int)
    requires
        0 <= from <= to <= samples.len(),
        forall|k: int| from <= k < to ==> known.contains(#[trigger] samples[k]),
    ensures
        unresolved_fault(samples, known, from) == unresolved_fault(samples, known, to),
    decreases to - from,
{
    if from < to {
        lemma_unresolved_skip(samples, known, from + 1, to);
    }
}

/// What is wrong with a readings payload, given its keys, if anything: the
/// descriptor count, a descriptor key held twice, the sample count, then the
/// first sample whose key no descriptor holds.
pub open spec fn readings_fault(descriptors: Seq<KeyView>, samples: Seq<KeyView>) -> Option<Fault> {
    first_fault(
        count_fault("descriptors"@, descriptors.len(), READINGS_DESCRIPTORS_MAX_ITEMS),
        first_fault(
            repeat_fault("descriptors"@, descriptors, 0),
            first_fault(
                count_fault("samples"@, samples.len(), READINGS_SAMPLES_MAX_ITEMS),
                unresolved_fault(samples, descriptors, 0),
            ),
        ),
    )
}

/// Validated form of the contract's `Readings`: descriptors, each key once,
/// and samples whose keys all resolve to one of them.
#[derive(Debug, PartialEq, Eq)]
pub struct Readings {
    descriptors: Vec<SignalDescriptor>,
    samples: Vec<Reading>,
}

/// Checks that each sample's key is held by some descriptor, naming the
/// first that is not.
fn check_samples_resolve(descriptors: &Vec<&SignalKey>, samples: &Vec<&SignalKey>) -> (checked: Result<(), Invalid>)
    ensures
        reports(
            checked,
            unresolved_fault(Seq::new(samples@.len(), |i: int| samples@[i]@), Seq::new(descriptors@.len(), |i: int| descriptors@[i]@), 0),
        ),
{
    let ghost known = Seq::new(descriptors@.len(), |i: int| descriptors@[i]@);
    let ghost wanted = Seq::new(samples@.len(), |i: int| samples@[i]@);
    let mut i: usize = 0;
    while i < samples.len()
        invariant
            0 <= i <= samples@.len(),
            known == Seq::new(descriptors@.len(), |i: int| descriptors@[i]@),
            wanted == Seq::new(samples@.len(), |i: int| samples@[i]@),
            forall|k: int| 0 <= k < i ==> known.contains(#[trigger] wanted[k]),
        decreases samples@.len() - i,
    {
        let mut j: usize = 0;
        let mut found = false;
        while j < descriptors.len() && !found
            invariant
                0 <= j <= descriptors@.len(),
                0 <= i < samples@.len(),
                known == Seq::new(descriptors@.len(), |i: int| descriptors@[i]@),
                wanted == Seq::new(samples@.len(), |i: int| samples@[i]@),
                found ==> known.contains(wanted[i as int]),
                !found ==> forall|k: int| 0 <= k < j ==> #[trigger] known[k] != wanted[i as int],
            decreases descriptors@.len() - j,
        {
            if same_key(descriptors[j], samples[i]) {
                proof {
                    assert(known[j as int] == wanted[i as int]);
                }
                found = true;
            }
            j = j + 1;
        }
        if !found {
            proof {
                lemma_unresolved_skip(wanted, known, 0, i as int);
                assert(!known.contains(wanted[i as int]));
            }
            return Err(Invalid::element("samples", i, Violation::Rule(SAMPLE_KEY_RESOLVES)));
        }
        i = i + 1;
    }
    proof {
        lemma_unresolved_skip(wanted, known, 0, samples@.len() as int);
    }
    Ok(())
}

impl Readings {
    #[verifier::type_invariant]
    spec fn valid(self) -> bool {
        readings_fault(descriptor_keys(self.descriptors@), sample_keys(self.samples@)) is None
    }

    pub closed spec fn descriptors_of(self) -> Seq<SignalDescriptor> {
        self.descriptors@
    }

    pub closed spec fn samples_of(self) -> Seq<Reading> {
        self.samples@
    }

    /// A builder holding nothing yet.
    pub fn builder() -> (builder: ReadingsBuilder)
        ensures
            builder.descriptors_part().len() == 0,
            builder.samples_part().len() == 0,
    {
        ReadingsBuilder { descriptors: Vec::new(), samples: Vec::new() }
    }

    /// The `descriptors`.
    pub fn descriptors(&self) -> (descriptors: &[SignalDescriptor])
        ensures
            descriptors@ == self.descriptors_of(),
    {
        self.descriptors.as_slice()
    }

    /// The `samples`.
    pub fn samples(&self) -> (samples: &[Reading])
        ensures
            samples@ == self.samples_of(),
    {
        self.samples.as_slice()
    }

    fn checked(descriptors: Vec<SignalDescriptor>, samples: Vec<Reading>) -> (made: Result<Readings, Invalid>)
        ensures
            reports(made, readings_fault(descriptor_keys(descriptors@), sample_keys(samples@))),
            made matches Ok(readings) ==> readings.descriptors_of() == descriptors@ && readings.samples_of() == samples@,
    {
        if let Some(violation) = too_many(descriptors.len(), READINGS_DESCRIPTORS_MAX_ITEMS) {
            return Err(Invalid::field("descriptors", violation));
        }
        let mut known: Vec<&SignalKey> = Vec::new();
        let mut i: usize = 0;
        while i < descriptors.len()
            invariant
                0 <= i <= descriptors@.len(),
                known@.len() == i,
                forall|k: int| 0 <= k < i ==> (#[trigger] known@[k])@ == descriptors@[k].key_of(),
            decreases descriptors@.len() - i,
        {
            known.push(descriptors[i].key());
            i = i + 1;
        }
        proof {
            assert(Seq::new(known@.len(), |i: int| known@[i]@) =~= descriptor_keys(descriptors@));
        }
        match check_distinct_keys("descriptors", &known) {
            Ok(()) => {},
            Err(error) => {
                return Err(error);
            },
        }
        if let Some(violation) = too_many(samples.len(), READINGS_SAMPLES_MAX_ITEMS) {
            return Err(Invalid::field("samples", violation));
        }
        let mut wanted: Vec<&SignalKey> = Vec::new();
        let mut i: usize = 0;
        while i < samples.len()
            invariant
                0 <= i <= samples@.len(),
                wanted@.len() == i,
                forall|k: int| 0 <= k < i ==> (#[trigger] wanted@[k])@ == samples@[k].key_of(),
            decreases samples@.len() - i,
        {
            wanted.push(samples[i].key());
            i = i + 1;
        }
        proof {
            assert(Seq::new(wanted@.len(), |i: int| wanted@[i]@) =~= sample_keys(samples@));
        }
        match check_samples_resolve(&known, &wanted) {
            Ok(()) => Ok(Readings { descriptors, samples }),
            Err(error) => Err(error),
        }
    }
}

/// Builds a [`Readings`] payload. Setters are infallible;
/// [`build`](ReadingsBuilder::build) validates everything at once, exactly
/// as decoding does.
#[derive(Debug)]
pub struct ReadingsBuilder {
    descriptors: Vec<SignalDescriptor>,
    samples: Vec<Reading>,
}

impl ReadingsBuilder {
    pub closed spec fn descriptors_part(self) -> Seq<SignalDescriptor> {
        self.descriptors@
    }

    pub closed spec fn samples_part(self) -> Seq<Reading> {
        self.samples@
    }

    /// Sets `descriptors`.
    pub fn descriptors(self, descriptors: Vec<SignalDescriptor>) -> (builder: ReadingsBuilder)
        ensures
            builder.descriptors_part() == descriptors@,
            builder.samples_part() == self.samples_part(),
    {
        ReadingsBuilder { descriptors, ..self }
    }

    /// Sets `samples`.
    pub fn samples(self, samples: Vec<Reading>) -> (builder: ReadingsBuilder)
        ensures
            builder.descriptors_part() == self.descriptors_part(),
            builder.samples_part() == samples@,
    {
        ReadingsBuilder { samples, ..self }
    }

    /// Validates and builds.
    ///
    /// Returns [`Invalid`] for too many descriptors or samples, naming the
    /// first descriptor whose key an earlier one holds, or naming the first
    /// sample whose key no descriptor holds.
    pub fn build(self) -> (made: Result<Readings, Invalid>)
        ensures
            reports(made, readings_fault(descriptor_keys(self.descriptors_part()), sample_keys(self.samples_part()))),
            made matches Ok(readings) ==> readings.descriptors_of() == self.descriptors_part() && readings.samples_of()
                == self.samples_part(),
    {
        Readings::checked(self.descriptors, self.samples)
    }
}

/// The keys wire descriptors decode to.
pub open spec fn wire_descriptor_keys(descriptors: Seq<wire::SignalDescriptor>) -> Seq<KeyView> {
    Seq::new(
        descriptors.len(),
        |i: int|
            match descriptors[i].key {
                Some(key) => wire_key_view(key),
                None => ((Seq::empty(), Seq::empty(), Seq::empty()), None),
            },
    )
}

/// The keys wire samples decode to.
pub open spec fn wire_sample_keys(samples: Seq<wire::Reading>) -> Seq<KeyView> {
    Seq::new(
        samples.len(),
        |i: int|
            match samples[i].key {
                Some(key) => wire_key_view(key),
                None => ((Seq::empty(), Seq::empty(), Seq::empty()), None),
            },
    )
}

/// What decoding a wire readings payload reports, if anything: every
/// descriptor in order, every sample in order, then the payload's checks.
pub open spec fn wire_readings_fault(wire: wire::Readings) -> Option<Fault> {
    first_fault(
        items_fault("descriptors"@, wire.descriptors@, |d: wire::SignalDescriptor| wire_descriptor_fault(d), 0),
        first_fault(
            items_fault("samples"@, wire.samples@, |r: wire::Reading| wire_reading_fault(r), 0),
            readings_fault(wire_descriptor_keys(wire.descriptors@), wire_sample_keys(wire.samples@)),
        ),
    )
}

/// Whether `readings` is what the wire payload `wire` stands for.
pub open spec fn readings_decodes(wire: wire::Readings, readings: Readings) -> bool {
    &&& readings.descriptors_of().len() == wire.descriptors@.len()
    &&& forall|k: int| 0 <= k < wire.descriptors@.len() ==> descriptor_decodes(#[trigger] wire.descriptors@[k], readings.descriptors_of()[k])
    &&& readings.samples_of().len() == wire.samples@.len()
    &&& forall|k: int| 0 <= k < wire.samples@.len() ==> reading_decodes(#[trigger] wire.samples@[k], readings.samples_of()[k])
}

impl TryFrom<wire::Readings> for Readings {
    type Error = Invalid;

    fn try_from(wire: wire::Readings) -> (made: Result<Readings, Invalid>)
        ensures
            reports(made, wire_readings_fault(wire)),
            made matches Ok(readings) ==> readings_decodes(wire, readings),
    {
        let ghost wds = wire.descriptors@;
        let ghost wss = wire.samples@;
        let ghost check_d = |d: wire::SignalDescriptor| wire_descriptor_fault(d);
        let ghost check_r = |r: wire::Reading| wire_reading_fault(r);
        let mut descriptors: Vec<SignalDescriptor> = Vec::new();
        for element in it: wire.descriptors.into_iter()
            invariant
                it.seq() == wds,
                descriptors@.len() == it.index(),
                it.index() <= wds.len(),
                check_d == (|d: wire::SignalDescriptor| wire_descriptor_fault(d)),
                forall|k: int| 0 <= k < it.index() ==> #[trigger] check_d(wds[k]) is None,
                forall|k: int| 0 <= k < it.index() ==> descriptor_decodes(#[trigger] wds[k], descriptors@[k]),
        {
            let index = descriptors.len();
            proof {
                assert(element == wds[index as int]);
                lemma_items_fault_skip("descriptors"@, wds, check_d, 0, index as int);
            }
            match SignalDescriptor::try_from(element) {
                Ok(d) => {
                    descriptors.push(d);
                },
                Err(error) => {
                    return Err(error.at_index("descriptors", index));
                },
            }
        }
        proof {
            lemma_items_fault_skip("descriptors"@, wds, check_d, 0, wds.len() as int);
        }
        let mut samples: Vec<Reading> = Vec::new();
        for element in it: wire.samples.into_iter()
            invariant
                it.seq() == wss,
                samples@.len() == it.index(),
                it.index() <= wss.len(),
                check_r == (|r: wire::Reading| wire_reading_fault(r)),
                check_d == (|d: wire::SignalDescriptor| wire_descriptor_fault(d)),
                items_fault("descriptors"@, wds, check_d, 0) is None,
                wds == wire.descriptors@,
                wss == wire.samples@,
                forall|k: int| 0 <= k < it.index() ==> #[trigger] check_r(wss[k]) is None,
                forall|k: int| 0 <= k < it.index() ==> reading_decodes(#[trigger] wss[k], samples@[k]),
        {
            let index = samples.len();
            proof {
                assert(element == wss[index as int]);
                lemma_items_fault_skip("samples"@, wss, check_r, 0, index as int);
            }
            match Reading::try_from(element) {
                Ok(r) => {
                    samples.push(r);
                },
                Err(error) => {
                    return Err(error.at_index("samples", index));
                },
            }
        }
        proof {
            lemma_items_fault_skip("samples"@, wss, check_r, 0, wss.len() as int);
            assert forall|k: int| 0 <= k < wds.len() implies #[trigger] descriptor_keys(descriptors@)[k] == wire_descriptor_keys(wds)[k] by {
                assert(descriptor_decodes(wds[k], descriptors@[k]));
            }
            assert(descriptor_keys(descriptors@) =~= wire_descriptor_keys(wds));
            assert forall|k: int| 0 <= k < wss.len() implies #[trigger] sample_keys(samples@)[k] == wire_sample_keys(wss)[k] by {
                assert(reading_decodes(wss[k], samples@[k]));
            }
            assert(sample_keys(samples@) =~= wire_sample_keys(wss));
        }
        Readings::checked(descriptors, samples)
    }
}

impl vstd::std_specs::convert::TryFromSpecImpl<wire::Readings> for Readings {
    open spec fn obeys_try_from_spec() -> bool {
        false
    }

    open spec fn try_from_spec(wire: wire::Readings) -> Result<Readings, Invalid> {
        arbitrary()
    }
}

impl From<Readings> for wire::Readings {
    fn from(value: Readings) -> (wire: wire::Readings)
        ensures
            readings_decodes(wire, value),
            wire_readings_fault(wire) is None,
    {
        proof {
            use_type_invariant(&value);
        }
        let ghost vds = value.descriptors@;
        let ghost vss = value.samples@;
        let ghost check_d = |d: wire::SignalDescriptor| wire_descriptor_fault(d);
        let ghost check_r = |r: wire::Reading| wire_reading_fault(r);
        let mut descriptors: Vec<wire::SignalDescriptor> = Vec::new();
        for d in it: value.descriptors.into_iter()
            invariant
                it.seq() == vds,
                descriptors@.len() == it.index(),
                it.index() <= vds.len(),
                forall|k: int| 0 <= k < it.index() ==> descriptor_decodes(#[trigger] descriptors@[k], vds[k]) && wire_descriptor_fault(descriptors@[k]) is None,
        {
            proof {
                assert(d == vds[descriptors@.len() as int]);
            }
            descriptors.push(wire::SignalDescriptor::from(d));
        }
        let mut samples: Vec<wire::Reading> = Vec::new();
        for r in it: value.samples.into_iter()
            invariant
                it.seq() == vss,
                samples@.len() == it.index(),
                it.index() <= vss.len(),
                forall|k: int| 0 <= k < it.index() ==> reading_decodes(#[trigger] samples@[k], vss[k]) && wire_reading_fault(samples@[k]) is None,
        {
            proof {
                assert(r == vss[samples@.len() as int]);
            }
            samples.push(wire::Reading::from(r));
        }
        let ghost wds = descriptors@;
        let ghost wss = samples@;
        proof {
            assert forall|k: int| 0 <= k < wds.len() implies #[trigger] check_d(wds[k]) is None by {
                assert(descriptor_decodes(wds[k], vds[k]));
            }
            lemma_items_fault_skip("descriptors"@, wds, check_d, 0, wds.len() as int);
            assert forall|k: int| 0 <= k < wss.len() implies #[trigger] check_r(wss[k]) is None by {
                assert(reading_decodes(wss[k], vss[k]));
            }
            lemma_items_fault_skip("samples"@, wss, check_r, 0, wss.len() as int);
            assert forall|k: int| 0 <= k < wds.len() implies #[trigger] descriptor_keys(vds)[k] == wire_descriptor_keys(wds)[k] by {
                assert(descriptor_decodes(wds[k], vds[k]));
            }
            assert(descriptor_keys(vds) =~= wire_descriptor_keys(wds));
            assert forall|k: int| 0 <= k < wss.len() implies #[trigger] sample_keys(vss)[k] == wire_sample_keys(wss)[k] by {
                assert(reading_decodes(wss[k], vss[k]));
            }
            assert(sample_keys(vss) =~= wire_sample_keys(wss));
        }
        wire::Readings { descriptors, samples }
    }
}

impl vstd::std_specs::convert::FromSpecImpl<Readings> for wire::Readings {
    open spec fn obeys_from_spec() -> bool {
        false
    }

    open spec fn from_spec(value: Readings) -> wire::Readings {
        arbitrary()
    }
}

} // verus!
