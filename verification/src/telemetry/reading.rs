//! Numeric readings and the signal definitions they share.

use std::sync::Arc;

use vstd::prelude::*;

use crate::order::Order;
use crate::telemetry::attributes::{Attributes, same_attributes, same_value};
use crate::telemetry::context::Subject;
use crate::telemetry::number::{Finite, NonFiniteError, is_finite_bits, normalized_bits};
use crate::telemetry::time::Timestamp;
use crate::telemetry::vocabulary::{Health, Instance, Metric, OperatingState, SourceKey, Unit};

verus! {

/// Numeric reading value without forcing all integer data through a double.
///
/// The variant is part of the value's identity: `I64(1)`, `U64(1)`, and
/// `F64(1.0)` are unequal to each other. A producer must therefore choose one
/// variant per signal and keep it, or a consumer diffing successive
/// observations reads a variant change as a value change.
#[derive(Clone, Copy, Debug, PartialEq, Eq, Structural, Hash)]
#[non_exhaustive]
pub enum NumericValue {
    I64(i64),
    U64(u64),
    F64(Finite),
}

impl NumericValue {
    /// Builds a floating point value from a double's bits, rejecting
    /// non-finite input.
    pub fn float_bits(bits: u64) -> (made: Result<NumericValue, NonFiniteError>)
        ensures
            match made {
                Ok(NumericValue::F64(value)) => is_finite_bits(bits) && value.bits_of() == normalized_bits(bits),
                Ok(_) => false,
                Err(_) => !is_finite_bits(bits),
            },
    {
        match Finite::from_bits(bits) {
            Ok(value) => Ok(NumericValue::F64(value)),
            Err(error) => Err(error),
        }
    }
}

impl From<i64> for NumericValue {
    fn from(value: i64) -> (made: NumericValue)
        ensures
            made == NumericValue::I64(value),
    {
        NumericValue::I64(value)
    }
}

impl vstd::std_specs::convert::FromSpecImpl<i64> for NumericValue {
    open spec fn obeys_from_spec() -> bool {
        true
    }

    open spec fn from_spec(value: i64) -> NumericValue {
        NumericValue::I64(value)
    }
}

impl From<u64> for NumericValue {
    fn from(value: u64) -> (made: NumericValue)
        ensures
            made == NumericValue::U64(value),
    {
        NumericValue::U64(value)
    }
}

impl vstd::std_specs::convert::FromSpecImpl<u64> for NumericValue {
    open spec fn obeys_from_spec() -> bool {
        true
    }

    open spec fn from_spec(value: u64) -> NumericValue {
        NumericValue::U64(value)
    }
}

impl From<Finite> for NumericValue {
    fn from(value: Finite) -> (made: NumericValue)
        ensures
            made == NumericValue::F64(value),
    {
        NumericValue::F64(value)
    }
}

impl vstd::std_specs::convert::FromSpecImpl<Finite> for NumericValue {
    open spec fn obeys_from_spec() -> bool {
        true
    }

    open spec fn from_spec(value: Finite) -> NumericValue {
        NumericValue::F64(value)
    }
}

/// How a reading's value evolves over time.
#[derive(Clone, Copy, Debug, PartialEq, Eq, Structural, Hash)]
#[non_exhaustive]
pub enum ReadingKind {
    Gauge,
    Counter,
}

/// State and health values reported by the device itself.
///
/// Both halves are optional and independent: a source may report either, both,
/// or neither, and there is no ordering between them to validate.
#[derive(Clone, Debug, PartialEq, Eq, Hash)]
#[non_exhaustive]
pub struct ReportedState {
    pub state: Option<OperatingState>,
    pub health: Option<Health>,
}

impl ReportedState {
    pub fn new(state: Option<OperatingState>, health: Option<Health>) -> (made: ReportedState)
        ensures
            made.state == state,
            made.health == health,
    {
        ReportedState { state, health }
    }

    /// Returns whether the source reported neither half.
    pub fn is_empty(&self) -> (empty: bool)
        ensures
            empty == (self.state is None && self.health is None),
    {
        self.state.is_none() && self.health.is_none()
    }
}

impl Default for ReportedState {
    fn default() -> (made: ReportedState)
        ensures
            made.state is None,
            made.health is None,
    {
        ReportedState { state: None, health: None }
    }
}

/// An optional lower and upper limit on a reading's value.
///
/// Either edge may be absent: a source that reports only a ceiling leaves the
/// floor unset rather than inventing one. When both are present the lower
/// edge does not exceed the upper one.
#[derive(Clone, Copy, Debug, PartialEq, Eq, Structural, Hash)]
pub struct ValueRange {
    lower: Option<Finite>,
    upper: Option<Finite>,
}

/// Whether a pair of edges is in order: when both are present, the lower one
/// does not exceed the upper one.
pub open spec fn edges_ordered(lower: Option<Finite>, upper: Option<Finite>) -> bool {
    match (lower, upper) {
        (Some(low), Some(high)) => low.order_key() <= high.order_key(),
        _ => true,
    }
}

impl ValueRange {
    #[verifier::type_invariant]
    spec fn ordered(self) -> bool {
        edges_ordered(self.lower, self.upper)
    }

    /// The lower edge.
    pub closed spec fn low(self) -> Option<Finite> {
        self.lower
    }

    /// The upper edge.
    pub closed spec fn high(self) -> Option<Finite> {
        self.upper
    }

    /// Builds a range from two independently optional edges, as decoding
    /// receives them.
    ///
    /// Returns [`RangeOrderError`] when both edges are present and `lower`
    /// exceeds `upper`.
    pub fn new(lower: Option<Finite>, upper: Option<Finite>) -> (made: Result<ValueRange, RangeOrderError>)
        ensures
            match made {
                Ok(range) => edges_ordered(lower, upper) && range.low() == lower && range.high() == upper,
                Err(error) => !edges_ordered(lower, upper) && Some(error.lower) == lower && Some(error.upper) == upper,
            },
    {
        match (lower, upper) {
            (Some(lower), Some(upper)) => ValueRange::between(lower, upper),
            (Some(lower), None) => Ok(ValueRange::at_least(lower)),
            (None, Some(upper)) => Ok(ValueRange::at_most(upper)),
            (None, None) => Ok(ValueRange::empty()),
        }
    }

    pub fn empty() -> (made: ValueRange)
        ensures
            made.low() is None,
            made.high() is None,
    {
        ValueRange { lower: None, upper: None }
    }

    pub fn at_least(lower: Finite) -> (made: ValueRange)
        ensures
            made.low() == Some(lower),
            made.high() is None,
    {
        ValueRange { lower: Some(lower), upper: None }
    }

    pub fn at_most(upper: Finite) -> (made: ValueRange)
        ensures
            made.low() is None,
            made.high() == Some(upper),
    {
        ValueRange { lower: None, upper: Some(upper) }
    }

    /// Builds a closed range, rejecting inverted bounds.
    ///
    /// Returns [`RangeOrderError`] when `lower` exceeds `upper`.
    pub fn between(lower: Finite, upper: Finite) -> (made: Result<ValueRange, RangeOrderError>)
        ensures
            match made {
                Ok(range) => lower.order_key() <= upper.order_key() && range.low() == Some(lower) && range.high() == Some(upper),
                Err(error) => lower.order_key() > upper.order_key() && error.lower == lower && error.upper == upper,
            },
    {
        if lower.compare(upper) == Order::Greater {
            return Err(RangeOrderError { lower, upper });
        }
        Ok(ValueRange { lower: Some(lower), upper: Some(upper) })
    }

    pub fn lower(self) -> (edge: Option<Finite>)
        ensures
            edge == self.low(),
            edges_ordered(self.low(), self.high()),
    {
        proof {
            use_type_invariant(self);
        }
        self.lower
    }

    pub fn upper(self) -> (edge: Option<Finite>)
        ensures
            edge == self.high(),
            edges_ordered(self.low(), self.high()),
    {
        proof {
            use_type_invariant(self);
        }
        self.upper
    }

    pub fn is_empty(self) -> (empty: bool)
        ensures
            empty == (self.low() is None && self.high() is None),
    {
        self.lower.is_none() && self.upper.is_none()
    }
}

impl Default for ValueRange {
    fn default() -> (made: ValueRange)
        ensures
            made.low() is None,
            made.high() is None,
    {
        ValueRange::empty()
    }
}

/// Two reported range edges that contradict their intended ordering.
#[derive(Clone, Copy, Debug, PartialEq, Eq, Structural)]
#[non_exhaustive]
pub struct RangeOrderError {
    pub lower: Finite,
    pub upper: Finite,
}

/// Immutable metadata shared by readings of one logical signal.
///
/// `observed_at` records when this definition was first observed and
/// `revision` counts how many times it has changed. Neither advances on a
/// refresh reporting identical content; see
/// [`matches_definition`](SignalDescriptor::matches_definition).
#[derive(Clone, Debug, PartialEq, Eq, Hash)]
#[non_exhaustive]
pub struct SignalDescriptor {
    pub subject: Subject,
    pub metric: Metric,
    pub instance: Instance,
    pub kind: ReadingKind,
    pub unit: Unit,
    /// When this definition was first observed.
    pub observed_at: Timestamp,
    /// How many times the definition has changed.
    pub revision: u64,
    pub attributes: Attributes,
    pub bounds: Option<ValueRange>,
}

/// Whether two descriptors define the same signal: every field but when it
/// was seen and how often it changed agrees.
pub open spec fn same_definition(a: SignalDescriptor, b: SignalDescriptor) -> bool {
    &&& a.subject@ == b.subject@
    &&& a.metric@ == b.metric@
    &&& a.instance@ == b.instance@
    &&& a.kind == b.kind
    &&& a.unit@ == b.unit@
    &&& same_attributes(a.attributes.entries(), b.attributes.entries())
    &&& a.bounds == b.bounds
}

impl SignalDescriptor {
    pub fn new(
        subject: Subject,
        metric: Metric,
        instance: Instance,
        kind: ReadingKind,
        unit: Unit,
        observed_at: Timestamp,
    ) -> (made: SignalDescriptor)
        ensures
            made.subject == subject,
            made.metric == metric,
            made.instance == instance,
            made.kind == kind,
            made.unit == unit,
            made.observed_at == observed_at,
            made.revision == 0,
            made.attributes.entries().len() == 0,
            made.bounds is None,
    {
        SignalDescriptor {
            subject,
            metric,
            instance,
            kind,
            unit,
            observed_at,
            revision: 0,
            attributes: Attributes::empty(),
            bounds: None,
        }
    }

    pub fn with_revision(self, revision: u64) -> (made: SignalDescriptor)
        ensures
            made == (SignalDescriptor { revision, ..self }),
    {
        SignalDescriptor { revision, ..self }
    }

    pub fn with_attributes(self, attributes: Attributes) -> (made: SignalDescriptor)
        ensures
            made == (SignalDescriptor { attributes, ..self }),
    {
        SignalDescriptor { attributes, ..self }
    }

    pub fn with_bounds(self, bounds: ValueRange) -> (made: SignalDescriptor)
        ensures
            made == (SignalDescriptor { bounds: Some(bounds), ..self }),
    {
        SignalDescriptor { bounds: Some(bounds), ..self }
    }

    /// Returns whether two descriptors define the same signal.
    ///
    /// Ignores `observed_at` and `revision`, which record when the definition
    /// was seen rather than what it says.
    pub fn matches_definition(&self, other: &SignalDescriptor) -> (matches: bool)
        ensures
            matches == same_definition(*self, *other),
    {
        let same_bounds = match (&self.bounds, &other.bounds) {
            (Some(a), Some(b)) => *a == *b,
            (None, None) => true,
            _ => false,
        };
        self.subject.same(&other.subject) && self.metric.same(&other.metric) && self.instance.same(&other.instance)
            && self.kind == other.kind && self.unit.same(&other.unit) && self.attributes.same(&other.attributes)
            && same_bounds
    }
}

/// Descriptors that match as definitions agree on everything that defines
/// a signal: subject, metric, instance, kind, unit, attributes and bounds.
pub proof fn law_matching_definitions_agree(a: SignalDescriptor, b: SignalDescriptor)
    requires
        same_definition(a, b),
    ensures
        a.subject@ == b.subject@,
        a.metric@ == b.metric@,
        a.instance@ == b.instance@,
        a.kind == b.kind,
        a.unit@ == b.unit@,
        same_attributes(a.attributes.entries(), b.attributes.entries()),
        a.bounds == b.bounds,
{
}

/// Matching a definition is reflexive and symmetric, and it ignores when a
/// definition was seen and how often it changed.
pub proof fn lemma_matches_definition(a: SignalDescriptor, b: SignalDescriptor, revision: u64, observed_at: Timestamp)
    ensures
        same_definition(a, a),
        same_definition(a, b) == same_definition(b, a),
        same_definition(a, b) == same_definition(SignalDescriptor { revision, observed_at, ..a }, b),
{
    let x = a.attributes.entries();
    let y = b.attributes.entries();
    if same_attributes(x, y) {
        assert forall|i: int| #![trigger y[i]] 0 <= i < y.len() implies y[i].key@ == x[i].key@ && same_value(y[i].value, x[i].value) by {
            assert(x[i].key@ == y[i].key@ && same_value(x[i].value, y[i].value));
        }
    }
    if same_attributes(y, x) {
        assert forall|i: int| #![trigger x[i]] 0 <= i < x.len() implies x[i].key@ == y[i].key@ && same_value(x[i].value, y[i].value) by {
            assert(y[i].key@ == x[i].key@ && same_value(y[i].value, x[i].value));
        }
    }
}

/// One numeric observation associated with a shared signal descriptor.
#[derive(Clone, Debug, PartialEq, Eq, Hash)]
#[non_exhaustive]
pub struct Reading {
    pub source_key: SourceKey,
    /// Metadata shared with every other reading of the same signal.
    pub signal: Arc<SignalDescriptor>,
    pub value: NumericValue,
    /// When the source sampled this value, if it reported a per-sample time.
    ///
    /// `None` attributes the reading to the batch's observation window; it
    /// never means the sample is undated.
    pub observed_at: Option<Timestamp>,
    pub attributes: Attributes,
    pub reported_state: Option<ReportedState>,
}

impl Reading {
    /// Builds a reading against a signal definition.
    pub fn new(source_key: SourceKey, signal: Arc<SignalDescriptor>, value: NumericValue) -> (made: Reading)
        ensures
            made.source_key == source_key,
            made.signal == signal,
            made.value == value,
            made.observed_at is None,
            made.attributes.entries().len() == 0,
            made.reported_state is None,
    {
        Reading {
            source_key,
            signal,
            value,
            observed_at: None,
            attributes: Attributes::empty(),
            reported_state: None,
        }
    }

    pub fn with_observed_at(self, observed_at: Timestamp) -> (made: Reading)
        ensures
            made == (Reading { observed_at: Some(observed_at), ..self }),
    {
        Reading { observed_at: Some(observed_at), ..self }
    }

    pub fn with_attributes(self, attributes: Attributes) -> (made: Reading)
        ensures
            made == (Reading { attributes, ..self }),
    {
        Reading { attributes, ..self }
    }

    pub fn with_reported_state(self, reported_state: ReportedState) -> (made: Reading)
        ensures
            made == (Reading { reported_state: Some(reported_state), ..self }),
    {
        Reading { reported_state: Some(reported_state), ..self }
    }
}

} // verus!
