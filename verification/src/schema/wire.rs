//! The wire form of the contract: what decoding produces and encoding
//! consumes. Public fields and no invariants; every field the schema marks
//! optional is an `Option`, so absence stays representable.
//!
//! A double travels here as its IEEE 754 bits; the code that speaks the
//! protocol converts at the edge. The recursive value types hold each other
//! through vectors, so they have no derived `Clone`.

use vstd::prelude::*;

verus! {

#[derive(Clone, Debug, Default, PartialEq, Eq)]
pub struct Timestamp {
    pub seconds: Option<i64>,
    pub nanos: Option<u32>,
}

#[derive(Clone, Debug, Default, PartialEq, Eq)]
pub struct Subject {
    pub kind: Option<String>,
    pub scope: Vec<String>,
    pub id: Option<String>,
}

#[derive(Clone, Debug, Default, PartialEq, Eq)]
pub struct SignalKey {
    pub subject: Option<Subject>,
    pub facet: Option<String>,
}

#[derive(Clone, Debug, Default, PartialEq, Eq)]
pub struct Coverage {
    pub completeness: Option<i32>,
    pub scope: Option<Subject>,
}

#[derive(Clone, Debug, Default, PartialEq, Eq)]
pub struct ObservationWindow {
    pub start: Option<Timestamp>,
    pub end: Option<Timestamp>,
}

#[derive(Clone, Debug, Default, PartialEq, Eq)]
pub struct Origin {
    pub provider: Option<String>,
    pub request_class: Option<String>,
}

#[derive(Clone, Debug, Default, PartialEq, Eq)]
pub struct ResourceRelation {
    pub source: Option<Subject>,
    pub target: Option<Subject>,
    pub kind: Option<String>,
}

#[derive(Clone, Debug, Default, PartialEq, Eq)]
pub struct UnresolvedReference {
    pub location: Option<String>,
    pub property: Option<String>,
}

#[derive(Clone, Debug, Default, PartialEq, Eq)]
pub struct AcquisitionStatus {
    pub endpoint_id: Option<String>,
    pub provider: Option<String>,
    pub request_class: Option<String>,
    pub outcome: Option<i32>,
    pub failure_class: Option<i32>,
    pub retryable: Option<bool>,
    pub started_at: Option<Timestamp>,
    pub duration_nanos: Option<u64>,
    pub detail: Option<String>,
}

#[derive(Clone, Debug, PartialEq, Eq)]
pub enum NumericArm {
    /// A double, by its IEEE 754 bits.
    DoubleValue(u64),
    IntValue(i64),
    UintValue(u64),
}

#[derive(Clone, Debug, Default, PartialEq, Eq)]
pub struct NumericValue {
    pub kind: Option<NumericArm>,
}

#[derive(Debug, PartialEq, Eq)]
pub enum ValueArm {
    NullValue,
    BoolValue(bool),
    IntValue(i64),
    UintValue(u64),
    /// A double, by its IEEE 754 bits.
    DoubleValue(u64),
    StringValue(String),
    BytesValue(Vec<u8>),
    TimestampValue(Timestamp),
    ListValue(ValueList),
    MapValue(ValueMap),
}

#[derive(Debug, Default, PartialEq, Eq)]
pub struct Value {
    pub kind: Option<ValueArm>,
}

#[derive(Debug, Default, PartialEq, Eq)]
pub struct ValueList {
    pub values: Vec<Value>,
}

#[derive(Debug, Default, PartialEq, Eq)]
pub struct ValueMap {
    pub entries: Vec<MapEntry>,
}

#[derive(Debug, Default, PartialEq, Eq)]
pub struct MapEntry {
    pub key: Option<String>,
    pub value: Option<Value>,
}

#[derive(Debug, Default, PartialEq, Eq)]
pub struct EndpointContext {
    pub endpoint_id: Option<String>,
    pub attributes: Option<ValueMap>,
}

#[derive(Debug, Default, PartialEq, Eq)]
pub struct InventoryItem {
    pub subject: Option<Subject>,
    pub attributes: Option<ValueMap>,
    pub source_key: Option<String>,
}

#[derive(Debug, Default, PartialEq, Eq)]
pub struct Inventory {
    pub items: Vec<InventoryItem>,
}

#[derive(Debug, Default, PartialEq, Eq)]
pub struct LogRecord {
    pub occurred_at: Option<Timestamp>,
    pub severity: Option<i32>,
    pub message: Option<String>,
    pub subject: Option<Subject>,
    pub entry_id: Option<String>,
    pub attributes: Option<ValueMap>,
}

#[derive(Debug, Default, PartialEq, Eq)]
pub struct Logs {
    pub records: Vec<LogRecord>,
}

#[derive(Debug, Default, PartialEq, Eq)]
pub struct StateObservation {
    pub subject: Option<Subject>,
    pub name: Option<String>,
    pub value: Option<Value>,
    pub observed_at: Option<Timestamp>,
}

#[derive(Debug, Default, PartialEq, Eq)]
pub struct States {
    pub observations: Vec<StateObservation>,
}

#[derive(Clone, Debug, Default, PartialEq, Eq)]
pub struct ValueRange {
    pub min: Option<NumericValue>,
    pub max: Option<NumericValue>,
}

#[derive(Clone, Debug, Default, PartialEq, Eq)]
pub struct SignalDescriptor {
    pub key: Option<SignalKey>,
    pub kind: Option<String>,
    pub unit: Option<String>,
    pub range: Option<ValueRange>,
}

#[derive(Clone, Debug, Default, PartialEq, Eq)]
pub struct Reading {
    pub key: Option<SignalKey>,
    pub value: Option<NumericValue>,
    pub observed_at: Option<Timestamp>,
}

#[derive(Clone, Debug, Default, PartialEq, Eq)]
pub struct Readings {
    pub descriptors: Vec<SignalDescriptor>,
    pub samples: Vec<Reading>,
}

#[derive(Debug, Default, PartialEq, Eq)]
pub struct ObservedResource {
    pub subject: Option<Subject>,
    pub source_key: Option<String>,
    pub source_schema: Option<String>,
    pub entity_tag: Option<String>,
    pub observed_at: Option<Timestamp>,
    pub properties: Option<ValueMap>,
    pub properties_complete: Option<bool>,
    pub unresolved: Vec<UnresolvedReference>,
}

#[derive(Debug, Default, PartialEq, Eq)]
pub struct ResourceGraph {
    pub resources: Vec<ObservedResource>,
    pub relations: Vec<ResourceRelation>,
}

/// The `payload` oneof of an observation batch.
#[derive(Debug, PartialEq, Eq)]
pub enum BatchPayload {
    Readings(Readings),
    Logs(Logs),
    States(States),
    Inventory(Inventory),
    Resources(ResourceGraph),
}

#[derive(Debug, Default, PartialEq, Eq)]
pub struct ObservationBatch {
    pub endpoint: Option<EndpointContext>,
    pub origin: Option<Origin>,
    pub window: Option<ObservationWindow>,
    pub coverage: Option<Coverage>,
    pub payload: Option<BatchPayload>,
}

} // verus!
