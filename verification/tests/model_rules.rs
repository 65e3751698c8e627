//! The cross-field rules: samples resolve to descriptors, relations to
//! resources, a complete scoped graph hangs off its root, and a batch crosses
//! the validated boundary and back without losing a field.

use nv_telemetry::schema::batch::{ObservationBatch, Payload, SCOPE_ROOT_PRESENT, SCOPE_ROOT_REACHES};
use nv_telemetry::schema::enums::Completeness;
use nv_telemetry::schema::graph::{ObservedResource, ResourceGraph};
use nv_telemetry::schema::identity::{SignalKey, Subject};
use nv_telemetry::schema::invalid::Violation;
use nv_telemetry::schema::messages::{Coverage, ObservationWindow, Origin, ResourceRelation};
use nv_telemetry::schema::readings::{Reading, Readings, SignalDescriptor, ValueRange};
use nv_telemetry::schema::records::EndpointContext;
use nv_telemetry::schema::status::AcquisitionStatus;
use nv_telemetry::schema::value::{NumericValue, Timestamp};
use nv_telemetry::schema::wire;

fn built_subject(kind: &str, id: &str) -> Subject {
    Subject::builder().kind(kind).id(id).build().expect("a valid subject")
}

fn built_key(id: &str) -> SignalKey {
    SignalKey::builder().subject(built_subject("sensor", id)).build().expect("a valid signal key")
}

fn finite(value: f64) -> NumericValue {
    NumericValue::double(value.to_bits()).expect("finite")
}

fn descriptor(id: &str) -> SignalDescriptor {
    SignalDescriptor::builder()
        .key(built_key(id))
        .kind("temperature")
        .unit("Cel")
        .build()
        .expect("a valid descriptor")
}

fn sample(id: &str) -> Reading {
    Reading::builder().key(built_key(id)).value(finite(47.5)).build().expect("a valid reading")
}

fn resource_of(subject: &Subject) -> ObservedResource {
    ObservedResource::builder()
        .subject(subject.clone())
        .source_key(&format!("/redfish/v1/{}", subject.id()))
        .properties_complete(true)
        .build()
        .expect("a valid resource")
}

fn endpoint() -> EndpointContext {
    EndpointContext::builder().endpoint_id("bmc-lab-07").build().expect("a valid endpoint")
}

fn window() -> ObservationWindow {
    ObservationWindow::builder()
        .start(Timestamp::new(1_785_621_243, 0).expect("a valid instant"))
        .build()
        .expect("a valid window")
}

fn valid_batch() -> ObservationBatch {
    let key = built_key("CPU1Temp");
    let descriptor = SignalDescriptor::builder()
        .key(key.clone())
        .kind("temperature")
        .unit("Cel")
        .build()
        .expect("a valid descriptor");
    let sample = Reading::builder().key(key).value(finite(47.5)).build().expect("a valid reading");
    let readings = Readings::builder()
        .descriptors(vec![descriptor])
        .samples(vec![sample])
        .build()
        .expect("a valid readings payload");

    ObservationBatch::builder()
        .endpoint(endpoint())
        .origin(
            Origin::builder()
                .provider("redfish.sensor.odata")
                .request_class("sensor-read")
                .build()
                .expect("a valid origin"),
        )
        .window(window())
        .coverage(Coverage::builder().completeness(Completeness::Partial).build().expect("valid coverage"))
        .payload(Payload::Readings(readings))
        .build()
        .expect("a valid batch")
}

#[test]
fn a_batch_round_trips_through_the_validated_boundary() {
    let batch = valid_batch();
    let wire = wire::ObservationBatch::from(batch);
    let decoded = ObservationBatch::try_from(wire).expect("wire round trip");
    assert_eq!(decoded, valid_batch());
}

#[test]
fn a_sample_without_its_descriptor_is_rejected() {
    // Every key referenced by a sample must resolve here.
    let sample = Reading::builder().key(built_key("CPU1Temp")).value(finite(1.0)).build().expect("a valid reading");
    let error = Readings::builder().samples(vec![sample]).build().unwrap_err();
    assert_eq!(error.path(), "samples[0]");
}

#[test]
fn two_descriptors_for_one_key_are_rejected() {
    // Same key, different units, and a consumer with no rule for choosing.
    let descriptor = |unit: &str| {
        SignalDescriptor::builder().key(built_key("PSU1")).unit(unit).build().expect("a valid descriptor")
    };
    let error = Readings::builder().descriptors(vec![descriptor("W"), descriptor("kW.h")]).build().unwrap_err();
    assert_eq!(error.path(), "descriptors[1]");
    assert_eq!(error.violation(), &Violation::Duplicate);
}

fn scoped_batch(root: &Subject, graph: ResourceGraph) -> Result<ObservationBatch, nv_telemetry::schema::invalid::Invalid> {
    ObservationBatch::builder()
        .endpoint(endpoint())
        .origin(Origin::builder().provider("redfish.walker").request_class("subtree").build().expect("a valid origin"))
        .window(window())
        .coverage(
            Coverage::builder()
                .completeness(Completeness::Complete)
                .scope(root.clone())
                .build()
                .expect("valid coverage"),
        )
        .payload(Payload::Resources(graph))
        .build()
}

#[test]
fn a_complete_scoped_graph_must_hang_off_its_root() {
    let chassis = built_subject("chassis", "1U");
    let sensor = built_subject("sensor", "Inlet");

    // A walk recording only each child naming its parent produces a graph its
    // own root cannot reach: no chassis->sensor edge, so the sensor is
    // unreachable and the complete claim is refused.
    let disconnected = ResourceGraph::builder()
        .resources(vec![resource_of(&chassis), resource_of(&sensor)])
        .build()
        .expect("structurally valid graph");
    let error = scoped_batch(&chassis, disconnected).unwrap_err();
    assert_eq!(error.path(), "payload.resources[1]");

    let edge = ResourceRelation::builder()
        .source(chassis.clone())
        .target(sensor.clone())
        .kind("contains")
        .build()
        .expect("a valid relation");
    let connected = ResourceGraph::builder()
        .resources(vec![resource_of(&chassis), resource_of(&sensor)])
        .relations(vec![edge])
        .build()
        .expect("structurally valid graph");
    assert!(scoped_batch(&chassis, connected).is_ok());
}

#[test]
fn a_complete_scope_missing_from_its_graph_names_the_scope() {
    let chassis = built_subject("chassis", "1U");
    let sensor = built_subject("sensor", "Inlet");
    let graph = ResourceGraph::builder().resources(vec![resource_of(&sensor)]).build().expect("a valid graph");
    let error = scoped_batch(&chassis, graph).unwrap_err();
    assert_eq!(error.path(), "coverage.scope");
    assert_eq!(error.violation(), &Violation::Rule(SCOPE_ROOT_PRESENT));

    // An empty graph claims nothing about the subtree.
    let empty = ResourceGraph::builder().build().expect("an empty graph");
    assert!(scoped_batch(&chassis, empty).is_ok());
}

#[test]
fn reachability_follows_relations_transitively_and_only_forwards() {
    let chassis = built_subject("chassis", "1U");
    let board = built_subject("board", "B1");
    let sensor = built_subject("sensor", "Inlet");
    let contains = |source: &Subject, target: &Subject| {
        ResourceRelation::builder()
            .source(source.clone())
            .target(target.clone())
            .kind("contains")
            .build()
            .expect("a valid relation")
    };

    // chassis -> board -> sensor, listed out of order: everything is reached.
    let chain = ResourceGraph::builder()
        .resources(vec![resource_of(&sensor), resource_of(&chassis), resource_of(&board)])
        .relations(vec![contains(&board, &sensor), contains(&chassis, &board)])
        .build()
        .expect("a valid graph");
    assert!(scoped_batch(&chassis, chain).is_ok());

    // sensor -> chassis points the wrong way: the sensor is not reached.
    let backwards = ResourceGraph::builder()
        .resources(vec![resource_of(&chassis), resource_of(&sensor)])
        .relations(vec![contains(&sensor, &chassis)])
        .build()
        .expect("a valid graph");
    let error = scoped_batch(&chassis, backwards).unwrap_err();
    assert_eq!(error.path(), "payload.resources[1]");
    assert_eq!(error.violation(), &Violation::Rule(SCOPE_ROOT_REACHES));
}

#[test]
fn a_range_needs_a_bound_one_arm_and_order() {
    assert!(ValueRange::builder().build().is_err(), "no bound at all");

    assert!(ValueRange::builder().min(NumericValue::Int(0)).build().is_ok());

    let mixed = ValueRange::builder().min(NumericValue::Int(0)).max(finite(5.0)).build();
    assert!(mixed.is_err(), "bounds must share the signal's arm");

    let backwards = ValueRange::builder().min(NumericValue::Int(5)).max(NumericValue::Int(1)).build();
    assert!(backwards.is_err(), "min must not exceed max");
}

#[test]
fn a_sample_key_is_found_in_the_middle_of_the_descriptors() {
    // "c" sorts between "a" and "e"; it must resolve though it is neither the
    // first nor the last descriptor.
    let readings = Readings::builder()
        .descriptors(vec![descriptor("a"), descriptor("c"), descriptor("e")])
        .samples(vec![sample("c")])
        .build();
    assert!(readings.is_ok(), "a middle sample key must resolve: {readings:?}");
}

#[test]
fn a_sample_key_absent_from_the_descriptors_is_refused_where_it_sorts() {
    // "b" and "d" sort among the descriptor keys "a", "c", "e" and must both
    // be concluded absent, the first refused.
    let readings = Readings::builder()
        .descriptors(vec![descriptor("a"), descriptor("c"), descriptor("e")])
        .samples(vec![sample("b"), sample("d")])
        .build();
    let error = readings.unwrap_err();
    assert_eq!(error.path(), "samples[0]");
    assert_eq!(error.violation(), &Violation::Rule("every sample's key resolves to a descriptor in this batch"));
}

fn chassis_relation(source: &str, target: &str) -> ResourceRelation {
    ResourceRelation::builder()
        .source(built_subject("chassis", source))
        .target(built_subject("chassis", target))
        .kind("contains")
        .build()
        .expect("a valid relation")
}

fn three_chassis() -> Vec<ObservedResource> {
    vec![
        resource_of(&built_subject("chassis", "1")),
        resource_of(&built_subject("chassis", "2")),
        resource_of(&built_subject("chassis", "3")),
    ]
}

#[test]
fn a_relation_source_is_found_in_the_middle_of_the_resources() {
    // Sources at every position — first, middle, last — all resolve.
    let graph = ResourceGraph::builder()
        .resources(three_chassis())
        .relations(vec![chassis_relation("2", "1"), chassis_relation("3", "2"), chassis_relation("1", "2")])
        .build();
    assert!(graph.is_ok(), "present sources must resolve: {graph:?}");
}

#[test]
fn a_relation_source_absent_from_the_resources_is_refused_where_it_sorts() {
    // "2.5" sorts between the present subjects "2" and "3" and must be
    // concluded absent rather than land on either neighbour.
    let graph = ResourceGraph::builder().resources(three_chassis()).relations(vec![chassis_relation("2.5", "1")]).build();
    let error = graph.unwrap_err();
    assert_eq!(error.path(), "relations[0]");
    assert_eq!(error.violation(), &Violation::Rule("a relation's source names a resource present in the graph"));
}

fn tagged_resource(id: &str, tag: &str) -> ObservedResource {
    ObservedResource::builder()
        .subject(built_subject("chassis", id))
        .source_key(&format!("/redfish/v1/Chassis/{id}"))
        .entity_tag(tag)
        .properties_complete(true)
        .build()
        .expect("a valid resource")
}

fn duplicates_far_apart() {
    // The duplicates are separated on arrival.
    let error = ResourceGraph::builder()
        .resources(vec![tagged_resource("A", "e1"), tagged_resource("B", "e2"), tagged_resource("A", "e3")])
        .build()
        .unwrap_err();
    assert_eq!(error.violation(), &Violation::Duplicate);
    assert_eq!(error.path(), "resources[2]");
}

#[test]
fn tests_duplicates_are_caught_even_when_they_arrive_far_apart() {
    duplicates_far_apart();
}

#[test]
fn canonical_duplicates_are_caught_even_when_they_arrive_far_apart() {
    duplicates_far_apart();
}

fn ts(seconds: i64) -> wire::Timestamp {
    wire::Timestamp { seconds: Some(seconds), nanos: Some(7) }
}

fn wire_subject(id: &str) -> wire::Subject {
    wire::Subject { kind: Some("sensor".into()), scope: vec!["1U".into()], id: Some(id.into()) }
}

fn wire_key(id: &str) -> wire::SignalKey {
    wire::SignalKey { subject: Some(wire_subject(id)), facet: Some("state/counters".into()) }
}

fn wire_map() -> wire::ValueMap {
    wire::ValueMap {
        entries: vec![wire::MapEntry {
            key: Some("serial".into()),
            value: Some(wire::Value { kind: Some(wire::ValueArm::StringValue("SN-1".into())) }),
        }],
    }
}

fn numeric(value: f64) -> wire::NumericValue {
    wire::NumericValue { kind: Some(wire::NumericArm::DoubleValue(value.to_bits())) }
}

/// Every payload domain with every field populated.
fn payload(domain: usize) -> wire::BatchPayload {
    match domain {
        0 => wire::BatchPayload::Readings(wire::Readings {
            descriptors: vec![wire::SignalDescriptor {
                key: Some(wire_key("CPU1Temp")),
                kind: Some("temperature".into()),
                unit: Some("Cel".into()),
                range: Some(wire::ValueRange { min: Some(numeric(0.0)), max: Some(numeric(100.0)) }),
            }],
            samples: vec![wire::Reading {
                key: Some(wire_key("CPU1Temp")),
                value: Some(numeric(47.5)),
                observed_at: Some(ts(10)),
            }],
        }),
        1 => wire::BatchPayload::Logs(wire::Logs {
            records: vec![wire::LogRecord {
                occurred_at: Some(ts(20)),
                severity: Some(3),
                message: Some("fan failed".into()),
                subject: Some(wire_subject("Fan1")),
                entry_id: Some("sel-41".into()),
                attributes: Some(wire_map()),
            }],
        }),
        2 => wire::BatchPayload::States(wire::States {
            observations: vec![wire::StateObservation {
                subject: Some(wire_subject("Fan1")),
                name: Some("health".into()),
                value: Some(wire::Value { kind: Some(wire::ValueArm::StringValue("OK".into())) }),
                observed_at: Some(ts(30)),
            }],
        }),
        3 => wire::BatchPayload::Inventory(wire::Inventory {
            items: vec![wire::InventoryItem {
                subject: Some(wire_subject("PSU1")),
                attributes: Some(wire_map()),
                source_key: Some("/redfish/v1/PSU1".into()),
            }],
        }),
        _ => wire::BatchPayload::Resources(wire::ResourceGraph {
            resources: vec![wire::ObservedResource {
                subject: Some(wire_subject("1U")),
                source_key: Some("/redfish/v1/Chassis/1U".into()),
                source_schema: Some("#Chassis.v1_2_0.Chassis".into()),
                entity_tag: Some("W/\"e-1\"".into()),
                observed_at: Some(ts(40)),
                properties: Some(wire_map()),
                properties_complete: Some(true),
                unresolved: vec![wire::UnresolvedReference {
                    location: Some("/redfish/v1/Chassis/2U".into()),
                    property: Some("Links.ContainedBy".into()),
                }],
            }],
            relations: vec![wire::ResourceRelation {
                source: Some(wire_subject("1U")),
                target: Some(wire_subject("2U")),
                kind: Some("contains".into()),
            }],
        }),
    }
}

fn maximal(domain: usize) -> wire::ObservationBatch {
    wire::ObservationBatch {
        endpoint: Some(wire::EndpointContext { endpoint_id: Some("bmc-lab-07".into()), attributes: Some(wire_map()) }),
        origin: Some(wire::Origin { provider: Some("redfish".into()), request_class: Some("read".into()) }),
        window: Some(wire::ObservationWindow { start: Some(ts(1)), end: Some(ts(2)) }),
        coverage: Some(wire::Coverage { completeness: Some(2), scope: Some(wire_subject("1U")) }),
        payload: Some(payload(domain)),
    }
}

#[test]
fn every_field_survives_the_validated_round_trip() {
    for domain in 0..5 {
        let validated = ObservationBatch::try_from(maximal(domain)).expect("maximal batch valid");
        let rebuilt = wire::ObservationBatch::from(validated);
        assert_eq!(rebuilt, maximal(domain), "a field was dropped on the round trip");
    }

    let status = wire::AcquisitionStatus {
        endpoint_id: Some("bmc-lab-07".into()),
        provider: Some("redfish".into()),
        request_class: Some("read".into()),
        outcome: Some(2),
        failure_class: Some(3),
        retryable: Some(true),
        started_at: Some(ts(50)),
        duration_nanos: Some(125_000),
        detail: Some("timed out".into()),
    };
    let validated = AcquisitionStatus::try_from(status.clone()).expect("maximal status valid");
    assert_eq!(wire::AcquisitionStatus::from(validated), status, "a status field was dropped on the round trip");
}

#[test]
fn a_batch_names_the_first_absent_part() {
    let error = ObservationBatch::builder().build().unwrap_err();
    assert_eq!(error.path(), "endpoint");
    assert_eq!(error.violation(), &Violation::Absent);

    let error = ObservationBatch::builder().endpoint(endpoint()).window(window()).build().unwrap_err();
    assert_eq!(error.path(), "origin");

    let mut wire = maximal(0);
    wire.payload = None;
    let error = ObservationBatch::try_from(wire).unwrap_err();
    assert_eq!(error.path(), "payload");
    assert_eq!(error.violation(), &Violation::Absent);
}

#[test]
fn a_fault_inside_a_payload_is_named_under_its_domain() {
    let mut wire = maximal(0);
    wire.payload = Some(wire::BatchPayload::Readings(wire::Readings {
        descriptors: vec![],
        samples: vec![wire::Reading { key: Some(wire_key("CPU1Temp")), value: Some(numeric(1.0)), observed_at: None }],
    }));
    let error = ObservationBatch::try_from(wire).unwrap_err();
    assert_eq!(error.path(), "readings.samples[0]");

    let mut wire = maximal(1);
    wire.window = Some(wire::ObservationWindow { start: Some(ts(5)), end: Some(ts(5)) });
    let error = ObservationBatch::try_from(wire).unwrap_err();
    assert_eq!(error.path(), "window.end");
}
