//! The observation model: names, attributes, time, numbers, readings and
//! scope-checked batches.

use std::collections::hash_map::DefaultHasher;
use std::hash::Hash;
use std::hash::Hasher;
use std::sync::Arc;
use std::time::Duration;
use std::time::UNIX_EPOCH;

use nv_telemetry::order::Order;
use nv_telemetry::telemetry::attributes::{AttrValue, Attribute, Attributes, AttributesError};
use nv_telemetry::telemetry::batch::{ObservationBatch, Payload};
use nv_telemetry::telemetry::context::{Completeness, Coverage, EndpointContext, ObservationScope, Origin, Subject};
use nv_telemetry::telemetry::inventory::InventoryItem;
use nv_telemetry::telemetry::log::LogRecord;
use nv_telemetry::telemetry::name::Name;
use nv_telemetry::telemetry::number::{Finite, NonFiniteError};
use nv_telemetry::telemetry::property::PropertyMap;
use nv_telemetry::telemetry::reading::{NumericValue, Reading, ReadingKind, ReportedState, SignalDescriptor, ValueRange};
use nv_telemetry::telemetry::resource::{ObservedResource, ResourceGraph};
use nv_telemetry::telemetry::state::StateObservation;
use nv_telemetry::telemetry::status::{AcquisitionOutcome, AcquisitionStatus, FailureClass, Retryable};
use nv_telemetry::telemetry::time::{DurationValue, ObservationWindow, TimeError, Timestamp, NANOS_PER_SECOND};
use nv_telemetry::telemetry::vocabulary::{Health, OperatingState, Severity, Unit};

fn finite(value: f64) -> Finite {
    Finite::from_bits(value.to_bits()).expect("finite value")
}

fn float_of(value: Finite) -> f64 {
    f64::from_bits(value.to_bits())
}

fn timestamp(seconds: i64) -> Timestamp {
    Timestamp::new(seconds, 0).expect("valid timestamp")
}

fn endpoint() -> Arc<EndpointContext> {
    Arc::new(EndpointContext::new(
        "bmc-00:11:22:33:44:55".into(),
        Attributes::new(vec![
            Attribute::new("device_class".into(), "compute_node".into()),
            Attribute::new("rack".into(), "rack-1".into()),
        ])
        .expect("unique attributes"),
    ))
}

fn origin() -> Origin {
    Origin::new("redfish-sensor-odata".into(), "redfish-sensor-odata".into())
}

fn window() -> ObservationWindow {
    ObservationWindow::new(timestamp(100), timestamp(101)).expect("ordered window")
}

fn sensor_subject() -> Subject {
    Subject::new("sensor".into(), "/redfish/v1/Chassis/1/Sensors/CPU0Temp".into())
}

fn hash_of<T: Hash>(value: &T) -> u64 {
    let mut hasher = DefaultHasher::new();
    value.hash(&mut hasher);
    hasher.finish()
}

fn descriptor() -> SignalDescriptor {
    SignalDescriptor::new(
        sensor_subject(),
        "temperature".into(),
        "CPU0Temp".into(),
        ReadingKind::Gauge,
        Unit::from_static("celsius"),
        timestamp(99),
    )
}

fn reading() -> Reading {
    Reading::new(
        "/redfish/v1/Chassis/1/Sensors/CPU0Temp".into(),
        Arc::new(descriptor()),
        finite(42.5).into(),
    )
}

fn std_order(order: Order) -> std::cmp::Ordering {
    match order {
        Order::Less => std::cmp::Ordering::Less,
        Order::Equal => std::cmp::Ordering::Equal,
        Order::Greater => std::cmp::Ordering::Greater,
    }
}

#[test]
fn const_construction_is_available() {
    let value = finite(1.5);
    assert_eq!(float_of(value), 1.5);
}

#[test]
fn negative_zero_is_normalized() {
    let negative = finite(-0.0);
    assert_eq!(negative, Finite::zero());
    assert!(float_of(negative).is_sign_positive());
}

#[test]
fn equality_ordering_and_hashing_agree() {
    for pair in [
        (finite(-0.0), finite(0.0)),
        (finite(0.0), Finite::zero()),
        (finite(-1.0), finite(-1.0)),
    ] {
        assert_eq!(pair.0, pair.1);
        assert_eq!(pair.0.compare(pair.1), Order::Equal);
        assert_eq!(hash_of(&pair.0), hash_of(&pair.1));
    }
}

#[test]
fn the_sort_key_orders_as_total_cmp_does() {
    let values = [
        f64::MIN,
        -1e300,
        -1.5,
        -1.0,
        -f64::MIN_POSITIVE,
        0.0,
        f64::MIN_POSITIVE,
        1.0,
        1.5,
        1e300,
        f64::MAX,
    ];

    for left in values {
        for right in values {
            let left_value = finite(left);
            let right_value = finite(right);
            assert_eq!(
                std_order(left_value.compare(right_value)),
                left.total_cmp(&right),
                "{left} vs {right}"
            );
        }
    }
}

#[test]
fn non_finite_is_rejected() {
    assert_eq!(Finite::from_bits(f64::NAN.to_bits()), Err(NonFiniteError::NaN));
    assert_eq!(
        Finite::from_bits(f64::INFINITY.to_bits()),
        Err(NonFiniteError::PositiveInfinity)
    );
    assert_eq!(
        Finite::from_bits(f64::NEG_INFINITY.to_bits()),
        Err(NonFiniteError::NegativeInfinity)
    );
}

#[test]
fn the_optional_edge_pair_agrees_with_the_named_constructors() {
    let lower = finite(-5.0);
    let upper = finite(100.0);

    assert_eq!(
        ValueRange::new(Some(lower), Some(upper)).expect("ordered edges"),
        ValueRange::between(lower, upper).expect("ordered edges")
    );
    assert_eq!(
        ValueRange::new(Some(lower), None).expect("one edge"),
        ValueRange::at_least(lower)
    );
    assert_eq!(
        ValueRange::new(None, Some(upper)).expect("one edge"),
        ValueRange::at_most(upper)
    );
    assert_eq!(ValueRange::new(None, None).expect("no edges"), ValueRange::empty());
    assert!(ValueRange::new(Some(upper), Some(lower)).is_err());
}

#[test]
fn static_and_shared_names_compare_and_hash_by_content() {
    let static_name = Name::from_static("temperature");
    let shared_name = Name::from(String::from("temperature"));

    assert!(static_name.is_static());
    assert!(!shared_name.is_static());
    assert_eq!(static_name, shared_name);
    assert_eq!(hash_of(&static_name), hash_of(&shared_name));
}

#[test]
fn plain_records_read_and_match_as_data() {
    let reading = reading();

    let Reading {
        value,
        signal,
        reported_state,
        ..
    } = &reading;

    assert_eq!(*value, NumericValue::F64(finite(42.5)));
    assert_eq!(signal.subject.kind.as_str(), "sensor");
    assert_eq!(signal.unit.as_str(), "celsius");
    assert!(reported_state.is_none());

    let attributes = Attributes::new(vec![
        Attribute::new("b".into(), 1_u64.into()),
        Attribute::new("a".into(), 2_u64.into()),
    ])
    .expect("unique attributes");
    assert_eq!(attributes.as_slice()[0].key.as_str(), "a");
}

#[test]
fn attributes_are_sorted_searchable_and_unique() {
    let attributes = Attributes::new(vec![
        Attribute::new("z".into(), 3_u64.into()),
        Attribute::new("a".into(), true.into()),
    ])
    .expect("unique attributes");

    assert_eq!(attributes.as_slice()[0].key.as_str(), "a");
    assert_eq!(attributes.get("z"), Some(&AttrValue::U64(3)));
    assert_eq!(attributes.get("missing"), None);

    let duplicate = Attributes::new(vec![
        Attribute::new("rack".into(), "one".into()),
        Attribute::new("rack".into(), "two".into()),
    ]);
    assert!(matches!(
        duplicate,
        Err(AttributesError::DuplicateKey(key)) if key.as_str() == "rack"
    ));
}

#[test]
fn equal_attributes_hash_equally_however_they_were_built() {
    let sorted = Attributes::new(vec![
        Attribute::new("a".into(), true.into()),
        Attribute::new("z".into(), 3_u64.into()),
    ])
    .expect("unique attributes");
    let reversed = Attributes::new(vec![
        Attribute::new("z".into(), 3_u64.into()),
        Attribute::new("a".into(), true.into()),
    ])
    .expect("unique attributes");
    let different = Attributes::new(vec![
        Attribute::new("a".into(), false.into()),
        Attribute::new("z".into(), 3_u64.into()),
    ])
    .expect("unique attributes");

    assert_eq!(sorted, reversed);
    assert!(sorted.same(&reversed));
    assert_eq!(hash_of(&sorted), hash_of(&reversed));
    assert_ne!(sorted, different);
    assert!(!sorted.same(&different));
    assert_ne!(hash_of(&sorted), hash_of(&different));

    assert_eq!(Attributes::empty(), Attributes::empty());
    assert_eq!(hash_of(&Attributes::empty()), hash_of(&Attributes::empty()));
}

#[test]
fn timestamps_validate_and_round_trip_before_the_epoch() {
    assert_eq!(
        Timestamp::new(0, NANOS_PER_SECOND),
        Err(TimeError::InvalidNanoseconds(NANOS_PER_SECOND))
    );
    assert_eq!(
        ObservationWindow::new(timestamp(2), timestamp(1)),
        Err(TimeError::WindowEndsBeforeStart)
    );

    let system_time = UNIX_EPOCH - Duration::from_millis(500);
    let timestamp = Timestamp::from_system_time(system_time).expect("representable timestamp");
    assert_eq!(timestamp.seconds(), -1);
    assert_eq!(timestamp.nanoseconds(), 500_000_000);
    assert_eq!(
        timestamp.to_system_time().expect("representable system time"),
        system_time
    );
}

#[test]
fn durations_share_the_timestamp_bound_and_carry_sign_in_the_seconds() {
    assert!(DurationValue::new(1, 999_999_999).is_ok());
    assert_eq!(
        DurationValue::new(1, NANOS_PER_SECOND),
        Err(TimeError::InvalidNanoseconds(NANOS_PER_SECOND))
    );

    let negative_half_second = DurationValue::new(-1, 500_000_000).expect("valid duration");
    assert_eq!(negative_half_second.as_nanos(), -500_000_000);
    assert!(negative_half_second < DurationValue::new(0, 0).expect("valid duration"));
}

#[test]
fn all_payload_domains_build_as_immutable_slices() {
    let readings = vec![reading()];
    assert_eq!(readings.len(), 1);

    let logs = vec![LogRecord::new(Severity::from_static("warning"), String::from("fan degraded"))
        .with_record_id("log-1".into())
        .with_subject(sensor_subject())];

    let states = vec![StateObservation::new("power_state".into(), "on".into())
        .with_instance("system-1".into())
        .with_subject(Subject::new("computer_system".into(), "system-1".into()))];

    let inventory = vec![InventoryItem::new(sensor_subject(), Attributes::empty())];

    let resources = ResourceGraph::new(
        vec![ObservedResource::complete(
            sensor_subject(),
            "/redfish/v1/Chassis/1/Sensors/CPU0Temp".into(),
            PropertyMap::empty(),
        )],
        Vec::new(),
    )
    .expect("valid resource graph");

    let payloads = [
        Payload::Readings(readings),
        Payload::Logs(logs),
        Payload::States(states),
        Payload::Inventory(inventory),
        Payload::Resources(resources),
    ];
    assert!(payloads.iter().all(|payload| payload.len() == 1));
}

#[test]
fn coverage_pairs_a_scope_with_the_claim_made_about_it() {
    let subject = Subject::new("sensor".into(), "/redfish/v1/Chassis/1/Sensors/CPU0Temp".into());
    let complete = Coverage::complete_subject(subject.clone());
    assert_eq!(complete.scope, ObservationScope::Subject(subject));
    assert!(complete.completeness.is_complete());

    let partial = Coverage::new(ObservationScope::Endpoint, Completeness::partial(Some(2)));
    assert_eq!(partial.scope, ObservationScope::Endpoint);
    assert!(!partial.completeness.is_complete());
}

#[test]
fn scope_is_enforced_and_completeness_is_relative_to_it() {
    let sensor = sensor_subject();
    let other = Subject::new("sensor".into(), "other".into());
    let batch = ObservationBatch::new(
        endpoint(),
        origin(),
        window(),
        Coverage::complete_subject(sensor.clone()),
        Payload::Readings(vec![reading()]),
    )
    .expect("reading is inside sensor scope");
    assert_eq!(batch.coverage().scope, ObservationScope::Subject(sensor));

    let mismatch = ObservationBatch::new(
        endpoint(),
        origin(),
        window(),
        Coverage::complete_subject(other),
        Payload::Readings(vec![reading()]),
    );
    assert!(mismatch.is_err());

    let partial = Coverage::new(ObservationScope::Endpoint, Completeness::partial(Some(2)));
    assert!(!partial.completeness.is_complete());
}

fn scoped(payload: Payload) -> bool {
    ObservationBatch::new(
        endpoint(),
        origin(),
        window(),
        Coverage::complete_subject(sensor_subject()),
        payload,
    )
    .is_ok()
}

#[test]
fn every_payload_domain_is_scope_checked_the_same_way() {
    let sensor = sensor_subject();
    let other = Subject::new("sensor".into(), "other".into());

    let log = |subject: Subject| {
        Payload::Logs(vec![LogRecord::new(Severity::from_static("warning"), String::from("fan degraded"))
            .with_subject(subject)])
    };
    assert!(scoped(log(sensor.clone())));
    assert!(!scoped(log(other.clone())));

    let state = |subject: Subject| {
        Payload::States(vec![StateObservation::new("power_state".into(), "on".into()).with_subject(subject)])
    };
    assert!(scoped(state(sensor.clone())));
    assert!(!scoped(state(other.clone())));

    let item = |subject: Subject| Payload::Inventory(vec![InventoryItem::new(subject, Attributes::empty())]);
    assert!(scoped(item(sensor.clone())));
    assert!(!scoped(item(other)));
}

#[test]
fn a_row_without_a_subject_belongs_to_any_scope() {
    let unattributed = LogRecord::new(Severity::from_static("warning"), String::from("psu noise"));
    assert!(unattributed.subject.is_none());

    assert!(scoped(Payload::Logs(vec![unattributed])));
}

#[test]
fn owned_values_and_shared_handles_build_the_same_batch() {
    let source_key = "/redfish/v1/Chassis/1/Sensors/CPU0Temp";

    let from_value = Reading::new(source_key.into(), Arc::new(descriptor()), finite(42.5).into());
    let shared = Arc::new(descriptor());
    let from_handle = Reading::new(source_key.into(), Arc::clone(&shared), finite(42.5).into());
    assert_eq!(from_value, from_handle);

    let context = EndpointContext::new("bmc-1".into(), Attributes::empty());
    let owned = ObservationBatch::new(
        Arc::new(context.clone()),
        origin(),
        window(),
        Coverage::complete_endpoint(),
        Payload::Readings(vec![from_value]),
    )
    .expect("valid batch");
    let shared_batch = ObservationBatch::new(
        Arc::new(context),
        origin(),
        window(),
        Coverage::complete_endpoint(),
        Payload::Readings(vec![from_handle]),
    )
    .expect("valid batch");
    assert_eq!(owned, shared_batch);

    let status = AcquisitionStatus::new(
        Arc::clone(&owned.endpoint),
        origin(),
        window(),
        AcquisitionOutcome::succeeded(1),
    );
    assert_eq!(status.endpoint.id, owned.endpoint.id);
    assert!(Arc::ptr_eq(&status.endpoint, &owned.endpoint));
}

#[test]
fn equal_batches_hash_equally_so_observations_can_be_content_addressed() {
    let build = || {
        ObservationBatch::new(
            endpoint(),
            origin(),
            window(),
            Coverage::complete_subject(sensor_subject()),
            Payload::Readings(vec![reading()]),
        )
        .expect("valid batch")
    };

    let first = build();
    let second = build();
    assert_eq!(first, second);
    assert_eq!(hash_of(&first), hash_of(&second));

    let different = ObservationBatch::new(
        endpoint(),
        origin(),
        window(),
        Coverage::complete_endpoint(),
        Payload::Inventory(Vec::new()),
    )
    .expect("valid batch");
    assert_ne!(hash_of(&first), hash_of(&different));
}

#[test]
fn complete_empty_inventory_snapshot_is_valid_and_shareable() {
    let batch = ObservationBatch::new(
        endpoint(),
        origin(),
        window(),
        Coverage::complete_endpoint(),
        Payload::Inventory(Vec::new()),
    )
    .expect("empty complete inventory is meaningful");

    let shared = Arc::new(batch);
    let second_consumer = Arc::clone(&shared);
    assert!(Arc::ptr_eq(&shared, &second_consumer));
    assert!(shared.payload().is_empty());
}

#[test]
fn sensor_inventory_and_reading_share_subject_and_health_context() {
    let entity = Subject::new("processor".into(), "/redfish/v1/Systems/1/Processors/CPU0".into());
    let sensor = sensor_subject();
    let inventory_item = InventoryItem::new(
        sensor.clone(),
        Attributes::new(vec![
            Attribute::new("entity_type".into(), "processor".into()),
            Attribute::new("physical_context".into(), "cpu".into()),
            Attribute::new("sensor_name".into(), "CPU0Temp".into()),
        ])
        .expect("unique inventory attributes"),
    )
    .with_parent(entity);

    let signal = Arc::new(
        SignalDescriptor::new(
            sensor.clone(),
            "temperature".into(),
            "CPU0Temp".into(),
            ReadingKind::Gauge,
            Unit::from_static("celsius"),
            timestamp(99),
        )
        .with_bounds(ValueRange::between(finite(-5.0), finite(100.0)).expect("ordered edges")),
    );
    let reading = Reading::new("/redfish/v1/Chassis/1/Sensors/CPU0Temp".into(), signal, finite(42.5).into())
        .with_reported_state(ReportedState::new(
            Some(OperatingState::from_static("enabled")),
            Some(Health::from_static("critical")),
        ));

    assert_eq!(inventory_item.subject, reading.signal.subject);
    assert_eq!(
        inventory_item.attributes.get("physical_context"),
        Some(&AttrValue::String(Name::from_static("cpu")))
    );
    assert_eq!(
        reading
            .reported_state
            .as_ref()
            .and_then(|state| state.health.as_ref())
            .map(|health| health.as_str()),
        Some("critical")
    );
    assert_eq!(reading.signal.bounds.and_then(|bounds| bounds.upper()), Some(finite(100.0)));
    assert_eq!(reading.value, NumericValue::F64(finite(42.5)));
}

#[test]
fn reported_ranges_are_stored_permissively_but_can_be_checked() {
    let error = ValueRange::new(Some(finite(100.0)), Some(finite(-5.0))).expect_err("the edges contradict");
    assert_eq!(error.lower, finite(100.0));
    assert_eq!(error.upper, finite(-5.0));

    assert!(ValueRange::new(Some(finite(-5.0)), None).is_ok());
    assert!(ValueRange::empty().is_empty());
}

#[test]
fn non_finite_values_are_rejected_at_construction() {
    assert!(Finite::from_bits(f64::NAN.to_bits()).is_err());
    assert!(NumericValue::float_bits(f64::INFINITY.to_bits()).is_err());
    assert!(AttrValue::float_bits(f64::NEG_INFINITY.to_bits()).is_err());
}

#[test]
fn acquisition_failure_is_status_not_an_observation() {
    let status = AcquisitionStatus::new(
        endpoint(),
        origin(),
        window(),
        AcquisitionOutcome::failed(FailureClass::Timeout, true.into()),
    );

    assert!(bool::from(status.outcome.retryable()));
    assert!(matches!(
        status.outcome,
        AcquisitionOutcome::Failed {
            class: FailureClass::Timeout,
            retryable: Retryable::Yes
        }
    ));
}

#[test]
fn timestamps_and_durations_order_by_the_instant_they_spell() {
    let before = Timestamp::new(-1, 999_999_999).unwrap();
    let epoch = Timestamp::new(0, 0).unwrap();
    let after = Timestamp::new(0, 1).unwrap();
    assert!(before < epoch && epoch < after);
    assert!(Timestamp::new(-2, 500).unwrap() < before);
    assert_eq!(epoch.partial_cmp(&Timestamp::new(0, 0).unwrap()), Some(std::cmp::Ordering::Equal));

    let short = DurationValue::new(-1, 999_999_999).unwrap();
    let long = DurationValue::new(1, 0).unwrap();
    assert!(short < long);
    assert!(long > DurationValue::new(0, 999_999_999).unwrap());
}
