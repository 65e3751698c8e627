//! The validated contract types: bounds, one-representation rules, and the
//! refusals builders and decoders share.

use nv_telemetry::schema::enums::{Completeness, FailureClass, Outcome};
use nv_telemetry::schema::identity::{SignalKey, Subject};
use nv_telemetry::schema::invalid::{Invalid, Violation};
use nv_telemetry::schema::limits;
use nv_telemetry::schema::messages::{Coverage, ObservationWindow, Origin, ResourceRelation, UnresolvedReference};
use nv_telemetry::schema::status::AcquisitionStatus;
use nv_telemetry::schema::value::Timestamp;
use nv_telemetry::schema::wire;

fn built_subject(kind: &str, id: &str) -> Subject {
    Subject::builder().kind(kind).id(id).build().expect("a valid subject")
}

#[test]
fn tests_a_timestamp_carries_its_second_in_one_representation() {
    assert!(Timestamp::new(1_722_000_000, 999_999_999).is_ok());

    let overflow = Timestamp::new(1_722_000_000, 1_000_000_000).unwrap_err();
    assert_eq!(overflow.path(), "nanos");

    // The wire form round-trips through the same constructor, so a decoded
    // timestamp passes exactly what a built one does.
    let wire = wire::Timestamp { seconds: Some(5), nanos: None };
    let error = Timestamp::try_from(wire).unwrap_err();
    assert_eq!(error.violation(), &Violation::Absent);
}

#[test]
fn values_a_timestamp_carries_its_second_in_one_representation() {
    assert!(Timestamp::new(1_722_000_000, 999_999_999).is_ok());

    let overflow = Timestamp::new(1_722_000_000, 1_000_000_000).unwrap_err();
    assert_eq!(overflow.path(), "nanos");

    let wire = wire::Timestamp { seconds: Some(5), nanos: None };
    let error = Timestamp::try_from(wire).unwrap_err();
    assert_eq!(error.violation(), &Violation::Absent);
}

#[test]
fn an_empty_identity_is_unrepresentable() {
    let error = Subject::builder().kind("sensor").id("").build().unwrap_err();
    assert_eq!(error.path(), "id");
    assert_eq!(error.violation(), &Violation::Empty);

    let error = Subject::builder().id("x").build().unwrap_err();
    assert_eq!(error.path(), "kind");
    assert_eq!(error.violation(), &Violation::Absent);
}

#[test]
fn a_window_end_must_follow_its_start() {
    let start = Timestamp::new(100, 0).expect("a valid instant");

    // Equal would be a second spelling of a point, which omitting the end
    // already spells.
    let error = ObservationWindow::builder().start(start).end(start).build().unwrap_err();
    assert_eq!(error.path(), "end");

    assert!(ObservationWindow::builder()
        .start(start)
        .end(Timestamp::new(100, 1).expect("a valid instant"))
        .build()
        .is_ok());
}

#[test]
fn an_unrecognized_enum_value_survives_and_unspecified_does_not() {
    let ahead = wire::Coverage { completeness: Some(99), scope: None };
    let coverage = Coverage::try_from(ahead).expect("a newer producer's value decodes");
    assert_eq!(coverage.completeness(), Completeness::Unrecognized(99));

    let rebuilt = wire::Coverage::from(coverage);
    assert_eq!(rebuilt.completeness, Some(99), "re-encoding lost the value");

    let unspecified = wire::Coverage { completeness: Some(0), scope: None };
    let error = Coverage::try_from(unspecified).unwrap_err();
    assert_eq!(error.violation(), &Violation::Unspecified);
}

#[test]
fn a_failure_carries_its_class_and_a_success_does_not() {
    let base = || {
        AcquisitionStatus::builder()
            .endpoint_id("bmc-lab-07")
            .provider("redfish.sensor.odata")
            .request_class("sensor-read")
            .started_at(Timestamp::new(1_785_621_243, 0).expect("a valid instant"))
    };

    let error = base().outcome(Outcome::Failed).build().unwrap_err();
    assert_eq!(error.path(), "failure_class");

    let error = base().outcome(Outcome::Succeeded).failure_class(FailureClass::Timeout).build().unwrap_err();
    assert_eq!(error.path(), "failure_class");

    assert!(base().outcome(Outcome::Failed).failure_class(FailureClass::Timeout).build().is_ok());
}

#[test]
fn an_unknown_enum_value_survives_rather_than_collapsing() {
    assert_eq!(Outcome::try_from(7), Ok(Outcome::Unrecognized(7)));
    assert_eq!(i32::from(Outcome::Unrecognized(7)), 7);
    assert_eq!(FailureClass::try_from(0), Err(Violation::Unspecified));
    assert_eq!(FailureClass::try_from(3), Ok(FailureClass::Timeout));
    assert_eq!(i32::from(FailureClass::Internal), 7);
}

#[test]
fn a_status_decodes_from_the_wire_and_back() {
    let wire = wire::AcquisitionStatus {
        endpoint_id: Some("bmc-lab-07".to_string()),
        provider: Some("redfish.sensor.odata".to_string()),
        request_class: Some("sensor-read".to_string()),
        outcome: Some(2),
        failure_class: Some(3),
        retryable: Some(true),
        started_at: Some(wire::Timestamp { seconds: Some(10), nanos: Some(5) }),
        duration_nanos: Some(42),
        detail: Some("timed out".to_string()),
    };
    let status = AcquisitionStatus::try_from(wire.clone()).expect("a valid status");
    assert_eq!(status.outcome(), Outcome::Failed);
    assert_eq!(status.failure_class(), Some(FailureClass::Timeout));
    assert_eq!(status.detail(), Some("timed out"));
    assert_eq!(wire::AcquisitionStatus::from(status), wire);

    let missing = wire::AcquisitionStatus { started_at: None, ..wire.clone() };
    let error = AcquisitionStatus::try_from(missing).unwrap_err();
    assert_eq!(error.path(), "started_at");
    assert_eq!(error.violation(), &Violation::Absent);

    let bad_nanos = wire::AcquisitionStatus {
        started_at: Some(wire::Timestamp { seconds: Some(1), nanos: Some(2_000_000_000) }),
        ..wire.clone()
    };
    let error = AcquisitionStatus::try_from(bad_nanos).unwrap_err();
    assert_eq!(error.path(), "started_at.nanos");

    let empty_detail = wire::AcquisitionStatus { detail: Some(String::new()), ..wire };
    let error = AcquisitionStatus::try_from(empty_detail).unwrap_err();
    assert_eq!(error.path(), "detail");
    assert_eq!(error.violation(), &Violation::Empty);
}

#[test]
fn a_subject_scope_is_bounded_and_its_elements_named() {
    let error = Subject::builder()
        .kind("sensor")
        .scope(vec!["chassis".to_string(), String::new()])
        .id("CPU0")
        .build()
        .unwrap_err();
    assert_eq!(error.path(), "scope[1]");
    assert_eq!(error.violation(), &Violation::Empty);

    let crowded = vec!["x".to_string(); limits::SUBJECT_SCOPE_MAX_ITEMS as usize + 1];
    let error = Subject::builder().kind("sensor").scope(crowded).id("CPU0").build().unwrap_err();
    assert_eq!(error.path(), "scope");
    assert_eq!(
        error.violation(),
        &Violation::TooMany { limit: limits::SUBJECT_SCOPE_MAX_ITEMS, actual: limits::SUBJECT_SCOPE_MAX_ITEMS as usize + 1 }
    );

    let long = "k".repeat(limits::SUBJECT_KIND_MAX_LEN as usize + 1);
    let error = Subject::builder().kind(&long).id("CPU0").build().unwrap_err();
    assert_eq!(error.path(), "kind");
    assert_eq!(
        error.violation(),
        &Violation::TooLong { limit: limits::SUBJECT_KIND_MAX_LEN, actual: limits::SUBJECT_KIND_MAX_LEN as usize + 1 }
    );

    let subject = Subject::builder().kind("sensor").scope(vec!["chassis".to_string()]).id("CPU0").build().unwrap();
    assert_eq!(subject.kind(), "sensor");
    assert_eq!(subject.scope(), &["chassis".to_string()]);
    assert_eq!(subject.id(), "CPU0");
    assert!(subject.same(&subject.clone()));
}

#[test]
fn a_nested_refusal_names_its_whole_path() {
    let wire = wire::SignalKey {
        subject: Some(wire::Subject { kind: Some("sensor".to_string()), scope: vec![], id: None }),
        facet: None,
    };
    let error = SignalKey::try_from(wire).unwrap_err();
    assert_eq!(error.path(), "subject.id");
    assert_eq!(error.violation(), &Violation::Absent);

    let relation = wire::ResourceRelation {
        source: Some(wire::Subject { kind: Some("chassis".to_string()), scope: vec![], id: Some("1U".to_string()) }),
        target: Some(wire::Subject { kind: Some("sensor".to_string()), scope: vec!["a".to_string(), String::new()], id: Some("x".to_string()) }),
        kind: Some("contains".to_string()),
    };
    let error = ResourceRelation::try_from(relation).unwrap_err();
    assert_eq!(error.path(), "target.scope[1]");

    let error = Invalid::field("id", Violation::Empty).at_index("resources", 41).at("payload");
    assert_eq!(error.path(), "payload.resources[41].id");
}

#[test]
fn builders_and_decoders_agree() {
    let key = SignalKey::builder().subject(built_subject("sensor", "CPU0")).facet("reading").build().unwrap();
    assert_eq!(key.facet(), Some("reading"));
    let wire_key = wire::SignalKey::from(key.clone());
    let decoded = SignalKey::try_from(wire_key).unwrap();
    assert_eq!(decoded, key);

    let origin = Origin::builder().provider("redfish.sensor.odata").request_class("sensor-read").build().unwrap();
    assert_eq!(origin.provider(), "redfish.sensor.odata");
    assert_eq!(Origin::try_from(wire::Origin::from(origin.clone())).unwrap(), origin);
    let error = Origin::builder().provider("p").build().unwrap_err();
    assert_eq!(error.path(), "request_class");

    let relation = ResourceRelation::builder()
        .source(built_subject("chassis", "1U"))
        .target(built_subject("sensor", "Inlet"))
        .kind("contains")
        .build()
        .unwrap();
    assert_eq!(relation.kind(), "contains");
    assert_eq!(relation.target().id(), "Inlet");
    let error = ResourceRelation::builder().source(built_subject("chassis", "1U")).kind("contains").build().unwrap_err();
    assert_eq!(error.path(), "target");

    let reference = UnresolvedReference::builder().location("/redfish/v1/Chassis/1U").property("Links").build().unwrap();
    assert_eq!(reference.location(), "/redfish/v1/Chassis/1U");
    assert_eq!(reference.property(), Some("Links"));
    let error = UnresolvedReference::builder().location("x").property("").build().unwrap_err();
    assert_eq!(error.path(), "property");

    let coverage = Coverage::builder().completeness(Completeness::Partial).scope(built_subject("chassis", "1U")).build().unwrap();
    assert_eq!(coverage.completeness(), Completeness::Partial);
    assert_eq!(coverage.scope().map(Subject::id), Some("1U"));
    let error = Coverage::builder().build().unwrap_err();
    assert_eq!(error.path(), "completeness");

    let window = ObservationWindow::builder().start(Timestamp::new(5, 0).unwrap()).build().unwrap();
    assert_eq!(window.end(), None);
    assert_eq!(window.start().seconds(), 5);
    let error = ObservationWindow::builder().build().unwrap_err();
    assert_eq!(error.path(), "start");
}

#[test]
fn setting_one_part_of_a_status_builder_changes_nothing_else() {
    let base = AcquisitionStatus::builder()
        .endpoint_id("bmc-lab-07")
        .provider("redfish.sensor.odata")
        .request_class("sensor-read")
        .outcome(Outcome::Failed)
        .failure_class(FailureClass::Timeout)
        .retryable(true)
        .duration_nanos(125_000)
        .started_at(Timestamp::new(1_785_621_243, 0).expect("a valid instant"));
    let first = base.clone().build().expect("a valid status");
    let second = base.detail("timed out").build().expect("a valid status");
    assert_eq!(second.detail(), Some("timed out"));
    assert_eq!(first.detail(), None);
    assert_eq!(second.endpoint_id(), first.endpoint_id());
    assert_eq!(second.provider(), first.provider());
    assert_eq!(second.request_class(), first.request_class());
    assert_eq!(second.outcome(), first.outcome());
    assert_eq!(second.failure_class(), first.failure_class());
    assert_eq!(second.retryable(), first.retryable());
    assert_eq!(second.started_at(), first.started_at());
    assert_eq!(second.duration_nanos(), first.duration_nanos());
}
