//! What each rejection says of itself.

use nv_telemetry::schema::identity::Subject as SchemaSubject;
use nv_telemetry::schema::invalid::Violation;
use nv_telemetry::telemetry::attributes::{Attribute, Attributes, AttributesError};
use nv_telemetry::telemetry::batch::BatchError;
use nv_telemetry::telemetry::context::Subject;
use nv_telemetry::telemetry::number::{Finite, NonFiniteError};
use nv_telemetry::telemetry::property::{PropertyArrayError, PropertyMapError};
use nv_telemetry::telemetry::resource::ResourceGraphError;
use nv_telemetry::telemetry::time::{TimeError, Timestamp};

fn subject(kind: &str, id: &str) -> Subject {
    Subject::new(kind.into(), id.into())
}

#[test]
fn graph_rejections_quote_their_subjects() {
    let error = ResourceGraphError::DuplicateResource(subject("chassis", "1U"));
    assert_eq!(error.message(), "duplicate resource 'chassis:1U'");

    let error = ResourceGraphError::DuplicateSourceKey("/redfish/v1/Chassis/1U".into());
    assert_eq!(error.message(), "source '/redfish/v1/Chassis/1U' is observed by more than one resource");

    let error = ResourceGraphError::DuplicateRelation {
        source: subject("chassis", "1U"),
        kind: "contains".into(),
        target: subject("sensor", "Inlet"),
    };
    assert_eq!(error.message(), "duplicate relation 'chassis:1U' -[contains]-> 'sensor:Inlet'");

    let error = ResourceGraphError::UnknownRelationSource(subject("board", "B1"));
    assert_eq!(error.message(), "relation source 'board:B1' is not present in the resource graph");

    let error = ResourceGraphError::TooManyResources { count: 12, limit: 10 };
    assert_eq!(error.message(), "graph has 12 resources, exceeding the limit of 10");

    let error = ResourceGraphError::TooManyRelations { count: 100_001, limit: 100_000 };
    assert_eq!(error.message(), "graph has 100001 relations, exceeding the limit of 100000");
}

#[test]
fn batch_rejections_name_the_scope() {
    let error = BatchError::SubjectOutsideScope { expected: subject("chassis", "1U"), actual: subject("chassis", "2U") };
    assert_eq!(error.message(), "subject 'chassis:2U' is outside declared scope 'chassis:1U'");

    let error = BatchError::MissingScopeRoot(subject("chassis", "1U"));
    assert_eq!(error.message(), "scope root 'chassis:1U' is not present in the resource graph");

    let error = BatchError::UnreachableFromScopeRoot { root: subject("chassis", "1U"), subject: subject("sensor", "Fan") };
    assert_eq!(error.message(), "resource 'sensor:Fan' is not reachable from scope root 'chassis:1U'");
}

#[test]
fn time_rejections_describe_themselves() {
    let error = Timestamp::new(0, 1_000_000_000).unwrap_err();
    assert_eq!(error, TimeError::InvalidNanoseconds(1_000_000_000));
    assert_eq!(error.message(), "nanoseconds must be below 1,000,000,000, got 1000000000");
    assert_eq!(TimeError::WindowEndsBeforeStart.message(), "observation window ends before it starts");
    assert_eq!(TimeError::OutOfRange.message(), "timestamp is outside the supported range");
}

#[test]
fn non_finite_rejections_classify_the_value() {
    let error = Finite::from_bits(f64::NAN.to_bits()).unwrap_err();
    assert_eq!(error.message(), "observation values must be finite, got NaN");
    let error = Finite::from_bits(f64::INFINITY.to_bits()).unwrap_err();
    assert_eq!(error, NonFiniteError::PositiveInfinity);
    assert_eq!(error.message(), "observation values must be finite, got positive infinity");
    assert_eq!(NonFiniteError::NegativeInfinity.message(), "observation values must be finite, got negative infinity");
}

#[test]
fn property_rejections_name_the_property_and_the_limit() {
    assert_eq!(
        PropertyArrayError::DepthExceeded { limit: 32 }.message(),
        "property array nests deeper than the limit of 32 levels"
    );
    assert_eq!(PropertyMapError::DuplicateName("Status".into()).message(), "duplicate property name 'Status'");
    assert_eq!(
        PropertyMapError::DepthExceeded { name: "Oem".into(), limit: 32 }.message(),
        "property 'Oem' nests deeper than the limit of 32 levels"
    );
}

#[test]
fn attribute_rejections_name_the_key() {
    let error = Attributes::new(vec![
        Attribute::new("rack".into(), "rack-1".into()),
        Attribute::new("rack".into(), "rack-2".into()),
    ])
    .unwrap_err();
    assert_eq!(error.message(), "duplicate attribute key 'rack'");
    assert!(matches!(error, AttributesError::DuplicateKey(_)));
}

#[test]
fn an_invalid_message_names_its_path_and_violation() {
    let error = SchemaSubject::builder().kind("sensor").id("").build().unwrap_err();
    assert_eq!(error.message(), "`id`: present but empty");

    assert_eq!(Violation::Absent.message(), "required but absent");
    assert_eq!(Violation::TooLong { limit: 128, actual: 129 }.message(), "129 bytes long, over the schema's bound of 128");
    assert_eq!(Violation::TooMany { limit: 16, actual: 17 }.message(), "17 elements, over the schema's bound of 16");
    assert_eq!(Violation::NotFinite.message(), "not a finite number");
    assert_eq!(Violation::Unspecified.message(), "carries the unspecified value");
    assert_eq!(Violation::Duplicate.message(), "duplicates another element's identity");
    assert_eq!(Violation::TooDeep { limit: 16 }.message(), "nested beyond the schema's bound of 16 levels");
    assert_eq!(Violation::Rule("a rule").message(), "a rule");
}
