//! The hand-written value vocabulary: bounds, one-representation rules, and
//! the sorted, duplicate-free map.

use nv_telemetry::schema::invalid::Violation;
use nv_telemetry::schema::limits;
use nv_telemetry::schema::value::NumericValue;
use nv_telemetry::schema::value_tree::{Value, ValueKind};
use nv_telemetry::schema::wire;
use nv_telemetry::telemetry::number::Finite;

fn finite_refuses() {
    assert!(Finite::from_bits(f64::NAN.to_bits()).is_err());
    assert!(Finite::from_bits(f64::INFINITY.to_bits()).is_err());
    assert!(Finite::from_bits(f64::NEG_INFINITY.to_bits()).is_err());

    // The two zeros collapse to one representation, so equal values cannot
    // hash unequal.
    let positive = Finite::from_bits(0.0f64.to_bits()).unwrap();
    let negative = Finite::from_bits((-0.0f64).to_bits()).unwrap();
    assert_eq!(positive, negative);
    assert_eq!(positive.to_bits(), negative.to_bits());
}

#[test]
fn tests_finite_refuses_what_would_break_total_equality() {
    finite_refuses();
}

#[test]
fn values_finite_refuses_what_would_break_total_equality() {
    finite_refuses();
}

fn numeric_refuses() {
    let error = NumericValue::double(f64::NAN.to_bits()).unwrap_err();
    assert_eq!(error.violation(), &Violation::NotFinite);

    let absent = wire::NumericValue { kind: None };
    let error = NumericValue::try_from(absent).unwrap_err();
    assert_eq!(error.path(), "kind");
    assert_eq!(error.violation(), &Violation::Absent);
}

#[test]
fn tests_a_numeric_value_refuses_a_fabricated_reading() {
    numeric_refuses();
}

#[test]
fn values_a_numeric_value_refuses_a_fabricated_reading() {
    numeric_refuses();
}

fn value_bounds() {
    let oversize = "x".repeat(limits::VALUE_STRING_VALUE_MAX_LEN as usize + 1);
    let error = Value::string(oversize).unwrap_err();
    assert_eq!(
        error.violation(),
        &Violation::TooLong {
            limit: limits::VALUE_STRING_VALUE_MAX_LEN,
            actual: limits::VALUE_STRING_VALUE_MAX_LEN as usize + 1,
        }
    );

    let at_bound = "x".repeat(limits::VALUE_STRING_VALUE_MAX_LEN as usize);
    assert!(Value::string(at_bound).is_ok());
}

#[test]
fn tests_value_bounds_are_the_schemas_bounds() {
    value_bounds();
}

#[test]
fn values_value_bounds_are_the_schemas_bounds() {
    value_bounds();
}

fn duplicate_key() {
    let entries = vec![("fan".to_owned(), Value::integer(1)), ("fan".to_owned(), Value::integer(2))];
    let error = Value::map(entries).unwrap_err();
    assert_eq!(error.path(), "entries[1].key");
    assert_eq!(error.violation(), &Violation::Duplicate);

    let empty_key = vec![(String::new(), Value::integer(1))];
    let error = Value::map(empty_key).unwrap_err();
    assert_eq!(error.violation(), &Violation::Empty);
}

#[test]
fn tests_a_map_rejects_a_duplicate_key_instead_of_choosing() {
    duplicate_key();
}

#[test]
fn values_a_map_rejects_a_duplicate_key_instead_of_choosing() {
    duplicate_key();
}

fn bounded_depth() {
    // A chain of nested lists: depth 16 is the schema's bound, inclusive.
    let mut value = Value::integer(0);
    for _ in 0..(limits::VALUE_MAX_DEPTH - 1) {
        value = Value::list(vec![value]).unwrap();
    }
    assert_eq!(value.depth(), limits::VALUE_MAX_DEPTH);

    let error = Value::list(vec![value]).unwrap_err();
    assert_eq!(error.violation(), &Violation::TooDeep { limit: limits::VALUE_MAX_DEPTH });
}

#[test]
fn tests_depth_is_logical_and_bounded_where_the_schema_says() {
    bounded_depth();
}

#[test]
fn values_depth_is_logical_and_bounded_where_the_schema_says() {
    bounded_depth();
}

fn unsorted() -> wire::Value {
    wire::Value {
        kind: Some(wire::ValueArm::MapValue(wire::ValueMap {
            entries: vec![
                wire::MapEntry {
                    key: Some("outer".to_owned()),
                    value: Some(wire::Value {
                        kind: Some(wire::ValueArm::ListValue(wire::ValueList {
                            values: vec![wire::Value { kind: Some(wire::ValueArm::StringValue("deep".to_owned())) }],
                        })),
                    }),
                },
                wire::MapEntry {
                    key: Some("alpha".to_owned()),
                    value: Some(wire::Value { kind: Some(wire::ValueArm::DoubleValue((-0.0f64).to_bits())) }),
                },
            ],
        })),
    }
}

fn canonicalized_round_trip() {
    // Wire entries arrive unsorted; the validated form sorts them, so the
    // rebuilt wire message is the canonical representation of the same value.
    let validated = Value::try_from(unsorted()).unwrap();
    assert_eq!(validated.depth(), 3);

    let ValueKind::Entries(entries) = validated.kind() else {
        panic!("a map decoded as something else");
    };
    let keys: Vec<&str> = entries.iter().map(|(key, _)| key.as_str()).collect();
    assert_eq!(keys, ["alpha", "outer"], "entries did not sort");

    let rebuilt = wire::Value::from(validated);
    let redecoded = Value::try_from(rebuilt).unwrap();
    assert_eq!(redecoded, Value::try_from(unsorted()).unwrap(), "round trip changed the value");
}

#[test]
fn tests_a_decoded_value_is_canonicalized_and_round_trips() {
    canonicalized_round_trip();
}

#[test]
fn values_a_decoded_value_is_canonicalized_and_round_trips() {
    canonicalized_round_trip();
}

fn deep_path() {
    let wire = wire::Value {
        kind: Some(wire::ValueArm::ListValue(wire::ValueList {
            values: vec![wire::Value {
                kind: Some(wire::ValueArm::MapValue(wire::ValueMap {
                    entries: vec![wire::MapEntry {
                        key: Some("reading".to_owned()),
                        value: Some(wire::Value { kind: Some(wire::ValueArm::DoubleValue(f64::NAN.to_bits())) }),
                    }],
                })),
            }],
        })),
    };

    let error = Value::try_from(wire).unwrap_err();
    assert_eq!(error.path(), "values[0].map_value.entries[0].value.double_value");
    assert_eq!(error.violation(), &Violation::NotFinite);
}

#[test]
fn tests_an_invalid_deep_in_a_tree_names_its_path() {
    deep_path();
}

#[test]
fn values_an_invalid_deep_in_a_tree_names_its_path() {
    deep_path();
}

#[test]
fn a_list_of_scalars_is_one_level_deeper_than_its_elements() {
    let list = Value::list(vec![Value::null(), Value::bool(true), Value::uint(7)]).unwrap();
    assert_eq!(list.depth(), 2);
    match list.kind() {
        ValueKind::List(values) => assert_eq!(values.len(), 3),
        _ => panic!("a list built as something else"),
    }
}
