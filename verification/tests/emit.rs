//! Protobuf bytes written straight from validated values.

use nv_telemetry::schema::value::{NumericValue, Timestamp};
use nv_telemetry::schema::value_tree::Value;

fn emitted(value: &Value) -> Vec<u8> {
    let mut out = Vec::new();
    value.emit(&mut out);
    out
}

#[test]
fn an_instant_writes_both_fields_as_varints() {
    let mut out = Vec::new();
    Timestamp::new(2, 7).unwrap().emit(&mut out);
    assert_eq!(out, vec![0x08, 2, 0x10, 7]);

    let mut before_epoch = Vec::new();
    Timestamp::new(-1, 0).unwrap().emit(&mut before_epoch);
    assert_eq!(
        before_epoch,
        vec![0x08, 0xff, 0xff, 0xff, 0xff, 0xff, 0xff, 0xff, 0xff, 0xff, 0x01, 0x10, 0x00]
    );
}

#[test]
fn numeric_arms_write_their_own_field() {
    let emit = |n: NumericValue| {
        let mut out = Vec::new();
        n.emit(&mut out);
        out
    };
    assert_eq!(emit(NumericValue::Int(-1)), vec![16, 1]);
    assert_eq!(emit(NumericValue::Int(1)), vec![16, 2]);
    assert_eq!(emit(NumericValue::Uint(300)), vec![24, 0xac, 0x02]);
    let mut double = vec![9];
    double.extend_from_slice(&1.0f64.to_bits().to_le_bytes());
    assert_eq!(emit(NumericValue::double(1.0f64.to_bits()).unwrap()), double);
}

#[test]
fn scalar_values_write_one_field() {
    assert_eq!(emitted(&Value::null()), vec![10, 0]);
    assert_eq!(emitted(&Value::bool(true)), vec![16, 1]);
    assert_eq!(emitted(&Value::integer(-2)), vec![24, 3]);
    assert_eq!(emitted(&Value::uint(5)), vec![32, 5]);
    assert_eq!(emitted(&Value::string("hi".to_string()).unwrap()), vec![50, 2, b'h', b'i']);
    assert_eq!(emitted(&Value::bytes(vec![1, 2]).unwrap()), vec![58, 2, 1, 2]);
    assert_eq!(
        emitted(&Value::timestamp(Timestamp::new(2, 7).unwrap())),
        vec![66, 4, 0x08, 2, 0x10, 7]
    );
}

#[test]
fn containers_nest_behind_their_lengths() {
    let list = Value::list(vec![Value::uint(1)]).unwrap();
    assert_eq!(emitted(&list), vec![74, 4, 10, 2, 32, 1]);

    let map = Value::map(vec![("a".to_string(), Value::uint(1))]).unwrap();
    assert_eq!(emitted(&map), vec![82, 9, 10, 7, 10, 1, b'a', 18, 2, 32, 1]);
}

#[test]
fn map_entries_are_written_in_key_order() {
    let forward = Value::map(vec![("a".to_string(), Value::null()), ("b".to_string(), Value::null())]).unwrap();
    let backward = Value::map(vec![("b".to_string(), Value::null()), ("a".to_string(), Value::null())]).unwrap();
    assert_eq!(emitted(&forward), emitted(&backward));
}
