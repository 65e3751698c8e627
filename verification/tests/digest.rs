//! The content-hash byte stream: arms, lengths and counts keep values that
//! differ apart.

use nv_telemetry::schema::value::{NumericValue, Timestamp};
use nv_telemetry::schema::value_tree::Value;

fn stream(value: &Value) -> Vec<u8> {
    let mut out = Vec::new();
    value.digest(&mut out);
    out
}

#[test]
fn an_integer_streams_as_its_arm_then_eight_bytes() {
    assert_eq!(stream(&Value::integer(5)), vec![3, 0, 0, 0, 5, 0, 0, 0, 0, 0, 0, 0]);
    assert_eq!(stream(&Value::integer(-1)), vec![3, 0, 0, 0, 255, 255, 255, 255, 255, 255, 255, 255]);
    assert_eq!(stream(&Value::null()), vec![1, 0, 0, 0]);
    assert_eq!(stream(&Value::bool(true)), vec![2, 0, 0, 0, 1]);
}

#[test]
fn the_same_number_in_another_arm_is_other_content() {
    let five = stream(&Value::integer(5));
    assert_ne!(five, stream(&Value::uint(5)));
    assert_ne!(five, stream(&Value::double(5.0f64.to_bits()).unwrap()));
}

#[test]
fn lengths_keep_split_strings_apart() {
    let text = |s: &str| Value::string(s.to_string()).unwrap();
    let joined = Value::list(vec![text("ab"), text("c")]).unwrap();
    let split = Value::list(vec![text("a"), text("bc")]).unwrap();
    assert_ne!(stream(&joined), stream(&split));

    let single = stream(&text("ab"));
    assert_eq!(single, vec![6, 0, 0, 0, 2, 0, 0, 0, 0, 0, 0, 0, b'a', b'b']);
}

#[test]
fn a_map_streams_in_key_order_whatever_the_input_order() {
    let forward = Value::map(vec![("a".to_string(), Value::uint(1)), ("b".to_string(), Value::uint(2))]).unwrap();
    let backward = Value::map(vec![("b".to_string(), Value::uint(2)), ("a".to_string(), Value::uint(1))]).unwrap();
    assert_eq!(stream(&forward), stream(&backward));
    let mut expected = vec![10, 0, 0, 0, 2, 0, 0, 0, 0, 0, 0, 0];
    expected.extend_from_slice(&[1, 0, 0, 0, 0, 0, 0, 0, b'a', 4, 0, 0, 0, 1, 0, 0, 0, 0, 0, 0, 0]);
    expected.extend_from_slice(&[1, 0, 0, 0, 0, 0, 0, 0, b'b', 4, 0, 0, 0, 2, 0, 0, 0, 0, 0, 0, 0]);
    assert_eq!(stream(&forward), expected);
}

#[test]
fn an_instant_labels_its_fields_and_closes_with_zero() {
    let instant = Timestamp::new(2, 7).unwrap();
    let mut out = Vec::new();
    instant.digest(&mut out);
    assert_eq!(
        out,
        vec![1, 0, 0, 0, 2, 0, 0, 0, 0, 0, 0, 0, 2, 0, 0, 0, 7, 0, 0, 0, 0, 0, 0, 0]
    );
    let wrapped = stream(&Value::timestamp(instant));
    assert_eq!(wrapped[..4], [8, 0, 0, 0]);
    assert_eq!(wrapped[4..], out[..]);
}

#[test]
fn numeric_arms_differ_in_the_stream() {
    let digest = |n: NumericValue| {
        let mut out = Vec::new();
        n.digest(&mut out);
        out
    };
    assert_eq!(digest(NumericValue::Int(5)), vec![2, 0, 0, 0, 5, 0, 0, 0, 0, 0, 0, 0]);
    assert_eq!(digest(NumericValue::Uint(5)), vec![3, 0, 0, 0, 5, 0, 0, 0, 0, 0, 0, 0]);
    let double = NumericValue::double(1.0f64.to_bits()).unwrap();
    let mut expected = vec![1, 0, 0, 0];
    expected.extend_from_slice(&1.0f64.to_bits().to_le_bytes());
    assert_eq!(digest(double), expected);
}
