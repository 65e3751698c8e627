//! The canonical order of values: arms first, then payloads, containers
//! element by element.

use nv_telemetry::order::Order;
use nv_telemetry::schema::value::Timestamp;
use nv_telemetry::schema::value_tree::Value;

fn text(s: &str) -> Value {
    Value::string(s.to_string()).unwrap()
}

fn double(x: f64) -> Value {
    Value::double(x.to_bits()).unwrap()
}

fn samples() -> Vec<Value> {
    vec![
        Value::null(),
        Value::bool(false),
        Value::bool(true),
        Value::integer(-3),
        Value::integer(5),
        Value::uint(5),
        double(-1.5),
        double(0.0),
        double(2.0),
        text(""),
        text("a"),
        text("ab"),
        Value::bytes(vec![1, 2]).unwrap(),
        Value::timestamp(Timestamp::new(1, 5).unwrap()),
        Value::timestamp(Timestamp::new(2, 0).unwrap()),
        Value::list(vec![]).unwrap(),
        Value::list(vec![Value::uint(1)]).unwrap(),
        Value::list(vec![Value::uint(1), Value::null()]).unwrap(),
        Value::map(vec![("a".to_string(), Value::uint(1))]).unwrap(),
        Value::map(vec![("b".to_string(), Value::uint(0))]).unwrap(),
    ]
}

#[test]
fn the_samples_are_listed_in_canonical_order() {
    let values = samples();
    for (i, left) in values.iter().enumerate() {
        for (j, right) in values.iter().enumerate() {
            let expected = if i < j {
                Order::Less
            } else if i > j {
                Order::Greater
            } else {
                Order::Equal
            };
            assert_eq!(left.canonical_order(right), expected, "{i} against {j}");
        }
    }
}

#[test]
fn an_integer_and_an_unsigned_of_one_number_do_not_tie() {
    assert_eq!(Value::integer(5).canonical_order(&Value::uint(5)), Order::Less);
    assert_eq!(Value::uint(5).canonical_order(&Value::integer(5)), Order::Greater);
}

#[test]
fn a_shorter_list_prefix_comes_first() {
    let short = Value::list(vec![text("x")]).unwrap();
    let long = Value::list(vec![text("x"), text("y")]).unwrap();
    assert_eq!(short.canonical_order(&long), Order::Less);
    assert_eq!(long.canonical_order(&short), Order::Greater);
}

#[test]
fn maps_built_in_any_order_tie() {
    let forward = Value::map(vec![("a".to_string(), Value::uint(1)), ("b".to_string(), Value::uint(2))]).unwrap();
    let backward = Value::map(vec![("b".to_string(), Value::uint(2)), ("a".to_string(), Value::uint(1))]).unwrap();
    assert_eq!(forward.canonical_order(&backward), Order::Equal);
    let other = Value::map(vec![("a".to_string(), Value::uint(1)), ("b".to_string(), Value::uint(3))]).unwrap();
    assert_eq!(forward.canonical_order(&other), Order::Less);
}

#[test]
fn negative_zero_ties_with_zero() {
    assert_eq!(double(-0.0).canonical_order(&double(0.0)), Order::Equal);
}
