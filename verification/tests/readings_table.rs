//! The table form of a readings payload: descriptors written once, rows
//! pointing into them, and a dangling row refused.

use std::sync::Arc;

use nv_telemetry::telemetry::context::Subject;
use nv_telemetry::telemetry::number::Finite;
use nv_telemetry::telemetry::reading::{Reading, ReadingKind, SignalDescriptor};
use nv_telemetry::telemetry::readings_table::{descriptor_table, descriptors_from_table, MissingSignal};
use nv_telemetry::telemetry::time::Timestamp;
use nv_telemetry::telemetry::vocabulary::Unit;

fn descriptor(instance: &str) -> SignalDescriptor {
    SignalDescriptor::new(
        Subject::new("sensor".into(), "/redfish/v1/Chassis/1/Sensors/CPU0Temp".into()),
        "temperature".into(),
        instance.into(),
        ReadingKind::Gauge,
        Unit::from_static("celsius"),
        Timestamp::new(99, 0).expect("valid timestamp"),
    )
}

fn reading(index: usize, signal: Arc<SignalDescriptor>) -> Reading {
    let value = Finite::from_bits(42.5f64.to_bits()).expect("finite");
    Reading::new(format!("sample-{index}").as_str().into(), signal, value.into())
}

#[test]
fn readings_share_one_descriptor_in_the_table() {
    let shared = Arc::new(descriptor("CPU0Temp"));
    let rows: Vec<Reading> = (0..3).map(|index| reading(index, Arc::clone(&shared))).collect();

    // The descriptor is held once, not once per row.
    let (signals, positions) = descriptor_table(&rows);
    assert_eq!(signals.len(), 1);
    assert_eq!(positions, vec![0, 0, 0]);

    let table: Vec<Arc<SignalDescriptor>> = signals.iter().map(|signal| Arc::new((*signal).clone())).collect();
    let joined = descriptors_from_table(&table, &positions).expect("every row resolves");
    assert!(Arc::ptr_eq(&joined[0], &joined[2]));
    assert_eq!(*joined[1], *shared);
}

#[test]
fn sharing_is_a_memory_detail_the_table_does_not_expose() {
    // Equal payloads, one sharing a descriptor and one holding three copies.
    let shared = Arc::new(descriptor("CPU0Temp"));
    let with_sharing: Vec<Reading> = (0..3).map(|index| reading(index, Arc::clone(&shared))).collect();
    let without_sharing: Vec<Reading> = (0..3).map(|index| reading(index, Arc::new(descriptor("CPU0Temp")))).collect();
    assert_eq!(with_sharing, without_sharing);

    let (left, left_rows) = descriptor_table(&with_sharing);
    let (right, right_rows) = descriptor_table(&without_sharing);
    assert_eq!(left, right);
    assert_eq!(left_rows, right_rows);
}

#[test]
fn distinct_descriptors_are_numbered_in_order_of_first_use() {
    let a = Arc::new(descriptor("A"));
    let b = Arc::new(descriptor("B"));
    let rows = vec![reading(0, Arc::clone(&b)), reading(1, Arc::clone(&a)), reading(2, Arc::clone(&b)), reading(3, Arc::clone(&a))];
    let (signals, positions) = descriptor_table(&rows);
    assert_eq!(signals, vec![&*b, &*a]);
    assert_eq!(positions, vec![0, 1, 0, 1]);

    // A revision makes a different descriptor even with the same definition.
    let revised = Arc::new(descriptor("A").with_revision(1));
    let rows = vec![reading(0, Arc::clone(&a)), reading(1, revised)];
    let (signals, positions) = descriptor_table(&rows);
    assert_eq!(signals.len(), 2);
    assert_eq!(positions, vec![0, 1]);
}

#[test]
fn a_row_naming_a_signal_the_table_does_not_hold_is_refused() {
    let table = vec![Arc::new(descriptor("A"))];
    let error = descriptors_from_table(&table, &[0, 7, 9]).unwrap_err();
    assert_eq!(error, MissingSignal { signal: 7, held: 1 });
    assert_eq!(error.message(), "reading names signal 7 but the table holds 1");
}
