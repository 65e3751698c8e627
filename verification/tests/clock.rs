//! The bridge from the host clock to the contract's timestamps.

use std::time::Duration;
use std::time::UNIX_EPOCH;

use nv_telemetry::orchestration::clock::{timestamp_from, timestamp_from_offset, Clock, SystemClock};

#[test]
fn the_bridge_represents_both_sides_of_the_epoch() {
    let after = timestamp_from(UNIX_EPOCH + Duration::new(7, 500)).expect("within the era");
    assert_eq!((after.seconds(), after.nanos()), (7, 500));

    let epoch = timestamp_from(UNIX_EPOCH).expect("within the era");
    assert_eq!((epoch.seconds(), epoch.nanos()), (0, 0));

    // Half a second before the epoch: second -1, plus half a second of
    // nanos: one representation per instant, nanos always in-bound.
    let before = timestamp_from(UNIX_EPOCH - Duration::new(0, 500_000_000)).expect("within the era");
    assert_eq!((before.seconds(), before.nanos()), (-1, 500_000_000));

    let whole = timestamp_from(UNIX_EPOCH - Duration::new(3, 0)).expect("within the era");
    assert_eq!((whole.seconds(), whole.nanos()), (-3, 0));
}

#[test]
fn an_offset_beyond_the_era_has_no_timestamp() {
    assert!(timestamp_from_offset(false, u64::MAX, 0).is_none());
    let last = timestamp_from_offset(true, i64::MAX as u64, 1).expect("the earliest representable instant");
    assert_eq!((last.seconds(), last.nanos()), (i64::MIN, 999_999_999));
}

#[test]
fn the_system_clock_reads_now() {
    let clock = SystemClock::default();
    let stamp = clock.timestamp().expect("a host clock within the era");
    assert!(stamp.seconds() > 1_600_000_000);
    let first = clock.instant();
    assert!(clock.instant() >= first);
}
