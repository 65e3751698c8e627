//! Timestamps and durations order chronologically: `<` on them compares the
//! signed nanoseconds they stand for, which is also the order of their
//! seconds and then their nanoseconds.

use std::cmp::Ordering;

use vstd::prelude::*;
use vstd::std_specs::cmp::PartialOrdSpecImpl;

use crate::telemetry::time::{DurationValue, Timestamp, lemma_fields_order};

verus! {

/// Compares two seconds/nanoseconds pairs field by field.
fn order_fields(s1: i64, n1: u32, s2: i64, n2: u32) -> (order: Ordering)
    ensures
        order == Ordering::Less <==> (s1 < s2 || (s1 == s2 && n1 < n2)),
        order == Ordering::Equal <==> (s1 == s2 && n1 == n2),
        order == Ordering::Greater <==> (s1 > s2 || (s1 == s2 && n1 > n2)),
{
    if s1 < s2 {
        Ordering::Less
    } else if s1 > s2 {
        Ordering::Greater
    } else if n1 < n2 {
        Ordering::Less
    } else if n1 > n2 {
        Ordering::Greater
    } else {
        Ordering::Equal
    }
}

impl PartialOrd for Timestamp {
    fn partial_cmp(&self, other: &Timestamp) -> (order: Option<Ordering>) {
        let (s1, n1) = (self.seconds(), self.nanoseconds());
        let (s2, n2) = (other.seconds(), other.nanoseconds());
        proof {
            lemma_fields_order(s1, n1, s2, n2);
        }
        Some(order_fields(s1, n1, s2, n2))
    }
}

impl PartialOrdSpecImpl for Timestamp {
    open spec fn obeys_partial_cmp_spec() -> bool {
        true
    }

    open spec fn partial_cmp_spec(&self, other: &Timestamp) -> Option<Ordering> {
        if self.total_nanos() < other.total_nanos() {
            Some(Ordering::Less)
        } else if self.total_nanos() > other.total_nanos() {
            Some(Ordering::Greater)
        } else {
            Some(Ordering::Equal)
        }
    }
}

impl PartialOrd for DurationValue {
    fn partial_cmp(&self, other: &DurationValue) -> (order: Option<Ordering>) {
        let (s1, n1) = (self.seconds(), self.nanoseconds());
        let (s2, n2) = (other.seconds(), other.nanoseconds());
        proof {
            lemma_fields_order(s1, n1, s2, n2);
        }
        Some(order_fields(s1, n1, s2, n2))
    }
}

impl PartialOrdSpecImpl for DurationValue {
    open spec fn obeys_partial_cmp_spec() -> bool {
        true
    }

    open spec fn partial_cmp_spec(&self, other: &DurationValue) -> Option<Ordering> {
        if self.total_nanos() < other.total_nanos() {
            Some(Ordering::Less)
        } else if self.total_nanos() > other.total_nanos() {
            Some(Ordering::Greater)
        } else {
            Some(Ordering::Equal)
        }
    }
}

} // verus!
