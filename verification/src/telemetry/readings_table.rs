//! The table form of a readings payload: each distinct descriptor once, in
//! order of first use, and for each reading the position of its descriptor.
//!
//! A serialized payload cannot carry the sharing of descriptors between
//! readings, so rows index into the table. Entries match by value, so equal
//! payloads give equal tables, and rebuilding can only widen sharing.

use std::sync::Arc;

use vstd::prelude::*;

use crate::telemetry::attributes::same_attributes;
use crate::telemetry::reading::{Reading, SignalDescriptor, same_definition};
use crate::text::{append, append_decimal, decimal};

verus! {

/// Whether two descriptors agree in every field.
pub open spec fn same_descriptor(a: SignalDescriptor, b: SignalDescriptor) -> bool {
    &&& same_definition(a, b)
    &&& a.observed_at == b.observed_at
    &&& a.revision == b.revision
}

/// The descriptors of `readings`, one per reading.
pub open spec fn descriptors_of(readings: Seq<Reading>) -> Seq<SignalDescriptor> {
    readings.map_values(|reading: Reading| *reading.signal)
}

/// The first position, from `from` on, of a descriptor in `table` equal to
/// `descriptor`.
pub open spec fn position_from(table: Seq<SignalDescriptor>, descriptor: SignalDescriptor, from: int) -> Option<int>
    decreases table.len() - from,
{
    if from < 0 || from >= table.len() {
        None
    } else if same_descriptor(table[from], descriptor) {
        Some(from)
    } else {
        position_from(table, descriptor, from + 1)
    }
}

/// The position in `table` of a descriptor equal to `descriptor`, if any.
pub open spec fn position_in(table: Seq<SignalDescriptor>, descriptor: SignalDescriptor) -> Option<int> {
    position_from(table, descriptor, 0)
}

/// The distinct descriptors of `descriptors`, in order of first use.
pub open spec fn table_of(descriptors: Seq<SignalDescriptor>) -> Seq<SignalDescriptor>
    decreases descriptors.len(),
{
    if descriptors.len() == 0 {
        Seq::empty()
    } else {
        let prior = table_of(descriptors.drop_last());
        if position_in(prior, descriptors.last()) is Some {
            prior
        } else {
            prior.push(descriptors.last())
        }
    }
}

/// Appending to a table leaves every earlier position where it was.
proof fn lemma_position_push(table: Seq<SignalDescriptor>, added: SignalDescriptor, descriptor: SignalDescriptor, from: int)
    requires
        0 <= from,
        position_from(table, descriptor, from) is Some,
    ensures
        position_from(table.push(added), descriptor, from) == position_from(table, descriptor, from),
    decreases table.len() - from,
{
    if from < table.len() && !same_descriptor(table[from], descriptor) {
        lemma_position_push(table, added, descriptor, from + 1);
    }
}

/// A position found is where an equal descriptor sits, past `from`.
proof fn lemma_position_found(table: Seq<SignalDescriptor>, descriptor: SignalDescriptor, from: int)
    requires
        0 <= from,
    ensures
        position_from(table, descriptor, from) matches Some(j) ==> from <= j < table.len() && same_descriptor(
            table[j],
            descriptor,
        ),
        position_from(table, descriptor, from) is None ==> forall|j: int|
            from <= j < table.len() ==> !same_descriptor(#[trigger] table[j], descriptor),
    decreases table.len() - from,
{
    if 0 <= from < table.len() && !same_descriptor(table[from], descriptor) {
        lemma_position_found(table, descriptor, from + 1);
    }
}

/// A row points at its reading's own descriptor: the table entry it names
/// has the reading's subject, metric, instance, kind, unit, attributes,
/// bounds, first sighting and revision. Only descriptors equal in every
/// field share an entry, so no reading comes back with another's unit.
pub proof fn law_table_rows_name_the_readings_descriptors(readings: Seq<Reading>, i: int, p: int)
    requires
        0 <= i < readings.len(),
        position_in(table_of(descriptors_of(readings)), descriptors_of(readings)[i]) == Some(p),
    ensures
        ({
            let table = table_of(descriptors_of(readings));
            let own = *readings[i].signal;
            &&& 0 <= p < table.len()
            &&& table[p].subject@ == own.subject@
            &&& table[p].metric@ == own.metric@
            &&& table[p].instance@ == own.instance@
            &&& table[p].kind == own.kind
            &&& table[p].unit@ == own.unit@
            &&& same_attributes(table[p].attributes.entries(), own.attributes.entries())
            &&& table[p].bounds == own.bounds
            &&& table[p].observed_at == own.observed_at
            &&& table[p].revision == own.revision
        }),
{
    let table = table_of(descriptors_of(readings));
    assert(descriptors_of(readings)[i] == *readings[i].signal);
    lemma_position_found(table, descriptors_of(readings)[i], 0);
}

/// Whether two descriptors agree in every field.
fn descriptor_equals(a: &SignalDescriptor, b: &SignalDescriptor) -> (equal: bool)
    ensures
        equal == same_descriptor(*a, *b),
{
    a.matches_definition(b) && a.observed_at == b.observed_at && a.revision == b.revision
}

/// The table form of `readings`: the distinct descriptors in order of first
/// use, and for each reading the position of its descriptor in them.
pub fn descriptor_table(readings: &[Reading]) -> (table: (Vec<&SignalDescriptor>, Vec<usize>))
    ensures
        table.0@.map_values(|d: &SignalDescriptor| *d) == table_of(descriptors_of(readings@)),
        table.1@.len() == readings@.len(),
        forall|i: int|
            0 <= i < readings@.len() ==> position_in(table_of(descriptors_of(readings@)), descriptors_of(readings@)[i])
                == Some(#[trigger] table.1@[i] as int),
{
    let ghost all = descriptors_of(readings@);
    let mut signals: Vec<&SignalDescriptor> = Vec::new();
    let mut rows: Vec<usize> = Vec::new();
    let mut k: usize = 0;
    while k < readings.len()
        invariant
            0 <= k <= readings@.len(),
            all == descriptors_of(readings@),
            signals@.map_values(|d: &SignalDescriptor| *d) == table_of(all.take(k as int)),
            rows@.len() == k,
            forall|i: int| 0 <= i < k ==> position_in(table_of(all.take(k as int)), all[i]) == Some(#[trigger] rows@[i] as int),
        decreases readings@.len() - k,
    {
        let ghost table = signals@.map_values(|d: &SignalDescriptor| *d);
        let descriptor: &SignalDescriptor = &readings[k].signal;
        proof {
            assert(*descriptor == all[k as int]);
            assert(all.take(k as int + 1).drop_last() =~= all.take(k as int));
            assert(all.take(k as int + 1).last() == all[k as int]);
        }
        let mut j: usize = 0;
        let mut found = false;
        while !found && j < signals.len()
            invariant
                0 <= j <= signals@.len(),
                table == signals@.map_values(|d: &SignalDescriptor| *d),
                found ==> j < signals@.len() && position_in(table, *descriptor) == Some(j as int),
                !found ==> position_in(table, *descriptor) == position_from(table, *descriptor, j as int),
            decreases signals@.len() - j, if found {
                0nat
            } else {
                1nat
            },
        {
            if descriptor_equals(signals[j], descriptor) {
                found = true;
            } else {
                j = j + 1;
            }
        }
        proof {
            lemma_position_found(table, *descriptor, 0);
        }
        if found {
            rows.push(j);
            proof {
                assert(table_of(all.take(k as int + 1)) == table);
                assert forall|i: int| 0 <= i < k + 1 implies position_in(table_of(all.take(k as int + 1)), all[i])
                    == Some(#[trigger] rows@[i] as int) by {
                    if i == k {
                    }
                }
            }
        } else {
            let index = signals.len();
            signals.push(descriptor);
            rows.push(index);
            proof {
                assert(signals@.map_values(|d: &SignalDescriptor| *d) =~= table.push(*descriptor));
                assert(table_of(all.take(k as int + 1)) == table.push(*descriptor));
                assert forall|i: int| 0 <= i < k + 1 implies position_in(table_of(all.take(k as int + 1)), all[i])
                    == Some(#[trigger] rows@[i] as int) by {
                    if i < k {
                        assert(position_in(table, all[i]) == Some(rows@[i] as int));
                        lemma_position_push(table, *descriptor, all[i], 0);
                    } else {
                        lemma_position_found(table.push(*descriptor), *descriptor, 0);
                        assert(same_descriptor(table.push(*descriptor)[index as int], *descriptor)) by {
                            crate::telemetry::reading::lemma_matches_definition(*descriptor, *descriptor, 0, descriptor.observed_at);
                        }
                        lemma_position_tail(table, *descriptor);
                    }
                }
            }
        }
        k = k + 1;
    }
    proof {
        assert(all.take(readings@.len() as int) =~= all);
    }
    (signals, rows)
}

/// A descriptor absent from a table is found where it was appended.
proof fn lemma_position_tail(table: Seq<SignalDescriptor>, descriptor: SignalDescriptor)
    requires
        position_in(table, descriptor) is None,
        same_descriptor(descriptor, descriptor),
    ensures
        position_in(table.push(descriptor), descriptor) == Some(table.len() as int),
{
    lemma_position_found(table, descriptor, 0);
    lemma_position_none_push(table, descriptor, 0);
}

proof fn lemma_position_none_push(table: Seq<SignalDescriptor>, descriptor: SignalDescriptor, from: int)
    requires
        0 <= from <= table.len(),
        forall|j: int| from <= j < table.len() ==> !same_descriptor(#[trigger] table[j], descriptor),
        same_descriptor(descriptor, descriptor),
    ensures
        position_from(table.push(descriptor), descriptor, from) == Some(table.len() as int),
    decreases table.len() - from,
{
    if from < table.len() {
        assert(table.push(descriptor)[from] == table[from]);
        lemma_position_none_push(table, descriptor, from + 1);
    }
}

/// A row that names a position past the end of its table.
#[derive(Clone, Copy, Debug, PartialEq, Eq, Structural)]
pub struct MissingSignal {
    /// The position the row names.
    pub signal: usize,
    /// How many descriptors the table holds.
    pub held: usize,
}

/// What a row naming a missing descriptor says of itself.
pub open spec fn missing_signal_text(missing: MissingSignal) -> Seq<char> {
    "reading names signal "@ + decimal(missing.signal as nat) + " but the table holds "@ + decimal(missing.held as nat)
}

impl MissingSignal {
    /// The human-readable description of the refusal.
    pub fn message(&self) -> (text: String)
        ensures
            text@ == missing_signal_text(*self),
    {
        let mut text = String::new();
        append(&mut text, "reading names signal ");
        append_decimal(&mut text, self.signal as u64);
        append(&mut text, " but the table holds ");
        append_decimal(&mut text, self.held as u64);
        proof {
            assert(text@ =~= missing_signal_text(*self));
        }
        text
    }
}

/// Another handle on the same shared descriptor, through `Arc::clone`.
///
/// Trusted: `Arc::clone` is documented to make a new pointer to the same
/// allocation, so the value behind it is the one behind `signal`, which is
/// all this claims.
#[verifier::external_body]
fn share(signal: &Arc<SignalDescriptor>) -> (shared: Arc<SignalDescriptor>)
    ensures
        shared == *signal,
{
    Arc::clone(signal)
}

/// The descriptors a table's rows name, row by row; refused at the first row
/// naming a position the table does not hold.
pub fn descriptors_from_table(signals: &[Arc<SignalDescriptor>], rows: &[usize]) -> (joined: Result<Vec<Arc<SignalDescriptor>>, MissingSignal>)
    ensures
        match joined {
            Ok(shared) => shared@.len() == rows@.len() && forall|k: int|
                0 <= k < rows@.len() ==> #[trigger] rows@[k] < signals@.len() && shared@[k] == signals@[rows@[k] as int],
            Err(missing) => exists|k: int|
                0 <= k < rows@.len() && #[trigger] rows@[k] >= signals@.len() && (forall|j: int|
                    0 <= j < k ==> #[trigger] rows@[j] < signals@.len()) && missing == MissingSignal {
                    signal: rows@[k],
                    held: signals@.len() as usize,
                },
        },
{
    let mut shared: Vec<Arc<SignalDescriptor>> = Vec::new();
    let mut k: usize = 0;
    while k < rows.len()
        invariant
            0 <= k <= rows@.len(),
            shared@.len() == k,
            forall|j: int| 0 <= j < k ==> #[trigger] rows@[j] < signals@.len() && shared@[j] == signals@[rows@[j] as int],
        decreases rows@.len() - k,
    {
        let index = rows[k];
        if index >= signals.len() {
            return Err(MissingSignal { signal: index, held: signals.len() });
        }
        shared.push(share(&signals[index]));
        k = k + 1;
    }
    Ok(shared)
}

} // verus!
