//! The content-hash byte stream of the value vocabulary.
//!
//! A hash over an ambiguous serialization equates values that differ, so the
//! stream is built to be unambiguous: every value opens with its arm's field
//! number, so an integer 5 and an unsigned 5 are different bytes; strings,
//! bytes, lists and maps carry a full-width length or count first, so `"ab"`
//! and `"a", "b"` cannot collide; fixed-width scalars are written
//! little-endian at full width; an instant labels its two fields and closes
//! with a zero, which no field number is.
//!
//! The library picks no hash function. It owns the byte stream; whoever
//! stores or compares hashes feeds the stream to the function of their
//! choice.

use vstd::prelude::*;
use vstd::bytes::{
    lemma_auto_spec_u32_to_from_le_bytes, lemma_auto_spec_u64_to_from_le_bytes, spec_u32_from_le_bytes, spec_u32_to_le_bytes,
    spec_u64_from_le_bytes, spec_u64_to_le_bytes, u32_to_le_bytes, u64_to_le_bytes,
};

use crate::order::text_bytes;
use crate::schema::value::{NumericValue, Timestamp};
use crate::schema::value_tree::{Repr, Value, ValueKind, entry_values, one_deeper};

verus! {

/// A field number, little-endian.
pub open spec fn tag_bytes(field: u32) -> Seq<u8> {
    spec_u32_to_le_bytes(field)
}

/// A count or byte length, little-endian at full width.
pub open spec fn count_bytes(n: nat) -> Seq<u8> {
    spec_u64_to_le_bytes(n as u64)
}

/// Raw bytes behind their length.
pub open spec fn blob_bytes(bytes: Seq<u8>) -> Seq<u8> {
    count_bytes(bytes.len()) + bytes
}

/// A text's UTF-8 encoding behind its length.
pub open spec fn str_bytes(text: Seq<char>) -> Seq<u8> {
    blob_bytes(text_bytes(text))
}

/// An instant: seconds under field 1, nanoseconds under field 2, then the
/// closing zero.
pub open spec fn timestamp_stream(t: Timestamp) -> Seq<u8> {
    tag_bytes(1) + spec_u64_to_le_bytes(t.secs() as u64) + tag_bytes(2) + spec_u32_to_le_bytes(t.subsec()) + tag_bytes(0)
}

/// The field number of a numeric sample's arm.
pub open spec fn numeric_arm(n: NumericValue) -> u32 {
    match n {
        NumericValue::Double(_) => 1,
        NumericValue::Int(_) => 2,
        NumericValue::Uint(_) => 3,
    }
}

/// A numeric sample: its arm, then its payload.
pub open spec fn numeric_stream(n: NumericValue) -> Seq<u8> {
    tag_bytes(numeric_arm(n)) + numeric_payload(n)
}

/// A numeric sample's payload at full width, a double by its bits.
pub open spec fn numeric_payload(n: NumericValue) -> Seq<u8> {
    match n {
        NumericValue::Double(f) => spec_u64_to_le_bytes(f.bits_of()),
        NumericValue::Int(i) => spec_u64_to_le_bytes(i as u64),
        NumericValue::Uint(u) => spec_u64_to_le_bytes(u),
    }
}

/// The field number of a value's arm.
pub open spec fn value_arm(r: Repr) -> u32 {
    match r {
        Repr::Null => 1,
        Repr::Bool(_) => 2,
        Repr::Int(_) => 3,
        Repr::Uint(_) => 4,
        Repr::Double(_) => 5,
        Repr::String(_) => 6,
        Repr::Bytes(_) => 7,
        Repr::Timestamp(_) => 8,
        Repr::List(_) => 9,
        Repr::Entries(_) => 10,
    }
}

/// A value's stream: its arm, then its payload.
pub open spec fn value_stream(v: Value) -> Seq<u8>
    decreases v.depth_of(), 2nat,
{
    tag_bytes(value_arm(v.repr_of())) + value_payload(v)
}

/// What follows a value's arm: nothing for null, a byte for a boolean, the
/// full-width scalar, the length-prefixed text or bytes, the instant, or the
/// count and then each element (a map entry as its key, then its value).
pub open spec fn value_payload(v: Value) -> Seq<u8>
    decreases v.depth_of(), 1nat,
{
    match v.repr_of() {
        Repr::Null => Seq::empty(),
        Repr::Bool(b) => seq![if b { 1u8 } else { 0u8 }],
        Repr::Int(i) => spec_u64_to_le_bytes(i as u64),
        Repr::Uint(u) => spec_u64_to_le_bytes(u),
        Repr::Double(f) => spec_u64_to_le_bytes(f.bits_of()),
        Repr::String(s) => str_bytes(s@),
        Repr::Bytes(b) => blob_bytes(b@),
        Repr::Timestamp(t) => timestamp_stream(t),
        Repr::List(vs) => count_bytes(vs@.len()) + list_stream(vs@, v.depth_of(), 0),
        Repr::Entries(es) => count_bytes(es@.len()) + entries_stream(es@, v.depth_of(), 0),
    }
}

/// The streams of a list's elements from `from` on, each shallower than
/// `depth`.
pub open spec fn list_stream(vs: Seq<Value>, depth: nat, from: int) -> Seq<u8>
    decreases depth, 0nat, vs.len() - from,
{
    if 0 <= from < vs.len() && vs[from].depth_of() < depth {
        value_stream(vs[from]) + list_stream(vs, depth, from + 1)
    } else {
        Seq::empty()
    }
}

/// The streams of a map's entries from `from` on: each key, then its value.
pub open spec fn entries_stream(es: Seq<(String, Value)>, depth: nat, from: int) -> Seq<u8>
    decreases depth, 0nat, es.len() - from,
{
    if 0 <= from < es.len() && es[from].1.depth_of() < depth {
        str_bytes(es[from].0@) + value_stream(es[from].1) + entries_stream(es, depth, from + 1)
    } else {
        Seq::empty()
    }
}

/// Whether each container in `v` holds only shallower values and every
/// length in it fits the full-width count. Every value the checked
/// constructors make is digestible: [`Value::digest`] states so.
pub open spec fn digestible(v: Value) -> bool
    decreases v.depth_of(), 1nat,
{
    match v.repr_of() {
        Repr::String(s) => text_bytes(s@).len() <= u64::MAX,
        Repr::Bytes(b) => b@.len() <= u64::MAX,
        Repr::List(vs) => vs@.len() <= u64::MAX && list_digestible(vs@, v.depth_of(), 0),
        Repr::Entries(es) => es@.len() <= u64::MAX && entries_digestible(es@, v.depth_of(), 0),
        _ => true,
    }
}

/// Whether the list elements from `from` on are shallower than `depth` and
/// digestible.
pub open spec fn list_digestible(vs: Seq<Value>, depth: nat, from: int) -> bool
    decreases depth, 0nat, vs.len() - from,
{
    if 0 <= from < vs.len() {
        vs[from].depth_of() < depth && digestible(vs[from]) && list_digestible(vs, depth, from + 1)
    } else {
        true
    }
}

/// Whether the map entries from `from` on hold countable keys and shallower,
/// digestible values.
pub open spec fn entries_digestible(es: Seq<(String, Value)>, depth: nat, from: int) -> bool
    decreases depth, 0nat, es.len() - from,
{
    if 0 <= from < es.len() {
        text_bytes(es[from].0@).len() <= u64::MAX && es[from].1.depth_of() < depth && digestible(es[from].1) && entries_digestible(
            es,
            depth,
            from + 1,
        )
    } else {
        true
    }
}

/// Whether two values have the same content: the same arm holding the same
/// payload, a double compared by its bits, an instant by its fields, and
/// containers element by element.
pub open spec fn same_value(a: Value, b: Value) -> bool
    decreases a.depth_of(), 1nat,
{
    match (a.repr_of(), b.repr_of()) {
        (Repr::Null, Repr::Null) => true,
        (Repr::Bool(x), Repr::Bool(y)) => x == y,
        (Repr::Int(x), Repr::Int(y)) => x == y,
        (Repr::Uint(x), Repr::Uint(y)) => x == y,
        (Repr::Double(x), Repr::Double(y)) => x.bits_of() == y.bits_of(),
        (Repr::String(x), Repr::String(y)) => x@ == y@,
        (Repr::Bytes(x), Repr::Bytes(y)) => x@ == y@,
        (Repr::Timestamp(x), Repr::Timestamp(y)) => x.secs() == y.secs() && x.subsec() == y.subsec(),
        (Repr::List(xs), Repr::List(ys)) => xs@.len() == ys@.len() && same_list(xs@, ys@, a.depth_of(), 0),
        (Repr::Entries(xs), Repr::Entries(ys)) => xs@.len() == ys@.len() && same_entries(xs@, ys@, a.depth_of(), 0),
        _ => false,
    }
}

/// Whether the list elements from `from` on agree position by position.
pub open spec fn same_list(xs: Seq<Value>, ys: Seq<Value>, depth: nat, from: int) -> bool
    decreases depth, 0nat, xs.len() - from,
{
    if 0 <= from < xs.len() {
        xs[from].depth_of() < depth && same_value(xs[from], ys[from]) && same_list(xs, ys, depth, from + 1)
    } else {
        true
    }
}

/// Whether the map entries from `from` on agree position by position, on
/// key and on value.
pub open spec fn same_entries(xs: Seq<(String, Value)>, ys: Seq<(String, Value)>, depth: nat, from: int) -> bool
    decreases depth, 0nat, xs.len() - from,
{
    if 0 <= from < xs.len() {
        xs[from].0@ == ys[from].0@ && xs[from].1.depth_of() < depth && same_value(xs[from].1, ys[from].1) && same_entries(
            xs,
            ys,
            depth,
            from + 1,
        )
    } else {
        true
    }
}

/// Appends a `u32`, little-endian.
fn write_u32(out: &mut Vec<u8>, x: u32)
    ensures
        final(out)@ == old(out)@ + spec_u32_to_le_bytes(x),
{
    let mut bytes = u32_to_le_bytes(x);
    out.append(&mut bytes);
}

/// Appends a `u64`, little-endian.
fn write_u64(out: &mut Vec<u8>, x: u64)
    ensures
        final(out)@ == old(out)@ + spec_u64_to_le_bytes(x),
{
    let mut bytes = u64_to_le_bytes(x);
    out.append(&mut bytes);
}

/// Appends raw bytes behind their length.
fn write_blob(out: &mut Vec<u8>, bytes: &[u8])
    ensures
        final(out)@ == old(out)@ + blob_bytes(bytes@),
        bytes@.len() <= u64::MAX,
{
    let ghost start = out@;
    write_u64(out, bytes.len() as u64);
    let mut i: usize = 0;
    while i < bytes.len()
        invariant
            i <= bytes@.len(),
            bytes@.len() <= u64::MAX,
            out@ == start + count_bytes(bytes@.len()) + bytes@.subrange(0, i as int),
        decreases bytes@.len() - i,
    {
        out.push(bytes[i]);
        i = i + 1;
        proof {
            assert(bytes@.subrange(0, i as int) =~= bytes@.subrange(0, i - 1).push(bytes@[i - 1]));
        }
    }
    proof {
        assert(bytes@.subrange(0, i as int) =~= bytes@);
        assert(start + count_bytes(bytes@.len()) + bytes@ =~= start + blob_bytes(bytes@));
    }
}

/// Appends a text's UTF-8 encoding behind its length.
fn write_str(out: &mut Vec<u8>, text: &str)
    ensures
        final(out)@ == old(out)@ + str_bytes(text@),
        text_bytes(text@).len() <= u64::MAX,
{
    write_blob(out, text.as_bytes());
}

impl Timestamp {
    /// Appends the instant's content stream to `out`.
    pub fn digest(&self, out: &mut Vec<u8>)
        ensures
            final(out)@ == old(out)@ + timestamp_stream(*self),
    {
        let ghost start = out@;
        write_u32(out, 1);
        write_u64(out, self.seconds() as u64);
        write_u32(out, 2);
        write_u32(out, self.nanos());
        write_u32(out, 0);
        proof {
            assert(out@ =~= start + timestamp_stream(*self));
        }
    }
}

impl NumericValue {
    /// The field number of the sample's arm.
    pub fn arm(&self) -> (arm: u32)
        ensures
            arm == numeric_arm(*self),
    {
        match self {
            NumericValue::Double(_) => 1,
            NumericValue::Int(_) => 2,
            NumericValue::Uint(_) => 3,
        }
    }

    /// Appends the sample's content stream to `out`.
    pub fn digest(&self, out: &mut Vec<u8>)
        ensures
            final(out)@ == old(out)@ + numeric_stream(*self),
    {
        let ghost start = out@;
        write_u32(out, self.arm());
        match self {
            NumericValue::Double(value) => write_u64(out, value.to_bits()),
            NumericValue::Int(value) => write_u64(out, *value as u64),
            NumericValue::Uint(value) => write_u64(out, *value),
        }
        proof {
            assert(out@ =~= start + numeric_stream(*self));
        }
    }
}

impl Value {
    /// The field number of the value's arm.
    pub fn arm(&self) -> (arm: u32)
        ensures
            arm == value_arm(self.repr_of()),
    {
        match self.kind() {
            ValueKind::Null => 1,
            ValueKind::Bool(_) => 2,
            ValueKind::Int(_) => 3,
            ValueKind::Uint(_) => 4,
            ValueKind::Double(_) => 5,
            ValueKind::String(_) => 6,
            ValueKind::Bytes(_) => 7,
            ValueKind::Timestamp(_) => 8,
            ValueKind::List(_) => 9,
            ValueKind::Entries(_) => 10,
        }
    }

    /// Appends the value's content stream to `out`: the bytes a content hash
    /// is computed over. Every value is digestible, so the stream stands for
    /// its content alone ([`law_value_stream_injective`]).
    pub fn digest(&self, out: &mut Vec<u8>)
        ensures
            final(out)@ == old(out)@ + value_stream(*self),
            digestible(*self),
        decreases self.depth_of(),
    {
        let ghost start = out@;
        let ghost depth = self.depth_of();
        write_u32(out, self.arm());
        let ghost tagged = out@;
        let kind = self.kind();
        match kind {
            ValueKind::Null => {},
            ValueKind::Bool(value) => {
                out.push(if value { 1u8 } else { 0u8 });
            },
            ValueKind::Int(value) => write_u64(out, value as u64),
            ValueKind::Uint(value) => write_u64(out, value),
            ValueKind::Double(value) => write_u64(out, value.to_bits()),
            ValueKind::String(value) => write_str(out, value),
            ValueKind::Bytes(value) => write_blob(out, value),
            ValueKind::Timestamp(value) => value.digest(out),
            ValueKind::List(values) => {
                let ghost vs = values@;
                proof {
                    let held = self.repr_of()->List_0;
                    assert(held@ == vs);
                    assert(one_deeper(depth, vs));
                }
                write_u64(out, values.len() as u64);
                let ghost counted = out@;
                let mut i: usize = 0;
                while i < values.len()
                    invariant
                        i <= vs.len(),
                        vs == values@,
                        depth == self.depth_of(),
                        forall|k: int| 0 <= k < vs.len() ==> #[trigger] vs[k].depth_of() < depth,
                        forall|k: int| 0 <= k < i ==> digestible(#[trigger] vs[k]),
                        out@ + list_stream(vs, depth, i as int) == counted + list_stream(vs, depth, 0),
                    decreases vs.len() - i,
                {
                    let ghost before = out@;
                    let element = &values[i];
                    proof {
                        assert(*element == vs[i as int]);
                    }
                    element.digest(out);
                    proof {
                        assert(before + list_stream(vs, depth, i as int) =~= out@ + list_stream(vs, depth, i + 1));
                    }
                    i = i + 1;
                }
                proof {
                    assert(out@ + list_stream(vs, depth, i as int) =~= out@);
                    lemma_list_digestible(vs, depth, 0);
                }
            },
            ValueKind::Entries(entries) => {
                let ghost es = entries@;
                proof {
                    let held = self.repr_of()->Entries_0;
                    assert(held@ == es);
                    let values = entry_values(es);
                    assert(one_deeper(depth, values));
                    assert forall|k: int| 0 <= k < es.len() implies #[trigger] es[k].1.depth_of() < depth by {
                        assert(values[k] == es[k].1);
                    }
                }
                write_u64(out, entries.len() as u64);
                let ghost counted = out@;
                let mut i: usize = 0;
                while i < entries.len()
                    invariant
                        i <= es.len(),
                        es == entries@,
                        depth == self.depth_of(),
                        forall|k: int| 0 <= k < es.len() ==> #[trigger] es[k].1.depth_of() < depth,
                        forall|k: int| 0 <= k < i ==> digestible(#[trigger] es[k].1),
                        forall|k: int| 0 <= k < i ==> (#[trigger] text_bytes(es[k].0@)).len() <= u64::MAX,
                        out@ + entries_stream(es, depth, i as int) == counted + entries_stream(es, depth, 0),
                    decreases es.len() - i,
                {
                    let ghost before = out@;
                    let entry = &entries[i];
                    proof {
                        assert(*entry == es[i as int]);
                    }
                    write_str(out, entry.0.as_str());
                    entry.1.digest(out);
                    proof {
                        assert(before + entries_stream(es, depth, i as int) =~= out@ + entries_stream(es, depth, i + 1));
                    }
                    i = i + 1;
                }
                proof {
                    assert(out@ + entries_stream(es, depth, i as int) =~= out@);
                    lemma_entries_digestible(es, depth, 0);
                }
            },
        }
        proof {
            assert(out@ =~= start + value_stream(*self));
        }
    }
}

/// Elements each shallower and digestible make a digestible list.
proof fn lemma_list_digestible(vs: Seq<Value>, depth: nat, from: int)
    requires
        0 <= from <= vs.len(),
        forall|k: int| 0 <= k < vs.len() ==> #[trigger] vs[k].depth_of() < depth,
        forall|k: int| from <= k < vs.len() ==> digestible(#[trigger] vs[k]),
    ensures
        list_digestible(vs, depth, from),
    decreases vs.len() - from,
{
    if from < vs.len() {
        lemma_list_digestible(vs, depth, from + 1);
    }
}

/// Entries each with a countable key and a shallower, digestible value make
/// a digestible map.
proof fn lemma_entries_digestible(es: Seq<(String, Value)>, depth: nat, from: int)
    requires
        0 <= from <= es.len(),
        forall|k: int| 0 <= k < es.len() ==> #[trigger] es[k].1.depth_of() < depth,
        forall|k: int| from <= k < es.len() ==> digestible(#[trigger] es[k].1),
        forall|k: int| from <= k < es.len() ==> (#[trigger] text_bytes(es[k].0@)).len() <= u64::MAX,
    ensures
        entries_digestible(es, depth, from),
    decreases es.len() - from,
{
    if from < es.len() {
        lemma_entries_digestible(es, depth, from + 1);
    }
}

/// Two streams that agree on a prefix of one length agree on that prefix
/// and on what follows.
proof fn lemma_split(p: Seq<u8>, q: Seq<u8>, r1: Seq<u8>, r2: Seq<u8>)
    requires
        p + r1 == q + r2,
        p.len() == q.len(),
    ensures
        p == q,
        r1 == r2,
{
    assert(p =~= (p + r1).subrange(0, p.len() as int));
    assert(q =~= (q + r2).subrange(0, q.len() as int));
    assert(r1 =~= (p + r1).subrange(p.len() as int, (p + r1).len() as int));
    assert(r2 =~= (q + r2).subrange(q.len() as int, (q + r2).len() as int));
}

/// The four little-endian bytes of a `u32` determine it.
proof fn lemma_u32_bytes(x: u32, y: u32)
    ensures
        spec_u32_to_le_bytes(x).len() == 4,
        spec_u32_to_le_bytes(y).len() == 4,
        spec_u32_to_le_bytes(x) == spec_u32_to_le_bytes(y) ==> x == y,
{
    lemma_auto_spec_u32_to_from_le_bytes();
    assert(spec_u32_to_le_bytes(x).len() == 4);
    assert(spec_u32_to_le_bytes(y).len() == 4);
    assert(spec_u32_from_le_bytes(spec_u32_to_le_bytes(x)) == x);
    assert(spec_u32_from_le_bytes(spec_u32_to_le_bytes(y)) == y);
}

/// The eight little-endian bytes of a `u64` determine it.
proof fn lemma_u64_bytes(x: u64, y: u64)
    ensures
        spec_u64_to_le_bytes(x).len() == 8,
        spec_u64_to_le_bytes(y).len() == 8,
        spec_u64_to_le_bytes(x) == spec_u64_to_le_bytes(y) ==> x == y,
{
    lemma_auto_spec_u64_to_from_le_bytes();
    assert(spec_u64_to_le_bytes(x).len() == 8);
    assert(spec_u64_to_le_bytes(y).len() == 8);
    assert(spec_u64_from_le_bytes(spec_u64_to_le_bytes(x)) == x);
    assert(spec_u64_from_le_bytes(spec_u64_to_le_bytes(y)) == y);
}

/// The eight little-endian bytes of an `i64` determine it.
proof fn lemma_i64_bytes(x: i64, y: i64)
    ensures
        spec_u64_to_le_bytes(x as u64).len() == 8,
        spec_u64_to_le_bytes(y as u64).len() == 8,
        spec_u64_to_le_bytes(x as u64) == spec_u64_to_le_bytes(y as u64) ==> x == y,
{
    lemma_u64_bytes(x as u64, y as u64);
    assert((x as u64) == (y as u64) ==> x == y) by (bit_vector);
}

/// A length-prefixed blob is read back whole, whatever follows it.
proof fn lemma_blob_prefix(x: Seq<u8>, y: Seq<u8>, r1: Seq<u8>, r2: Seq<u8>)
    requires
        blob_bytes(x) + r1 == blob_bytes(y) + r2,
        x.len() <= u64::MAX,
        y.len() <= u64::MAX,
    ensures
        x == y,
        r1 == r2,
{
    lemma_u64_bytes(x.len() as u64, y.len() as u64);
    assert(blob_bytes(x) + r1 =~= count_bytes(x.len()) + (x + r1));
    assert(blob_bytes(y) + r2 =~= count_bytes(y.len()) + (y + r2));
    lemma_split(count_bytes(x.len()), count_bytes(y.len()), x + r1, y + r2);
    assert((x.len() as u64) as nat == x.len());
    assert((y.len() as u64) as nat == y.len());
    lemma_split(x, y, r1, r2);
}

/// A length-prefixed text is read back whole, whatever follows it.
proof fn lemma_str_prefix(x: Seq<char>, y: Seq<char>, r1: Seq<u8>, r2: Seq<u8>)
    requires
        str_bytes(x) + r1 == str_bytes(y) + r2,
        text_bytes(x).len() <= u64::MAX,
        text_bytes(y).len() <= u64::MAX,
    ensures
        x == y,
        r1 == r2,
{
    lemma_blob_prefix(text_bytes(x), text_bytes(y), r1, r2);
    vstd::utf8::encode_utf8_decode_utf8(x);
    vstd::utf8::encode_utf8_decode_utf8(y);
}

/// An instant's stream is read back whole, whatever follows it.
proof fn lemma_timestamp_prefix(x: Timestamp, y: Timestamp, r1: Seq<u8>, r2: Seq<u8>)
    requires
        timestamp_stream(x) + r1 == timestamp_stream(y) + r2,
    ensures
        x.secs() == y.secs(),
        x.subsec() == y.subsec(),
        r1 == r2,
{
    lemma_u32_bytes(1, 2);
    lemma_u32_bytes(0, 0);
    lemma_u32_bytes(x.subsec(), y.subsec());
    lemma_i64_bytes(x.secs(), y.secs());
    let sx = timestamp_stream(x);
    let sy = timestamp_stream(y);
    lemma_split(sx, sy, r1, r2);
    assert(sx.subrange(4, 12) =~= spec_u64_to_le_bytes(x.secs() as u64));
    assert(sy.subrange(4, 12) =~= spec_u64_to_le_bytes(y.secs() as u64));
    assert(sx.subrange(16, 20) =~= spec_u32_to_le_bytes(x.subsec()));
    assert(sy.subrange(16, 20) =~= spec_u32_to_le_bytes(y.subsec()));
}

/// A digestible value's stream is read back whole, whatever follows it: two
/// such streams that agree with their tails appended come from values of
/// the same content, and the tails agree.
proof fn lemma_value_prefix(a: Value, b: Value, r1: Seq<u8>, r2: Seq<u8>)
    requires
        digestible(a),
        digestible(b),
        value_stream(a) + r1 == value_stream(b) + r2,
    ensures
        same_value(a, b),
        r1 == r2,
    decreases a.depth_of(), 1nat,
{
    let ta = tag_bytes(value_arm(a.repr_of()));
    let tb = tag_bytes(value_arm(b.repr_of()));
    let pa = value_payload(a);
    let pb = value_payload(b);
    lemma_u32_bytes(value_arm(a.repr_of()), value_arm(b.repr_of()));
    lemma_u32_bytes(value_arm(b.repr_of()), value_arm(a.repr_of()));
    assert(value_stream(a) + r1 =~= ta + (pa + r1));
    assert(value_stream(b) + r2 =~= tb + (pb + r2));
    lemma_split(ta, tb, pa + r1, pb + r2);
    match (a.repr_of(), b.repr_of()) {
        (Repr::Null, Repr::Null) => {
            assert(pa + r1 =~= r1);
            assert(pb + r2 =~= r2);
        },
        (Repr::Bool(x), Repr::Bool(y)) => {
            lemma_split(pa, pb, r1, r2);
            assert(pa[0] == pb[0]);
        },
        (Repr::Int(x), Repr::Int(y)) => {
            lemma_i64_bytes(x, y);
            lemma_split(pa, pb, r1, r2);
        },
        (Repr::Uint(x), Repr::Uint(y)) => {
            lemma_u64_bytes(x, y);
            lemma_split(pa, pb, r1, r2);
        },
        (Repr::Double(x), Repr::Double(y)) => {
            lemma_u64_bytes(x.bits_of(), y.bits_of());
            lemma_split(pa, pb, r1, r2);
        },
        (Repr::String(x), Repr::String(y)) => {
            lemma_str_prefix(x@, y@, r1, r2);
        },
        (Repr::Bytes(x), Repr::Bytes(y)) => {
            lemma_blob_prefix(x@, y@, r1, r2);
        },
        (Repr::Timestamp(x), Repr::Timestamp(y)) => {
            lemma_timestamp_prefix(x, y, r1, r2);
        },
        (Repr::List(xs), Repr::List(ys)) => {
            let la = list_stream(xs@, a.depth_of(), 0);
            let lb = list_stream(ys@, b.depth_of(), 0);
            lemma_u64_bytes(xs@.len() as u64, ys@.len() as u64);
            assert(pa + r1 =~= count_bytes(xs@.len()) + (la + r1));
            assert(pb + r2 =~= count_bytes(ys@.len()) + (lb + r2));
            lemma_split(count_bytes(xs@.len()), count_bytes(ys@.len()), la + r1, lb + r2);
            lemma_list_prefix(xs@, ys@, a.depth_of(), b.depth_of(), 0, r1, r2);
        },
        (Repr::Entries(xs), Repr::Entries(ys)) => {
            let la = entries_stream(xs@, a.depth_of(), 0);
            let lb = entries_stream(ys@, b.depth_of(), 0);
            lemma_u64_bytes(xs@.len() as u64, ys@.len() as u64);
            assert(pa + r1 =~= count_bytes(xs@.len()) + (la + r1));
            assert(pb + r2 =~= count_bytes(ys@.len()) + (lb + r2));
            lemma_split(count_bytes(xs@.len()), count_bytes(ys@.len()), la + r1, lb + r2);
            lemma_entries_prefix(xs@, ys@, a.depth_of(), b.depth_of(), 0, r1, r2);
        },
        _ => {},
    }
}

/// The list elements' streams from `from` on are read back element by
/// element.
proof fn lemma_list_prefix(xs: Seq<Value>, ys: Seq<Value>, da: nat, db: nat, from: int, r1: Seq<u8>, r2: Seq<u8>)
    requires
        0 <= from <= xs.len(),
        xs.len() == ys.len(),
        list_digestible(xs, da, from),
        list_digestible(ys, db, from),
        list_stream(xs, da, from) + r1 == list_stream(ys, db, from) + r2,
    ensures
        same_list(xs, ys, da, from),
        r1 == r2,
    decreases da, 0nat, xs.len() - from,
{
    if from < xs.len() {
        let rest1 = list_stream(xs, da, from + 1);
        let rest2 = list_stream(ys, db, from + 1);
        assert(list_stream(xs, da, from) + r1 =~= value_stream(xs[from]) + (rest1 + r1));
        assert(list_stream(ys, db, from) + r2 =~= value_stream(ys[from]) + (rest2 + r2));
        lemma_value_prefix(xs[from], ys[from], rest1 + r1, rest2 + r2);
        lemma_list_prefix(xs, ys, da, db, from + 1, r1, r2);
    } else {
        assert(list_stream(xs, da, from) + r1 =~= r1);
        assert(list_stream(ys, db, from) + r2 =~= r2);
    }
}

/// The map entries' streams from `from` on are read back entry by entry.
proof fn lemma_entries_prefix(
    xs: Seq<(String, Value)>,
    ys: Seq<(String, Value)>,
    da: nat,
    db: nat,
    from: int,
    r1: Seq<u8>,
    r2: Seq<u8>,
)
    requires
        0 <= from <= xs.len(),
        xs.len() == ys.len(),
        entries_digestible(xs, da, from),
        entries_digestible(ys, db, from),
        entries_stream(xs, da, from) + r1 == entries_stream(ys, db, from) + r2,
    ensures
        same_entries(xs, ys, da, from),
        r1 == r2,
    decreases da, 0nat, xs.len() - from,
{
    if from < xs.len() {
        let rest1 = entries_stream(xs, da, from + 1);
        let rest2 = entries_stream(ys, db, from + 1);
        let v1 = value_stream(xs[from].1);
        let v2 = value_stream(ys[from].1);
        assert(entries_stream(xs, da, from) + r1 =~= str_bytes(xs[from].0@) + (v1 + (rest1 + r1)));
        assert(entries_stream(ys, db, from) + r2 =~= str_bytes(ys[from].0@) + (v2 + (rest2 + r2)));
        lemma_str_prefix(xs[from].0@, ys[from].0@, v1 + (rest1 + r1), v2 + (rest2 + r2));
        lemma_value_prefix(xs[from].1, ys[from].1, rest1 + r1, rest2 + r2);
        lemma_entries_prefix(xs, ys, da, db, from + 1, r1, r2);
    } else {
        assert(entries_stream(xs, da, from) + r1 =~= r1);
        assert(entries_stream(ys, db, from) + r2 =~= r2);
    }
}

/// The content stream is injective: two digestible values whose streams are
/// equal have the same content. No stream is a proper prefix of another
/// either, so a value's stream can stand inside a larger one unambiguously.
pub proof fn law_value_stream_injective(a: Value, b: Value, r1: Seq<u8>, r2: Seq<u8>)
    requires
        digestible(a),
        digestible(b),
        value_stream(a) + r1 == value_stream(b) + r2,
    ensures
        same_value(a, b),
        r1 == r2,
{
    lemma_value_prefix(a, b, r1, r2);
}

/// The numeric stream is injective: equal streams come from the same arm
/// holding the same payload.
pub proof fn law_numeric_stream_injective(a: NumericValue, b: NumericValue)
    requires
        numeric_stream(a) == numeric_stream(b),
    ensures
        numeric_arm(a) == numeric_arm(b),
        match (a, b) {
            (NumericValue::Double(x), NumericValue::Double(y)) => x.bits_of() == y.bits_of(),
            (NumericValue::Int(x), NumericValue::Int(y)) => x == y,
            (NumericValue::Uint(x), NumericValue::Uint(y)) => x == y,
            _ => false,
        },
{
    lemma_u32_bytes(numeric_arm(a), numeric_arm(b));
    lemma_split(tag_bytes(numeric_arm(a)), tag_bytes(numeric_arm(b)), numeric_payload(a), numeric_payload(b));
    match (a, b) {
        (NumericValue::Double(x), NumericValue::Double(y)) => lemma_u64_bytes(x.bits_of(), y.bits_of()),
        (NumericValue::Int(x), NumericValue::Int(y)) => lemma_i64_bytes(x, y),
        (NumericValue::Uint(x), NumericValue::Uint(y)) => lemma_u64_bytes(x, y),
        _ => {},
    }
}

/// The instant stream is injective.
pub proof fn law_timestamp_stream_injective(a: Timestamp, b: Timestamp)
    requires
        timestamp_stream(a) == timestamp_stream(b),
    ensures
        a.secs() == b.secs(),
        a.subsec() == b.subsec(),
{
    lemma_timestamp_prefix(a, b, Seq::empty(), Seq::empty());
}

} // verus!
