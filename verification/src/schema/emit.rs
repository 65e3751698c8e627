//! Protobuf wire bytes written straight from validated values.
//!
//! Encoding through the wire form means rebuilding the whole wire tree
//! first; walking the validated value writes the same bytes without it. The
//! fields go out in field-number order, each behind its key, and a nested
//! message behind its length, as a protobuf encoder writes the rebuilt tree.
//! Keys and varints are written by `prost`'s own encoding primitives.

use vstd::prelude::*;
use vstd::bytes::{
    lemma_auto_spec_u32_to_from_le_bytes, lemma_auto_spec_u64_to_from_le_bytes, spec_u32_from_le_bytes, spec_u32_to_le_bytes,
    spec_u64_from_le_bytes,
    spec_u64_to_le_bytes, u64_to_le_bytes,
};

use prost::encoding::WireType;

use crate::order::text_bytes;
use crate::schema::digest::{numeric_stream, value_stream};
use crate::schema::value::{NumericValue, Timestamp};
use crate::schema::value_tree::{Repr, Value, ValueKind, entry_values, one_deeper};

verus! {

/// The largest field number protobuf allows.
pub const MAX_TAG: u32 = 536_870_911;

/// The wire types these messages use.
#[derive(Clone, Copy, Debug, PartialEq, Eq)]
pub enum WireKind {
    Varint,
    SixtyFourBit,
    LengthDelimited,
}

/// A wire type's number in a field key.
pub open spec fn wire_number(wire: WireKind) -> int {
    match wire {
        WireKind::Varint => 0,
        WireKind::SixtyFourBit => 1,
        WireKind::LengthDelimited => 2,
    }
}

/// The base-128 varint of `v`: seven bits per byte, least significant
/// first, the high bit set on every byte but the last.
pub open spec fn varint_bytes(v: u64) -> Seq<u8>
    decreases v,
{
    if v < 128 {
        seq![v as u8]
    } else {
        seq![(v % 128 + 128) as u8] + varint_bytes(v / 128)
    }
}

/// A field key: the field number shifted past the wire type, as a varint.
pub open spec fn key_bytes(tag: u32, wire: WireKind) -> Seq<u8> {
    varint_bytes((tag * 8 + wire_number(wire)) as u64)
}

/// The zigzag form of a signed integer: non-negative values to the even
/// numbers, negative ones to the odd.
pub open spec fn zigzag(v: i64) -> u64 {
    if v >= 0 {
        (2 * v) as u64
    } else {
        (-2 * v - 1) as u64
    }
}

/// A varint field.
pub open spec fn varint_field(tag: u32, v: u64) -> Seq<u8> {
    key_bytes(tag, WireKind::Varint) + varint_bytes(v)
}

/// A fixed-width 64-bit field, little-endian.
pub open spec fn fixed64_field(tag: u32, v: u64) -> Seq<u8> {
    key_bytes(tag, WireKind::SixtyFourBit) + spec_u64_to_le_bytes(v)
}

/// A length-delimited field: key, length, body.
pub open spec fn delimited_field(tag: u32, body: Seq<u8>) -> Seq<u8> {
    key_bytes(tag, WireKind::LengthDelimited) + varint_bytes(body.len() as u64) + body
}

/// The body of an instant: seconds under field 1, nanoseconds under 2.
pub open spec fn timestamp_wire(t: Timestamp) -> Seq<u8> {
    varint_field(1, t.secs() as u64) + varint_field(2, t.subsec() as u64)
}

/// The body of a numeric sample: its one arm's field.
pub open spec fn numeric_wire(n: NumericValue) -> Seq<u8> {
    match n {
        NumericValue::Double(f) => fixed64_field(1, f.bits_of()),
        NumericValue::Int(i) => varint_field(2, zigzag(i)),
        NumericValue::Uint(u) => varint_field(3, u),
    }
}

/// The body of a value: its one arm's field. Null is an empty message;
/// a list is a message of its elements under field 1; a map is a message
/// of its entries under field 1, each an entry message of key (1) and
/// value (2).
pub open spec fn value_wire(v: Value) -> Seq<u8>
    decreases v.depth_of(), 1nat,
{
    match v.repr_of() {
        Repr::Null => delimited_field(1, Seq::empty()),
        Repr::Bool(b) => varint_field(2, if b { 1 } else { 0 }),
        Repr::Int(i) => varint_field(3, zigzag(i)),
        Repr::Uint(u) => varint_field(4, u),
        Repr::Double(f) => fixed64_field(5, f.bits_of()),
        Repr::String(s) => delimited_field(6, text_bytes(s@)),
        Repr::Bytes(b) => delimited_field(7, b@),
        Repr::Timestamp(t) => delimited_field(8, timestamp_wire(t)),
        Repr::List(vs) => delimited_field(9, list_wire(vs@, v.depth_of(), 0)),
        Repr::Entries(es) => delimited_field(10, entries_wire(es@, v.depth_of(), 0)),
    }
}

/// The list message's fields from element `from` on.
pub open spec fn list_wire(vs: Seq<Value>, depth: nat, from: int) -> Seq<u8>
    decreases depth, 0nat, vs.len() - from,
{
    if 0 <= from < vs.len() && vs[from].depth_of() < depth {
        delimited_field(1, value_wire(vs[from])) + list_wire(vs, depth, from + 1)
    } else {
        Seq::empty()
    }
}

/// One map entry's message: the key under field 1, the value under 2.
pub open spec fn entry_wire(key: Seq<char>, value: Seq<u8>) -> Seq<u8> {
    delimited_field(1, text_bytes(key)) + delimited_field(2, value)
}

/// The map message's fields from entry `from` on.
pub open spec fn entries_wire(es: Seq<(String, Value)>, depth: nat, from: int) -> Seq<u8>
    decreases depth, 0nat, es.len() - from,
{
    if 0 <= from < es.len() && es[from].1.depth_of() < depth {
        delimited_field(1, entry_wire(es[from].0@, value_wire(es[from].1))) + entries_wire(es, depth, from + 1)
    } else {
        Seq::empty()
    }
}

/// What a protobuf reader takes from a base-128 varint at the front of
/// `bytes`: the number, and how many bytes it spans. Each byte gives seven
/// bits, least significant first; a byte below 128 is the last.
pub open spec fn read_varint(bytes: Seq<u8>) -> (int, int)
    decreases bytes.len(),
{
    if bytes.len() == 0 {
        (0, 0)
    } else if bytes[0] < 128 {
        (bytes[0] as int, 1)
    } else {
        let rest = read_varint(bytes.drop_first());
        (bytes[0] - 128 + 128 * rest.0, rest.1 + 1)
    }
}

/// What a reader takes from a field key at the front of `bytes`: the field
/// number, the wire type, and how many bytes the key spans.
pub open spec fn read_key(bytes: Seq<u8>) -> (int, int, int) {
    let key = read_varint(bytes);
    (key.0 / 8, key.0 % 8, key.1)
}

/// What a reader takes from a varint field at the front of `bytes`: field
/// number, wire type, the number, and how many bytes the field spans.
pub open spec fn read_varint_field(bytes: Seq<u8>) -> (int, int, int, int) {
    let key = read_key(bytes);
    let value = read_varint(bytes.subrange(key.2, bytes.len() as int));
    (key.0, key.1, value.0, key.2 + value.1)
}

/// What a reader takes from a 64-bit field at the front of `bytes`: field
/// number, wire type, and the eight bytes after the key read little-endian.
pub open spec fn read_fixed64_field(bytes: Seq<u8>) -> (int, int, u64) {
    let key = read_key(bytes);
    (key.0, key.1, spec_u64_from_le_bytes(bytes.subrange(key.2, key.2 + 8)))
}

/// What a reader takes from a length-delimited field at the front of
/// `bytes`: field number, wire type, and the body its length marks out.
pub open spec fn read_delimited_field(bytes: Seq<u8>) -> (int, int, Seq<u8>) {
    let key = read_key(bytes);
    let length = read_varint(bytes.subrange(key.2, bytes.len() as int));
    let start = key.2 + length.1;
    (key.0, key.1, bytes.subrange(start, start + length.0))
}

/// The signed integer a zigzag number stands for: even numbers are the
/// non-negative integers, odd ones the negative.
pub open spec fn unzigzag(n: int) -> int {
    if n % 2 == 0 {
        n / 2
    } else {
        -((n + 1) / 2)
    }
}

/// Powers of 128.
spec fn pow128(n: nat) -> int
    decreases n,
{
    if n == 0 {
        1
    } else {
        128 * pow128((n - 1) as nat)
    }
}

/// A number below `128^n` takes at most `n` varint bytes.
proof fn lemma_varint_len_under(v: u64, n: nat)
    requires
        n >= 1,
        (v as int) < pow128(n),
    ensures
        varint_bytes(v).len() <= n,
    decreases n,
{
    if v >= 128 {
        reveal_with_fuel(pow128, 2);
        if n == 1 {
            assert(pow128(1) == 128);
        } else {
            assert((v / 128) as int <= (v as int) / 128);
            assert((v as int) / 128 < pow128((n - 1) as nat));
            lemma_varint_len_under(v / 128, (n - 1) as nat);
        }
    }
}

/// A varint takes at most ten bytes.
proof fn lemma_varint_len(v: u64)
    ensures
        varint_bytes(v).len() <= 10,
{
    reveal_with_fuel(pow128, 11);
    lemma_varint_len_under(v, 10);
}

/// A varint reads back as the number written, whatever follows it.
proof fn lemma_read_varint(v: u64, tail: Seq<u8>)
    ensures
        read_varint(varint_bytes(v) + tail) == (v as int, varint_bytes(v).len() as int),
    decreases v,
{
    let b = varint_bytes(v) + tail;
    if v < 128 {
        assert(b[0] == v as u8);
    } else {
        assert(b[0] == (v % 128 + 128) as u8);
        assert(b.drop_first() =~= varint_bytes(v / 128) + tail);
        lemma_read_varint(v / 128, tail);
    }
}

/// A key reads back as its field number and wire type, whatever follows.
proof fn lemma_read_key(tag: u32, wire: WireKind, tail: Seq<u8>)
    requires
        1 <= tag <= MAX_TAG,
    ensures
        read_key(key_bytes(tag, wire) + tail) == (tag as int, wire_number(wire), key_bytes(tag, wire).len() as int),
{
    lemma_read_varint((tag * 8 + wire_number(wire)) as u64, tail);
}

/// A varint field reads back as its field number, the varint wire type and
/// the number written.
proof fn lemma_read_varint_field(tag: u32, v: u64, tail: Seq<u8>)
    requires
        1 <= tag <= MAX_TAG,
    ensures
        read_varint_field(varint_field(tag, v) + tail) == (tag as int, 0int, v as int, varint_field(tag, v).len() as int),
{
    let key = key_bytes(tag, WireKind::Varint);
    let bytes = varint_field(tag, v) + tail;
    assert(bytes =~= key + (varint_bytes(v) + tail));
    lemma_read_key(tag, WireKind::Varint, varint_bytes(v) + tail);
    assert(bytes.subrange(key.len() as int, bytes.len() as int) =~= varint_bytes(v) + tail);
    lemma_read_varint(v, tail);
}

/// A 64-bit field reads back as its field number, the 64-bit wire type and
/// the number written.
proof fn lemma_read_fixed64_field(tag: u32, v: u64)
    requires
        1 <= tag <= MAX_TAG,
    ensures
        read_fixed64_field(fixed64_field(tag, v)) == (tag as int, 1int, v),
{
    let key = key_bytes(tag, WireKind::SixtyFourBit);
    let bytes = fixed64_field(tag, v);
    lemma_read_key(tag, WireKind::SixtyFourBit, spec_u64_to_le_bytes(v));
    lemma_auto_spec_u64_to_from_le_bytes();
    assert(spec_u64_to_le_bytes(v).len() == 8);
    assert(bytes.subrange(key.len() as int, key.len() as int + 8) =~= spec_u64_to_le_bytes(v));
}

/// A length-delimited field reads back as its field number, the
/// length-delimited wire type and the body written, whatever follows it.
proof fn lemma_read_delimited_field(tag: u32, body: Seq<u8>, tail: Seq<u8>)
    requires
        1 <= tag <= MAX_TAG,
        body.len() <= u64::MAX,
    ensures
        read_delimited_field(delimited_field(tag, body) + tail) == (tag as int, 2int, body),
{
    let key = key_bytes(tag, WireKind::LengthDelimited);
    let length = varint_bytes(body.len() as u64);
    let bytes = delimited_field(tag, body) + tail;
    assert(bytes =~= key + (length + (body + tail)));
    lemma_read_key(tag, WireKind::LengthDelimited, length + (body + tail));
    assert(bytes.subrange(key.len() as int, bytes.len() as int) =~= length + (body + tail));
    lemma_read_varint(body.len() as u64, body + tail);
    let start = key.len() as int + length.len() as int;
    assert(bytes.subrange(start, start + body.len() as int) =~= body);
}

/// Inside a list's message, each element stands under field 1 and reads
/// back as that element's own message body; inside a map's, each entry
/// stands under field 1, and its entry message holds the key's UTF-8 bytes
/// under field 1, then the value's message body under field 2.
pub proof fn law_container_wire_reads_back(
    vs: Seq<Value>,
    es: Seq<(String, Value)>,
    depth: nat,
    from: int,
)
    ensures
        0 <= from < vs.len() && vs[from].depth_of() < depth && value_wire(vs[from]).len() <= u64::MAX ==> read_delimited_field(
            list_wire(vs, depth, from),
        ) == (1int, 2int, value_wire(vs[from])),
        0 <= from < es.len() && es[from].1.depth_of() < depth && entry_wire(es[from].0@, value_wire(es[from].1)).len()
            <= u64::MAX ==> read_delimited_field(entries_wire(es, depth, from)) == (
            1int,
            2int,
            entry_wire(es[from].0@, value_wire(es[from].1)),
        ),
        0 <= from < es.len() && entry_wire(es[from].0@, value_wire(es[from].1)).len() <= u64::MAX ==> ({
            let entry = entry_wire(es[from].0@, value_wire(es[from].1));
            let key = read_delimited_field(entry);
            let key_field = delimited_field(1, text_bytes(es[from].0@));
            &&& key == (1int, 2int, text_bytes(es[from].0@))
            &&& read_delimited_field(entry.subrange(key_field.len() as int, entry.len() as int)) == (
                2int,
                2int,
                value_wire(es[from].1),
            )
        }),
{
    if 0 <= from < vs.len() && vs[from].depth_of() < depth && value_wire(vs[from]).len() <= u64::MAX {
        lemma_read_delimited_field(1, value_wire(vs[from]), list_wire(vs, depth, from + 1));
    }
    if 0 <= from < es.len() && entry_wire(es[from].0@, value_wire(es[from].1)).len() <= u64::MAX {
        let entry = entry_wire(es[from].0@, value_wire(es[from].1));
        let key_field = delimited_field(1, text_bytes(es[from].0@));
        let value_field = delimited_field(2, value_wire(es[from].1));
        lemma_read_delimited_field(1, text_bytes(es[from].0@), value_field);
        lemma_read_delimited_field(2, value_wire(es[from].1), Seq::empty());
        assert(entry.subrange(key_field.len() as int, entry.len() as int) =~= value_field + Seq::empty());
        if es[from].1.depth_of() < depth {
            lemma_read_delimited_field(1, entry, entries_wire(es, depth, from + 1));
        }
    }
}

/// The value's message body reads back as the value: a reader finds the
/// field of the value's own arm, and in it the value's payload: the boolean
/// as one for true and zero for false, the integers (signed ones through
/// zigzag), the double's bits, the text's UTF-8 bytes, the bytes, and for an
/// instant, a list or a map the message body written for it.
pub proof fn law_value_wire_reads_back(v: Value)
    requires
        v.repr_of() matches Repr::String(s) ==> text_bytes(s@).len() <= u64::MAX,
        v.repr_of() matches Repr::Bytes(b) ==> b@.len() <= u64::MAX,
        v.repr_of() matches Repr::List(vs) ==> list_wire(vs@, v.depth_of(), 0).len() <= u64::MAX,
        v.repr_of() matches Repr::Entries(es) ==> entries_wire(es@, v.depth_of(), 0).len() <= u64::MAX,
    ensures
        v.repr_of() matches Repr::Null ==> read_delimited_field(value_wire(v)) == (1int, 2int, Seq::<u8>::empty()),
        v.repr_of() matches Repr::Bool(b) ==> {
            let read = read_varint_field(value_wire(v));
            &&& read.0 == 2 && read.1 == 0
            &&& b ==> read.2 == 1
            &&& !b ==> read.2 == 0
        },
        v.repr_of() matches Repr::Int(i) ==> {
            let read = read_varint_field(value_wire(v));
            read.0 == 3 && read.1 == 0 && unzigzag(read.2) == i
        },
        v.repr_of() matches Repr::Uint(u) ==> {
            let read = read_varint_field(value_wire(v));
            read.0 == 4 && read.1 == 0 && read.2 == u
        },
        v.repr_of() matches Repr::Double(f) ==> read_fixed64_field(value_wire(v)) == (5int, 1int, f.bits_of()),
        v.repr_of() matches Repr::String(s) ==> read_delimited_field(value_wire(v)) == (6int, 2int, text_bytes(s@)),
        v.repr_of() matches Repr::Bytes(b) ==> read_delimited_field(value_wire(v)) == (7int, 2int, b@),
        v.repr_of() matches Repr::Timestamp(t) ==> read_delimited_field(value_wire(v)) == (8int, 2int, timestamp_wire(t)),
        v.repr_of() matches Repr::List(vs) ==> read_delimited_field(value_wire(v)) == (9int, 2int, list_wire(vs@, v.depth_of(), 0)),
        v.repr_of() matches Repr::Entries(es) ==> read_delimited_field(value_wire(v)) == (
            10int,
            2int,
            entries_wire(es@, v.depth_of(), 0),
        ),
{
    match v.repr_of() {
        Repr::Null => {
            lemma_read_delimited_field(1, Seq::empty(), Seq::empty());
            assert(value_wire(v) + Seq::empty() =~= value_wire(v));
        },
        Repr::Bool(b) => {
            lemma_read_varint_field(2, if b { 1 } else { 0 }, Seq::empty());
            assert(value_wire(v) + Seq::empty() =~= value_wire(v));
        },
        Repr::Int(i) => {
            lemma_read_varint_field(3, zigzag(i), Seq::empty());
            assert(value_wire(v) + Seq::empty() =~= value_wire(v));
        },
        Repr::Uint(u) => {
            lemma_read_varint_field(4, u, Seq::empty());
            assert(value_wire(v) + Seq::empty() =~= value_wire(v));
        },
        Repr::Double(f) => lemma_read_fixed64_field(5, f.bits_of()),
        Repr::String(s) => {
            lemma_read_delimited_field(6, text_bytes(s@), Seq::empty());
            assert(value_wire(v) + Seq::empty() =~= value_wire(v));
        },
        Repr::Bytes(b) => {
            lemma_read_delimited_field(7, b@, Seq::empty());
            assert(value_wire(v) + Seq::empty() =~= value_wire(v));
        },
        Repr::Timestamp(t) => {
            lemma_varint_len((1 * 8 + 0) as u64);
            lemma_varint_len((2 * 8 + 0) as u64);
            lemma_varint_len(t.secs() as u64);
            lemma_varint_len(t.subsec() as u64);
            lemma_read_delimited_field(8, timestamp_wire(t), Seq::empty());
            assert(value_wire(v) + Seq::empty() =~= value_wire(v));
        },
        Repr::List(vs) => {
            lemma_read_delimited_field(9, list_wire(vs@, v.depth_of(), 0), Seq::empty());
            assert(value_wire(v) + Seq::empty() =~= value_wire(v));
        },
        Repr::Entries(es) => {
            lemma_read_delimited_field(10, entries_wire(es@, v.depth_of(), 0), Seq::empty());
            assert(value_wire(v) + Seq::empty() =~= value_wire(v));
        },
    }
}

/// The content stream labels a value with the same field number that its
/// wire form writes: the first four bytes of the stream, read little-endian,
/// are the field number of the wire key.
pub proof fn law_stream_label_is_wire_field(v: Value, n: NumericValue)
    requires
        v.repr_of() matches Repr::String(s) ==> text_bytes(s@).len() <= u64::MAX,
        v.repr_of() matches Repr::Bytes(b) ==> b@.len() <= u64::MAX,
        v.repr_of() matches Repr::List(vs) ==> list_wire(vs@, v.depth_of(), 0).len() <= u64::MAX,
        v.repr_of() matches Repr::Entries(es) ==> entries_wire(es@, v.depth_of(), 0).len() <= u64::MAX,
    ensures
        spec_u32_from_le_bytes(value_stream(v).subrange(0, 4)) as int == read_key(value_wire(v)).0,
        spec_u32_from_le_bytes(numeric_stream(n).subrange(0, 4)) as int == read_key(numeric_wire(n)).0,
{
    law_value_wire_reads_back(v);
    law_numeric_wire_reads_back(n);
    lemma_auto_spec_u32_to_from_le_bytes();
    let arm = crate::schema::digest::value_arm(v.repr_of());
    assert(spec_u32_to_le_bytes(arm).len() == 4);
    assert(value_stream(v).subrange(0, 4) =~= spec_u32_to_le_bytes(arm));
    let numeric_arm = crate::schema::digest::numeric_arm(n);
    assert(spec_u32_to_le_bytes(numeric_arm).len() == 4);
    assert(numeric_stream(n).subrange(0, 4) =~= spec_u32_to_le_bytes(numeric_arm));
}

/// An instant's message body reads back as the instant: first the seconds
/// under field 1 as a varint of their 64-bit two's complement, then the nanoseconds under
/// field 2.
pub proof fn law_timestamp_wire_reads_back(t: Timestamp)
    ensures
        ({
            let first = read_varint_field(timestamp_wire(t));
            let bytes = timestamp_wire(t);
            let second = read_varint_field(bytes.subrange(first.3, bytes.len() as int));
            &&& first.0 == 1 && first.1 == 0
            &&& 0 <= first.2 <= u64::MAX
            &&& (first.2 as u64) as i64 == t.secs()
            &&& second.0 == 2 && second.1 == 0 && second.2 == t.subsec()
        }),
{
    let f1 = varint_field(1, t.secs() as u64);
    let f2 = varint_field(2, t.subsec() as u64);
    lemma_read_varint_field(1, t.secs() as u64, f2);
    lemma_read_varint_field(2, t.subsec() as u64, Seq::empty());
    let bytes = timestamp_wire(t);
    assert(bytes == f1 + f2);
    let first = read_varint_field(bytes);
    assert(first == (1int, 0int, (t.secs() as u64) as int, f1.len() as int));
    assert(bytes.subrange(f1.len() as int, bytes.len() as int) =~= f2 + Seq::empty());
    let second = read_varint_field(bytes.subrange(first.3, bytes.len() as int));
    assert(second.2 == (t.subsec() as u64) as int);
    let secs = t.secs();
    assert(((secs as u64) as i64) == secs) by (bit_vector);
}

/// A numeric sample's message body reads back as the sample: the field of
/// its own arm, holding the double's bits, the signed integer through
/// zigzag, or the unsigned integer.
pub proof fn law_numeric_wire_reads_back(n: NumericValue)
    ensures
        n matches NumericValue::Double(f) ==> read_fixed64_field(numeric_wire(n)) == (1int, 1int, f.bits_of()),
        n matches NumericValue::Int(i) ==> {
            let read = read_varint_field(numeric_wire(n));
            read.0 == 2 && read.1 == 0 && unzigzag(read.2) == i
        },
        n matches NumericValue::Uint(u) ==> {
            let read = read_varint_field(numeric_wire(n));
            read.0 == 3 && read.1 == 0 && read.2 == u
        },
{
    match n {
        NumericValue::Double(f) => lemma_read_fixed64_field(1, f.bits_of()),
        NumericValue::Int(i) => {
            lemma_read_varint_field(2, zigzag(i), Seq::empty());
            assert(numeric_wire(n) + Seq::empty() =~= numeric_wire(n));
        },
        NumericValue::Uint(u) => {
            lemma_read_varint_field(3, u, Seq::empty());
            assert(numeric_wire(n) + Seq::empty() =~= numeric_wire(n));
        },
    }
}

/// Appends `value` as a varint, through `prost::encoding::encode_varint`.
///
/// Trusted: prost writes the low seven bits per byte, least significant
/// first, with the high bit set on every byte but the last, appending to
/// the vector; that is `varint_bytes`.
#[verifier::external_body]
fn write_varint(value: u64, buf: &mut Vec<u8>)
    ensures
        final(buf)@ == old(buf)@ + varint_bytes(value),
{
    prost::encoding::encode_varint(value, buf);
}

/// Appends a field key, through `prost::encoding::encode_key`.
///
/// Trusted: prost shifts the field number left by three, ors in the wire
/// type's number and writes the result with `encode_varint`; that is
/// `key_bytes`. Field numbers outside `1..=MAX_TAG` are left out.
#[verifier::external_body]
fn write_key(tag: u32, wire: WireKind, buf: &mut Vec<u8>)
    requires
        1 <= tag <= MAX_TAG,
    ensures
        final(buf)@ == old(buf)@ + key_bytes(tag, wire),
{
    let wire_type = match wire {
        WireKind::Varint => WireType::Varint,
        WireKind::SixtyFourBit => WireType::SixtyFourBit,
        WireKind::LengthDelimited => WireType::LengthDelimited,
    };
    prost::encoding::encode_key(tag, wire_type, buf);
}

/// Appends a varint field.
fn write_varint_field(tag: u32, value: u64, buf: &mut Vec<u8>)
    requires
        1 <= tag <= MAX_TAG,
    ensures
        final(buf)@ == old(buf)@ + varint_field(tag, value),
{
    let ghost start = buf@;
    write_key(tag, WireKind::Varint, buf);
    write_varint(value, buf);
    proof {
        assert(buf@ =~= start + varint_field(tag, value));
    }
}

/// Appends a fixed-width 64-bit field.
fn write_fixed64_field(tag: u32, value: u64, buf: &mut Vec<u8>)
    requires
        1 <= tag <= MAX_TAG,
    ensures
        final(buf)@ == old(buf)@ + fixed64_field(tag, value),
{
    let ghost start = buf@;
    write_key(tag, WireKind::SixtyFourBit, buf);
    let mut bytes = u64_to_le_bytes(value);
    buf.append(&mut bytes);
    proof {
        assert(buf@ =~= start + fixed64_field(tag, value));
    }
}

/// Appends a length-delimited field holding `body`.
fn write_delimited(tag: u32, body: Vec<u8>, buf: &mut Vec<u8>)
    requires
        1 <= tag <= MAX_TAG,
    ensures
        final(buf)@ == old(buf)@ + delimited_field(tag, body@),
{
    let ghost start = buf@;
    let mut body = body;
    let ghost whole = body@;
    write_key(tag, WireKind::LengthDelimited, buf);
    write_varint(body.len() as u64, buf);
    buf.append(&mut body);
    proof {
        assert(buf@ =~= start + delimited_field(tag, whole));
    }
}

/// Appends raw bytes.
fn write_bytes(bytes: &[u8], buf: &mut Vec<u8>)
    ensures
        final(buf)@ == old(buf)@ + bytes@,
{
    let ghost start = buf@;
    let mut i: usize = 0;
    while i < bytes.len()
        invariant
            i <= bytes@.len(),
            buf@ == start + bytes@.subrange(0, i as int),
        decreases bytes@.len() - i,
    {
        buf.push(bytes[i]);
        i = i + 1;
        proof {
            assert(bytes@.subrange(0, i as int) =~= bytes@.subrange(0, i - 1).push(bytes@[i - 1]));
        }
    }
    proof {
        assert(bytes@.subrange(0, i as int) =~= bytes@);
    }
}

/// Appends a length-delimited field holding a copy of `body`.
fn write_delimited_bytes(tag: u32, body: &[u8], buf: &mut Vec<u8>)
    requires
        1 <= tag <= MAX_TAG,
    ensures
        final(buf)@ == old(buf)@ + delimited_field(tag, body@),
{
    let mut copy: Vec<u8> = Vec::new();
    write_bytes(body, &mut copy);
    proof {
        assert(copy@ =~= body@);
    }
    write_delimited(tag, copy, buf);
}

/// The zigzag form of `v`.
fn zigzag_of(v: i64) -> (z: u64)
    ensures
        z == zigzag(v),
{
    if v >= 0 {
        (v as u64) * 2
    } else {
        let magnitude: u64 = (-(v + 1)) as u64;
        magnitude * 2 + 1
    }
}

impl Timestamp {
    /// Appends the instant's message body in protobuf wire form.
    pub fn emit(&self, buf: &mut Vec<u8>)
        ensures
            final(buf)@ == old(buf)@ + timestamp_wire(*self),
    {
        let ghost start = buf@;
        write_varint_field(1, self.seconds() as u64, buf);
        write_varint_field(2, self.nanos() as u64, buf);
        proof {
            assert(buf@ =~= start + timestamp_wire(*self));
        }
    }
}

impl NumericValue {
    /// Appends the sample's message body in protobuf wire form.
    pub fn emit(&self, buf: &mut Vec<u8>)
        ensures
            final(buf)@ == old(buf)@ + numeric_wire(*self),
    {
        match self {
            NumericValue::Double(value) => write_fixed64_field(1, value.to_bits(), buf),
            NumericValue::Int(value) => write_varint_field(2, zigzag_of(*value), buf),
            NumericValue::Uint(value) => write_varint_field(3, *value, buf),
        }
    }
}

impl Value {
    /// Appends the value's message body in protobuf wire form: the bytes a
    /// protobuf encoder writes for its wire form, map entries in key order.
    pub fn emit(&self, buf: &mut Vec<u8>)
        ensures
            final(buf)@ == old(buf)@ + value_wire(*self),
        decreases self.depth_of(),
    {
        let ghost depth = self.depth_of();
        match self.kind() {
            ValueKind::Null => write_delimited(1, Vec::new(), buf),
            ValueKind::Bool(value) => write_varint_field(2, if value { 1 } else { 0 }, buf),
            ValueKind::Int(value) => write_varint_field(3, zigzag_of(value), buf),
            ValueKind::Uint(value) => write_varint_field(4, value, buf),
            ValueKind::Double(value) => write_fixed64_field(5, value.to_bits(), buf),
            ValueKind::String(value) => write_delimited_bytes(6, value.as_bytes(), buf),
            ValueKind::Bytes(value) => write_delimited_bytes(7, value, buf),
            ValueKind::Timestamp(value) => {
                let mut body: Vec<u8> = Vec::new();
                value.emit(&mut body);
                proof {
                    assert(body@ =~= timestamp_wire(value));
                }
                write_delimited(8, body, buf);
            },
            ValueKind::List(values) => {
                let ghost vs = values@;
                proof {
                    assert(self.repr_of()->List_0@ == vs);
                    assert(one_deeper(depth, vs));
                }
                let mut body: Vec<u8> = Vec::new();
                let mut i: usize = 0;
                while i < values.len()
                    invariant
                        i <= vs.len(),
                        vs == values@,
                        depth == self.depth_of(),
                        forall|k: int| 0 <= k < vs.len() ==> #[trigger] vs[k].depth_of() < depth,
                        body@ + list_wire(vs, depth, i as int) == list_wire(vs, depth, 0),
                    decreases vs.len() - i,
                {
                    let element = &values[i];
                    proof {
                        assert(*element == vs[i as int]);
                    }
                    let ghost before = body@;
                    let mut inner: Vec<u8> = Vec::new();
                    element.emit(&mut inner);
                    proof {
                        assert(inner@ =~= value_wire(vs[i as int]));
                    }
                    write_delimited(1, inner, &mut body);
                    proof {
                        assert(before + list_wire(vs, depth, i as int) =~= body@ + list_wire(vs, depth, i + 1));
                    }
                    i = i + 1;
                }
                proof {
                    assert(body@ + list_wire(vs, depth, i as int) =~= body@);
                }
                write_delimited(9, body, buf);
            },
            ValueKind::Entries(entries) => {
                let ghost es = entries@;
                proof {
                    assert(self.repr_of()->Entries_0@ == es);
                    let values = entry_values(es);
                    assert(one_deeper(depth, values));
                    assert forall|k: int| 0 <= k < es.len() implies #[trigger] es[k].1.depth_of() < depth by {
                        assert(values[k] == es[k].1);
                    }
                }
                let mut body: Vec<u8> = Vec::new();
                let mut i: usize = 0;
                while i < entries.len()
                    invariant
                        i <= es.len(),
                        es == entries@,
                        depth == self.depth_of(),
                        forall|k: int| 0 <= k < es.len() ==> #[trigger] es[k].1.depth_of() < depth,
                        body@ + entries_wire(es, depth, i as int) == entries_wire(es, depth, 0),
                    decreases es.len() - i,
                {
                    let entry = &entries[i];
                    proof {
                        assert(*entry == es[i as int]);
                    }
                    let ghost before = body@;
                    let mut inner: Vec<u8> = Vec::new();
                    entry.1.emit(&mut inner);
                    let ghost value_bytes = inner@;
                    proof {
                        assert(value_bytes =~= value_wire(es[i as int].1));
                    }
                    let mut pair: Vec<u8> = Vec::new();
                    write_delimited_bytes(1, entry.0.as_str().as_bytes(), &mut pair);
                    write_delimited(2, inner, &mut pair);
                    proof {
                        assert(pair@ =~= entry_wire(es[i as int].0@, value_bytes));
                    }
                    write_delimited(1, pair, &mut body);
                    proof {
                        assert(before + entries_wire(es, depth, i as int) =~= body@ + entries_wire(es, depth, i + 1));
                    }
                    i = i + 1;
                }
                proof {
                    assert(body@ + entries_wire(es, depth, i as int) =~= body@);
                }
                write_delimited(10, body, buf);
            },
        }
    }
}

} // verus!
