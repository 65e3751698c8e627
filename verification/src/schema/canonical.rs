//! The canonical total order of the value vocabulary.
//!
//! Values of different arms order by the arm's field number; values of one
//! arm by their payload: booleans false first, integers numerically, doubles
//! by IEEE 754 `totalOrder`, text and bytes lexicographically by byte,
//! instants by seconds then nanoseconds, lists element by element with a
//! shorter prefix first, and maps entry by entry, key before value, with a
//! shorter prefix first. Sorting by it is deterministic: two values tie only
//! when their content is the same, and then their content streams are equal
//! too, so a tie can never move a hash.

use vstd::prelude::*;

use crate::order::{Order, bytes_lt, compare_bytes, compare_text, lemma_bytes_facts, lemma_text_bytes_injective, order_of_bytes, text_bytes};
use crate::telemetry::time::lemma_split_order;
use crate::telemetry::number::Finite;
use crate::schema::digest::{
    digestible, entries_digestible, entries_stream, list_digestible, list_stream, same_entries, same_list, same_value, value_arm, value_stream,
};
use crate::schema::value_tree::{Repr, Value, ValueKind, entry_values, one_deeper};

verus! {

/// Two mathematical integers, compared.
pub open spec fn int_order(a: int, b: int) -> Order {
    if a < b {
        Order::Less
    } else if a > b {
        Order::Greater
    } else {
        Order::Equal
    }
}

/// The comparison read the other way round.
pub open spec fn flip(o: Order) -> Order {
    match o {
        Order::Less => Order::Greater,
        Order::Equal => Order::Equal,
        Order::Greater => Order::Less,
    }
}

/// A boolean as a number, false first.
pub open spec fn bool_rank(b: bool) -> int {
    if b {
        1
    } else {
        0
    }
}

/// The canonical order of two values.
pub open spec fn value_order(a: Value, b: Value) -> Order
    decreases a.depth_of(), 1nat,
{
    match (a.repr_of(), b.repr_of()) {
        (Repr::Null, Repr::Null) => Order::Equal,
        (Repr::Bool(x), Repr::Bool(y)) => int_order(bool_rank(x), bool_rank(y)),
        (Repr::Int(x), Repr::Int(y)) => int_order(x as int, y as int),
        (Repr::Uint(x), Repr::Uint(y)) => int_order(x as int, y as int),
        (Repr::Double(x), Repr::Double(y)) => int_order(x.order_key(), y.order_key()),
        (Repr::String(x), Repr::String(y)) => order_of_bytes(text_bytes(x@), text_bytes(y@)),
        (Repr::Bytes(x), Repr::Bytes(y)) => order_of_bytes(x@, y@),
        (Repr::Timestamp(x), Repr::Timestamp(y)) => if x.secs() != y.secs() {
            int_order(x.secs() as int, y.secs() as int)
        } else {
            int_order(x.subsec() as int, y.subsec() as int)
        },
        (Repr::List(xs), Repr::List(ys)) => list_order(xs@, ys@, a.depth_of(), 0),
        (Repr::Entries(xs), Repr::Entries(ys)) => entries_order(xs@, ys@, a.depth_of(), 0),
        _ => int_order(value_arm(a.repr_of()) as int, value_arm(b.repr_of()) as int),
    }
}

/// The order of two lists from position `from` on: the first element pair
/// that differs decides, and where one list runs out first it comes first.
pub open spec fn list_order(xs: Seq<Value>, ys: Seq<Value>, depth: nat, from: int) -> Order
    decreases depth, 0nat, xs.len() - from,
{
    if 0 <= from < xs.len() && from < ys.len() && xs[from].depth_of() < depth {
        let here = value_order(xs[from], ys[from]);
        if here != Order::Equal {
            here
        } else {
            list_order(xs, ys, depth, from + 1)
        }
    } else {
        int_order(xs.len() as int, ys.len() as int)
    }
}

/// The order of two maps' entries from position `from` on: the first entry
/// pair that differs, by key and then by value, decides, and where one map
/// runs out first it comes first.
pub open spec fn entries_order(xs: Seq<(String, Value)>, ys: Seq<(String, Value)>, depth: nat, from: int) -> Order
    decreases depth, 0nat, xs.len() - from,
{
    if 0 <= from < xs.len() && from < ys.len() && xs[from].1.depth_of() < depth {
        let keys = order_of_bytes(text_bytes(xs[from].0@), text_bytes(ys[from].0@));
        if keys != Order::Equal {
            keys
        } else {
            let here = value_order(xs[from].1, ys[from].1);
            if here != Order::Equal {
                here
            } else {
                entries_order(xs, ys, depth, from + 1)
            }
        }
    } else {
        int_order(xs.len() as int, ys.len() as int)
    }
}

/// Byte strings order as a total order: flipping the arguments flips the
/// comparison, a tie is equality, and the order chains.
proof fn lemma_bytes_order(x: Seq<u8>, y: Seq<u8>, z: Seq<u8>)
    ensures
        order_of_bytes(y, x) == flip(order_of_bytes(x, y)),
        (order_of_bytes(x, y) == Order::Equal) == (x == y),
        order_of_bytes(x, y) == Order::Less && order_of_bytes(y, z) == Order::Less ==> order_of_bytes(x, z) == Order::Less,
        order_of_bytes(x, y) == Order::Equal ==> order_of_bytes(x, z) == order_of_bytes(y, z),
        order_of_bytes(y, z) == Order::Equal ==> order_of_bytes(x, y) == order_of_bytes(x, z),
{
    lemma_bytes_facts(x, y, x);
    lemma_bytes_facts(x, y, z);
    lemma_bytes_facts(y, x, z);
    lemma_bytes_facts(z, y, x);
    lemma_bytes_facts(x, z, y);
    lemma_bytes_facts(y, z, x);
    lemma_bytes_facts(z, x, y);
}

/// Two doubles tie in `totalOrder` exactly when their bits are equal.
proof fn lemma_order_key_injective(a: Finite, b: Finite)
    ensures
        (a.order_key() == b.order_key()) == (a.bits_of() == b.bits_of()),
{
}

/// Over digestible values, reading a comparison the other way round flips
/// it, and a tie means the same content.
proof fn lemma_value_flip(a: Value, b: Value)
    requires
        digestible(a),
        digestible(b),
    ensures
        value_order(b, a) == flip(value_order(a, b)),
        (value_order(a, b) == Order::Equal) == same_value(a, b),
    decreases a.depth_of(), 1nat,
{
    match (a.repr_of(), b.repr_of()) {
        (Repr::Double(x), Repr::Double(y)) => lemma_order_key_injective(x, y),
        (Repr::String(x), Repr::String(y)) => {
            lemma_bytes_order(text_bytes(x@), text_bytes(y@), text_bytes(y@));
            lemma_text_bytes_injective(x@, y@);
        },
        (Repr::Bytes(x), Repr::Bytes(y)) => lemma_bytes_order(x@, y@, y@),
        (Repr::List(xs), Repr::List(ys)) => lemma_list_flip(xs@, ys@, a.depth_of(), b.depth_of(), 0),
        (Repr::Entries(xs), Repr::Entries(ys)) => lemma_entries_flip(xs@, ys@, a.depth_of(), b.depth_of(), 0),
        _ => {},
    }
}

/// The list form of [`lemma_value_flip`], from position `from` on.
proof fn lemma_list_flip(xs: Seq<Value>, ys: Seq<Value>, da: nat, db: nat, from: int)
    requires
        0 <= from <= xs.len(),
        from <= ys.len(),
        list_digestible(xs, da, from),
        list_digestible(ys, db, from),
    ensures
        list_order(ys, xs, db, from) == flip(list_order(xs, ys, da, from)),
        (list_order(xs, ys, da, from) == Order::Equal) == (xs.len() == ys.len() && same_list(xs, ys, da, from)),
    decreases da, 0nat, xs.len() - from,
{
    if from < xs.len() && from < ys.len() {
        lemma_value_flip(xs[from], ys[from]);
        lemma_list_flip(xs, ys, da, db, from + 1);
    }
}

/// The map form of [`lemma_value_flip`], from position `from` on.
proof fn lemma_entries_flip(xs: Seq<(String, Value)>, ys: Seq<(String, Value)>, da: nat, db: nat, from: int)
    requires
        0 <= from <= xs.len(),
        from <= ys.len(),
        entries_digestible(xs, da, from),
        entries_digestible(ys, db, from),
    ensures
        entries_order(ys, xs, db, from) == flip(entries_order(xs, ys, da, from)),
        (entries_order(xs, ys, da, from) == Order::Equal) == (xs.len() == ys.len() && same_entries(xs, ys, da, from)),
    decreases da, 0nat, xs.len() - from,
{
    if from < xs.len() && from < ys.len() {
        lemma_bytes_order(text_bytes(xs[from].0@), text_bytes(ys[from].0@), text_bytes(ys[from].0@));
        lemma_text_bytes_injective(xs[from].0@, ys[from].0@);
        lemma_value_flip(xs[from].1, ys[from].1);
        lemma_entries_flip(xs, ys, da, db, from + 1);
    }
}

/// Over digestible values the order chains: a tie on either side can be
/// passed through, and two steps down make one.
proof fn lemma_value_chain(a: Value, b: Value, c: Value)
    requires
        digestible(a),
        digestible(b),
        digestible(c),
    ensures
        value_order(a, b) == Order::Equal ==> value_order(a, c) == value_order(b, c),
        value_order(b, c) == Order::Equal ==> value_order(a, b) == value_order(a, c),
        value_order(a, b) == Order::Less && value_order(b, c) == Order::Less ==> value_order(a, c) == Order::Less,
    decreases a.depth_of(), 1nat,
{
    match (a.repr_of(), b.repr_of(), c.repr_of()) {
        (Repr::String(x), Repr::String(y), Repr::String(z)) => {
            lemma_bytes_order(text_bytes(x@), text_bytes(y@), text_bytes(z@));
        },
        (Repr::Bytes(x), Repr::Bytes(y), Repr::Bytes(z)) => lemma_bytes_order(x@, y@, z@),
        (Repr::List(xs), Repr::List(ys), Repr::List(zs)) => {
            lemma_list_chain(xs@, ys@, zs@, a.depth_of(), b.depth_of(), c.depth_of(), 0);
        },
        (Repr::Entries(xs), Repr::Entries(ys), Repr::Entries(zs)) => {
            lemma_entries_chain(xs@, ys@, zs@, a.depth_of(), b.depth_of(), c.depth_of(), 0);
        },
        _ => {},
    }
}

/// The list form of [`lemma_value_chain`], from position `from` on.
proof fn lemma_list_chain(xs: Seq<Value>, ys: Seq<Value>, zs: Seq<Value>, da: nat, db: nat, dc: nat, from: int)
    requires
        0 <= from <= xs.len(),
        from <= ys.len(),
        from <= zs.len(),
        list_digestible(xs, da, from),
        list_digestible(ys, db, from),
        list_digestible(zs, dc, from),
    ensures
        list_order(xs, ys, da, from) == Order::Equal ==> list_order(xs, zs, da, from) == list_order(ys, zs, db, from),
        list_order(ys, zs, db, from) == Order::Equal ==> list_order(xs, ys, da, from) == list_order(xs, zs, da, from),
        list_order(xs, ys, da, from) == Order::Less && list_order(ys, zs, db, from) == Order::Less ==> list_order(xs, zs, da, from)
            == Order::Less,
    decreases da, 0nat, xs.len() - from,
{
    if from < xs.len() && from < ys.len() && from < zs.len() {
        lemma_value_chain(xs[from], ys[from], zs[from]);
        lemma_list_chain(xs, ys, zs, da, db, dc, from + 1);
    }
}

/// The map form of [`lemma_value_chain`], from position `from` on.
proof fn lemma_entries_chain(
    xs: Seq<(String, Value)>,
    ys: Seq<(String, Value)>,
    zs: Seq<(String, Value)>,
    da: nat,
    db: nat,
    dc: nat,
    from: int,
)
    requires
        0 <= from <= xs.len(),
        from <= ys.len(),
        from <= zs.len(),
        entries_digestible(xs, da, from),
        entries_digestible(ys, db, from),
        entries_digestible(zs, dc, from),
    ensures
        entries_order(xs, ys, da, from) == Order::Equal ==> entries_order(xs, zs, da, from) == entries_order(ys, zs, db, from),
        entries_order(ys, zs, db, from) == Order::Equal ==> entries_order(xs, ys, da, from) == entries_order(xs, zs, da, from),
        entries_order(xs, ys, da, from) == Order::Less && entries_order(ys, zs, db, from) == Order::Less ==> entries_order(
            xs,
            zs,
            da,
            from,
        ) == Order::Less,
    decreases da, 0nat, xs.len() - from,
{
    if from < xs.len() && from < ys.len() && from < zs.len() {
        lemma_bytes_order(text_bytes(xs[from].0@), text_bytes(ys[from].0@), text_bytes(zs[from].0@));
        lemma_value_chain(xs[from].1, ys[from].1, zs[from].1);
        lemma_entries_chain(xs, ys, zs, da, db, dc, from + 1);
    }
}

/// Values of the same content have the same content stream.
proof fn lemma_same_stream(a: Value, b: Value)
    requires
        digestible(a),
        digestible(b),
        same_value(a, b),
    ensures
        value_stream(a) == value_stream(b),
    decreases a.depth_of(), 1nat,
{
    match (a.repr_of(), b.repr_of()) {
        (Repr::List(xs), Repr::List(ys)) => lemma_list_same_stream(xs@, ys@, a.depth_of(), b.depth_of(), 0),
        (Repr::Entries(xs), Repr::Entries(ys)) => lemma_entries_same_stream(xs@, ys@, a.depth_of(), b.depth_of(), 0),
        _ => {},
    }
}

/// The list form of [`lemma_same_stream`], from position `from` on.
proof fn lemma_list_same_stream(xs: Seq<Value>, ys: Seq<Value>, da: nat, db: nat, from: int)
    requires
        0 <= from <= xs.len(),
        xs.len() == ys.len(),
        list_digestible(xs, da, from),
        list_digestible(ys, db, from),
        same_list(xs, ys, da, from),
    ensures
        list_stream(xs, da, from) == list_stream(ys, db, from),
    decreases da, 0nat, xs.len() - from,
{
    if from < xs.len() {
        lemma_same_stream(xs[from], ys[from]);
        lemma_list_same_stream(xs, ys, da, db, from + 1);
    }
}

/// The map form of [`lemma_same_stream`], from position `from` on.
proof fn lemma_entries_same_stream(xs: Seq<(String, Value)>, ys: Seq<(String, Value)>, da: nat, db: nat, from: int)
    requires
        0 <= from <= xs.len(),
        xs.len() == ys.len(),
        entries_digestible(xs, da, from),
        entries_digestible(ys, db, from),
        same_entries(xs, ys, da, from),
    ensures
        entries_stream(xs, da, from) == entries_stream(ys, db, from),
    decreases da, 0nat, xs.len() - from,
{
    if from < xs.len() {
        lemma_same_stream(xs[from].1, ys[from].1);
        lemma_entries_same_stream(xs, ys, da, db, from + 1);
    }
}

/// The canonical order is antisymmetric: comparing the other way round
/// flips the answer, so every value ties with itself.
pub proof fn law_canonical_order_antisymmetric(a: Value, b: Value)
    requires
        digestible(a),
        digestible(b),
    ensures
        value_order(b, a) == flip(value_order(a, b)),
        value_order(a, a) == Order::Equal,
{
    lemma_value_flip(a, b);
    lemma_value_flip(a, a);
}

/// The canonical order agrees with content: two values tie exactly when
/// their content is the same.
pub proof fn law_canonical_tie_is_same_content(a: Value, b: Value)
    requires
        digestible(a),
        digestible(b),
    ensures
        (value_order(a, b) == Order::Equal) == same_value(a, b),
{
    lemma_value_flip(a, b);
}

/// The canonical order is transitive, so sorting by it is well defined.
pub proof fn law_canonical_order_transitive(a: Value, b: Value, c: Value)
    requires
        digestible(a),
        digestible(b),
        digestible(c),
    ensures
        value_order(a, b) != Order::Greater && value_order(b, c) != Order::Greater ==> value_order(a, c) != Order::Greater,
        value_order(a, b) == Order::Less && value_order(b, c) == Order::Less ==> value_order(a, c) == Order::Less,
{
    lemma_value_chain(a, b, c);
}

/// A tie in the canonical order cannot move a hash: values that tie have
/// the same content stream.
pub proof fn law_canonical_tie_same_stream(a: Value, b: Value)
    requires
        digestible(a),
        digestible(b),
        value_order(a, b) == Order::Equal,
    ensures
        value_stream(a) == value_stream(b),
{
    lemma_value_flip(a, b);
    lemma_same_stream(a, b);
}

/// Within one arm the canonical order is the payload's natural order: false
/// before true, integers by value, doubles by IEEE 754 `totalOrder`, text by
/// its UTF-8 bytes and bytes lexicographically, instants chronologically;
/// across arms it is the order of the arms' field numbers.
pub proof fn law_canonical_order_within_arms(a: Value, b: Value)
    ensures
        (a.repr_of(), b.repr_of()) matches (Repr::Bool(x), Repr::Bool(y)) ==> (value_order(a, b) == Order::Less) == (!x && y),
        (a.repr_of(), b.repr_of()) matches (Repr::Int(x), Repr::Int(y)) ==> (value_order(a, b) == Order::Less) == (x < y),
        (a.repr_of(), b.repr_of()) matches (Repr::Uint(x), Repr::Uint(y)) ==> (value_order(a, b) == Order::Less) == (x < y),
        (a.repr_of(), b.repr_of()) matches (Repr::Double(x), Repr::Double(y)) ==> (value_order(a, b) == Order::Less) == (x.order_key()
            < y.order_key()),
        (a.repr_of(), b.repr_of()) matches (Repr::String(x), Repr::String(y)) ==> (value_order(a, b) == Order::Less) == bytes_lt(
            text_bytes(x@),
            text_bytes(y@),
        ),
        (a.repr_of(), b.repr_of()) matches (Repr::Bytes(x), Repr::Bytes(y)) ==> (value_order(a, b) == Order::Less) == bytes_lt(
            x@,
            y@,
        ),
        (a.repr_of(), b.repr_of()) matches (Repr::Timestamp(x), Repr::Timestamp(y)) ==> (x.subsec() < 1_000_000_000 && y.subsec()
            < 1_000_000_000 ==> (value_order(a, b) == Order::Less) == (x.at_nanos() < y.at_nanos()) && (value_order(a, b)
            == Order::Equal) == (x.at_nanos() == y.at_nanos())),
        value_arm(a.repr_of()) != value_arm(b.repr_of()) ==> (value_order(a, b) == Order::Less) == (value_arm(a.repr_of())
            < value_arm(b.repr_of())),
{
    match (a.repr_of(), b.repr_of()) {
        (Repr::String(x), Repr::String(y)) => {
            lemma_bytes_facts(text_bytes(x@), text_bytes(y@), text_bytes(x@));
        },
        (Repr::Bytes(x), Repr::Bytes(y)) => {
            lemma_bytes_facts(x@, y@, x@);
        },
        (Repr::Timestamp(x), Repr::Timestamp(y)) => {
            if x.subsec() < 1_000_000_000 && y.subsec() < 1_000_000_000 {
                lemma_split_order(x.secs() as int, x.subsec() as int, y.secs() as int, y.subsec() as int);
                lemma_split_order(y.secs() as int, y.subsec() as int, x.secs() as int, x.subsec() as int);
            }
        },
        _ => {},
    }
}

/// A list whose elements tie, position by position, with the start of a
/// longer list comes before it.
proof fn lemma_list_prefix_first(xs: Seq<Value>, ys: Seq<Value>, depth: nat, from: int)
    requires
        0 <= from <= xs.len() < ys.len(),
        list_digestible(xs, depth, from),
        forall|i: int| from <= i < xs.len() ==> value_order(#[trigger] xs[i], ys[i]) == Order::Equal,
    ensures
        list_order(xs, ys, depth, from) == Order::Less,
    decreases xs.len() - from,
{
    if from < xs.len() {
        lemma_list_prefix_first(xs, ys, depth, from + 1);
    }
}

/// Containers order element by element: two lists whose first elements
/// differ order as those elements, and a list that ties with the start of a
/// longer one comes first; two maps whose first keys differ order as those
/// keys' UTF-8 bytes.
pub proof fn law_canonical_order_of_containers(a: Value, b: Value)
    requires
        digestible(a),
    ensures
        (a.repr_of(), b.repr_of()) matches (Repr::List(xs), Repr::List(ys)) ==> (xs@.len() > 0 && ys@.len() > 0 && value_order(
            xs@[0],
            ys@[0],
        ) != Order::Equal ==> value_order(a, b) == value_order(xs@[0], ys@[0])),
        (a.repr_of(), b.repr_of()) matches (Repr::List(xs), Repr::List(ys)) ==> (xs@.len() < ys@.len() && (forall|i: int|
            0 <= i < xs@.len() ==> value_order(#[trigger] xs@[i], ys@[i]) == Order::Equal) ==> value_order(a, b) == Order::Less),
        (a.repr_of(), b.repr_of()) matches (Repr::Entries(xs), Repr::Entries(ys)) ==> (xs@.len() > 0 && ys@.len() > 0
            && xs@[0].0@ != ys@[0].0@ ==> (value_order(a, b) == Order::Less) == bytes_lt(text_bytes(xs@[0].0@), text_bytes(ys@[0].0@))),
{
    match (a.repr_of(), b.repr_of()) {
        (Repr::List(xs), Repr::List(ys)) => {
            if xs@.len() < ys@.len() && (forall|i: int| 0 <= i < xs@.len() ==> value_order(#[trigger] xs@[i], ys@[i]) == Order::Equal) {
                lemma_list_prefix_first(xs@, ys@, a.depth_of(), 0);
            }
        },
        (Repr::Entries(xs), Repr::Entries(ys)) => {
            if xs@.len() > 0 && ys@.len() > 0 {
                let kx = text_bytes(xs@[0].0@);
                let ky = text_bytes(ys@[0].0@);
                lemma_bytes_order(kx, ky, ky);
                lemma_text_bytes_injective(xs@[0].0@, ys@[0].0@);
            }
        },
        _ => {},
    }
}

/// Two unsigned integers, compared.
fn order_u64(a: u64, b: u64) -> (order: Order)
    ensures
        order == int_order(a as int, b as int),
{
    if a < b {
        Order::Less
    } else if a > b {
        Order::Greater
    } else {
        Order::Equal
    }
}

/// Two signed integers, compared.
fn order_i64(a: i64, b: i64) -> (order: Order)
    ensures
        order == int_order(a as int, b as int),
{
    if a < b {
        Order::Less
    } else if a > b {
        Order::Greater
    } else {
        Order::Equal
    }
}

impl Value {
    /// Compares two values in the canonical order.
    pub fn canonical_order(&self, other: &Value) -> (order: Order)
        ensures
            order == value_order(*self, *other),
        decreases self.depth_of(),
    {
        let ghost depth = self.depth_of();
        let left = self.kind();
        let right = other.kind();
        match (left, right) {
            (ValueKind::Null, ValueKind::Null) => Order::Equal,
            (ValueKind::Bool(x), ValueKind::Bool(y)) => {
                if x == y {
                    Order::Equal
                } else if y {
                    Order::Less
                } else {
                    Order::Greater
                }
            },
            (ValueKind::Int(x), ValueKind::Int(y)) => order_i64(x, y),
            (ValueKind::Uint(x), ValueKind::Uint(y)) => order_u64(x, y),
            (ValueKind::Double(x), ValueKind::Double(y)) => x.compare(y),
            (ValueKind::String(x), ValueKind::String(y)) => compare_text(x, y),
            (ValueKind::Bytes(x), ValueKind::Bytes(y)) => compare_bytes(x, y),
            (ValueKind::Timestamp(x), ValueKind::Timestamp(y)) => {
                let seconds = order_i64(x.seconds(), y.seconds());
                if seconds != Order::Equal {
                    seconds
                } else {
                    order_u64(x.nanos() as u64, y.nanos() as u64)
                }
            },
            (ValueKind::List(xs), ValueKind::List(ys)) => {
                proof {
                    assert(self.repr_of()->List_0@ == xs@);
                    assert(one_deeper(depth, xs@));
                }
                let mut i: usize = 0;
                while i < xs.len() && i < ys.len()
                    invariant
                        i <= xs@.len(),
                        i <= ys@.len(),
                        depth == self.depth_of(),
                        forall|k: int| 0 <= k < xs@.len() ==> #[trigger] xs@[k].depth_of() < depth,
                        list_order(xs@, ys@, depth, 0) == list_order(xs@, ys@, depth, i as int),
                        value_order(*self, *other) == list_order(xs@, ys@, depth, 0),
                    decreases xs@.len() - i,
                {
                    let here = xs[i].canonical_order(&ys[i]);
                    if here != Order::Equal {
                        return here;
                    }
                    i = i + 1;
                }
                order_u64(xs.len() as u64, ys.len() as u64)
            },
            (ValueKind::Entries(xs), ValueKind::Entries(ys)) => {
                proof {
                    assert(self.repr_of()->Entries_0@ == xs@);
                    let values = entry_values(xs@);
                    assert(one_deeper(depth, values));
                    assert forall|k: int| 0 <= k < xs@.len() implies #[trigger] xs@[k].1.depth_of() < depth by {
                        assert(values[k] == xs@[k].1);
                    }
                }
                let mut i: usize = 0;
                while i < xs.len() && i < ys.len()
                    invariant
                        i <= xs@.len(),
                        i <= ys@.len(),
                        depth == self.depth_of(),
                        forall|k: int| 0 <= k < xs@.len() ==> #[trigger] xs@[k].1.depth_of() < depth,
                        entries_order(xs@, ys@, depth, 0) == entries_order(xs@, ys@, depth, i as int),
                        value_order(*self, *other) == entries_order(xs@, ys@, depth, 0),
                    decreases xs@.len() - i,
                {
                    let keys = compare_text(xs[i].0.as_str(), ys[i].0.as_str());
                    if keys != Order::Equal {
                        return keys;
                    }
                    let here = xs[i].1.canonical_order(&ys[i].1);
                    if here != Order::Equal {
                        return here;
                    }
                    i = i + 1;
                }
                order_u64(xs.len() as u64, ys.len() as u64)
            },
            _ => order_u64(self.arm() as u64, other.arm() as u64),
        }
    }
}

} // verus!
