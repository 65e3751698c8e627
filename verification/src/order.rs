//! Lexicographic ordering of byte strings and of sequences of byte strings.
//!
//! Every ordered identity in the model (names, subjects, relation triples)
//! orders by the UTF-8 bytes of its text, field by field. The spec order here
//! is what the sorted collections are sorted by and what their searches rely
//! on; the executable comparisons are proved to compute it.

use vstd::prelude::*;

verus! {

/// The outcome of a three-way comparison.
#[derive(Clone, Copy, Debug, PartialEq, Eq, Structural)]
pub enum Order {
    Less,
    Equal,
    Greater,
}

/// Lexicographic strict order on sequences, given a strict order on elements.
pub open spec fn lex_lt<A>(a: Seq<A>, b: Seq<A>, lt: spec_fn(A, A) -> bool) -> bool
    decreases a.len(),
{
    if a.len() == 0 {
        b.len() > 0
    } else if b.len() == 0 {
        false
    } else if lt(a[0], b[0]) {
        true
    } else if a[0] == b[0] {
        lex_lt(a.drop_first(), b.drop_first(), lt)
    } else {
        false
    }
}

/// `lt` is irreflexive, transitive, and trichotomous.
pub open spec fn strict_total<A>(lt: spec_fn(A, A) -> bool) -> bool {
    &&& forall|x: A| !#[trigger] lt(x, x)
    &&& forall|x: A, y: A, z: A| #[trigger] lt(x, y) && #[trigger] lt(y, z) ==> lt(x, z)
    &&& forall|x: A, y: A| x == y || #[trigger] lt(x, y) || #[trigger] lt(y, x)
}

pub open spec fn byte_order() -> spec_fn(u8, u8) -> bool {
    |x: u8, y: u8| x < y
}

/// Lexicographic order of byte strings: the order of `str`.
pub open spec fn bytes_lt(a: Seq<u8>, b: Seq<u8>) -> bool {
    lex_lt(a, b, byte_order())
}

pub open spec fn field_order() -> spec_fn(Seq<u8>, Seq<u8>) -> bool {
    |a: Seq<u8>, b: Seq<u8>| bytes_lt(a, b)
}

/// Field-by-field lexicographic order of keys made of byte strings.
pub open spec fn key_lt(a: Seq<Seq<u8>>, b: Seq<Seq<u8>>) -> bool {
    lex_lt(a, b, field_order())
}

/// The three-way comparison a strict order induces.
pub open spec fn three_way(lt_ab: bool, lt_ba: bool) -> Order {
    if lt_ab {
        Order::Less
    } else if lt_ba {
        Order::Greater
    } else {
        Order::Equal
    }
}

pub open spec fn order_of_bytes(a: Seq<u8>, b: Seq<u8>) -> Order {
    three_way(bytes_lt(a, b), bytes_lt(b, a))
}

pub open spec fn order_of_keys(a: Seq<Seq<u8>>, b: Seq<Seq<u8>>) -> Order {
    three_way(key_lt(a, b), key_lt(b, a))
}

/// The UTF-8 bytes of a text, which its order is taken over.
pub open spec fn text_bytes(text: Seq<char>) -> Seq<u8> {
    vstd::utf8::encode_utf8(text)
}

proof fn lemma_lex_irreflexive<A>(a: Seq<A>, lt: spec_fn(A, A) -> bool)
    requires
        strict_total(lt),
    ensures
        !lex_lt(a, a, lt),
    decreases a.len(),
{
    if a.len() > 0 {
        lemma_lex_irreflexive(a.drop_first(), lt);
    }
}

proof fn lemma_lex_transitive<A>(a: Seq<A>, b: Seq<A>, c: Seq<A>, lt: spec_fn(A, A) -> bool)
    requires
        strict_total(lt),
        lex_lt(a, b, lt),
        lex_lt(b, c, lt),
    ensures
        lex_lt(a, c, lt),
    decreases a.len(),
{
    if a.len() > 0 && b.len() > 0 && c.len() > 0 {
        if a[0] == b[0] && b[0] == c[0] {
            lemma_lex_transitive(a.drop_first(), b.drop_first(), c.drop_first(), lt);
        } else if lt(a[0], b[0]) && lt(b[0], c[0]) {
            assert(lt(a[0], c[0]));
        }
    }
}

proof fn lemma_lex_trichotomous<A>(a: Seq<A>, b: Seq<A>, lt: spec_fn(A, A) -> bool)
    requires
        strict_total(lt),
    ensures
        a == b || lex_lt(a, b, lt) || lex_lt(b, a, lt),
    decreases a.len(),
{
    if a.len() > 0 && b.len() > 0 {
        assert(a[0] == b[0] || lt(a[0], b[0]) || lt(b[0], a[0]));
        if a[0] == b[0] {
            lemma_lex_trichotomous(a.drop_first(), b.drop_first(), lt);
            if a.drop_first() == b.drop_first() {
                assert(a =~= seq![a[0]] + a.drop_first());
                assert(b =~= seq![b[0]] + b.drop_first());
            }
        }
    } else if a.len() == 0 && b.len() == 0 {
        assert(a =~= b);
    }
}

/// The lexicographic extension of a strict total order is one.
pub proof fn lemma_lex_strict_total<A>(lt: spec_fn(A, A) -> bool)
    requires
        strict_total(lt),
    ensures
        strict_total(|a: Seq<A>, b: Seq<A>| lex_lt(a, b, lt)),
{
    let f = |a: Seq<A>, b: Seq<A>| lex_lt(a, b, lt);
    assert forall|x: Seq<A>| !#[trigger] f(x, x) by {
        lemma_lex_irreflexive(x, lt);
    }
    assert forall|x: Seq<A>, y: Seq<A>, z: Seq<A>| #[trigger] f(x, y) && #[trigger] f(y, z) implies f(
        x,
        z,
    ) by {
        lemma_lex_transitive(x, y, z, lt);
    }
    assert forall|x: Seq<A>, y: Seq<A>| x == y || #[trigger] f(x, y) || #[trigger] f(y, x) by {
        lemma_lex_trichotomous(x, y, lt);
    }
}

pub proof fn lemma_byte_order_strict_total()
    ensures
        strict_total(byte_order()),
{
}

/// The order on byte strings is a strict total order.
pub proof fn lemma_bytes_strict_total()
    ensures
        strict_total(field_order()),
{
    lemma_lex_strict_total(byte_order());
    let f = |a: Seq<u8>, b: Seq<u8>| lex_lt(a, b, byte_order());
    assert(field_order() =~= f);
}

/// The order on keys is a strict total order.
pub proof fn lemma_keys_strict_total()
    ensures
        strict_total(|a: Seq<Seq<u8>>, b: Seq<Seq<u8>>| key_lt(a, b)),
{
    lemma_bytes_strict_total();
    lemma_lex_strict_total(field_order());
    let f = |a: Seq<Seq<u8>>, b: Seq<Seq<u8>>| lex_lt(a, b, field_order());
    let g = |a: Seq<Seq<u8>>, b: Seq<Seq<u8>>| key_lt(a, b);
    assert(f =~= g);
}

pub proof fn lemma_bytes_facts(a: Seq<u8>, b: Seq<u8>, c: Seq<u8>)
    ensures
        !bytes_lt(a, a),
        bytes_lt(a, b) && bytes_lt(b, c) ==> bytes_lt(a, c),
        a == b || bytes_lt(a, b) || bytes_lt(b, a),
{
    lemma_bytes_strict_total();
    assert(field_order()(a, a) == bytes_lt(a, a));
    assert(field_order()(a, b) == bytes_lt(a, b));
    assert(field_order()(b, a) == bytes_lt(b, a));
    assert(field_order()(b, c) == bytes_lt(b, c));
    assert(field_order()(a, c) == bytes_lt(a, c));
}

pub proof fn lemma_keys_facts(a: Seq<Seq<u8>>, b: Seq<Seq<u8>>, c: Seq<Seq<u8>>)
    ensures
        !key_lt(a, a),
        key_lt(a, b) && key_lt(b, c) ==> key_lt(a, c),
        a == b || key_lt(a, b) || key_lt(b, a),
{
    lemma_keys_strict_total();
    let g = |a: Seq<Seq<u8>>, b: Seq<Seq<u8>>| key_lt(a, b);
    assert(g(a, a) == key_lt(a, a));
    assert(g(a, b) == key_lt(a, b));
    assert(g(b, a) == key_lt(b, a));
    assert(g(b, c) == key_lt(b, c));
    assert(g(a, c) == key_lt(a, c));
}

/// Text equality is byte equality, since UTF-8 encoding is injective.
pub proof fn lemma_text_bytes_injective(a: Seq<char>, b: Seq<char>)
    ensures
        (text_bytes(a) == text_bytes(b)) == (a == b),
{
    vstd::utf8::encode_utf8_decode_utf8(a);
    vstd::utf8::encode_utf8_decode_utf8(b);
}

/// Comparing equal prefixes leaves the comparison of what follows.
proof fn lemma_lex_skip_prefix<A>(a: Seq<A>, b: Seq<A>, i: int, lt: spec_fn(A, A) -> bool)
    requires
        strict_total(lt),
        0 <= i <= a.len(),
        i <= b.len(),
        a.subrange(0, i) == b.subrange(0, i),
    ensures
        lex_lt(a, b, lt) == lex_lt(a.subrange(i, a.len() as int), b.subrange(i, b.len() as int), lt),
    decreases i,
{
    if i == 0 {
        assert(a.subrange(0, a.len() as int) =~= a);
        assert(b.subrange(0, b.len() as int) =~= b);
    } else {
        assert(a[0] == a.subrange(0, i)[0]);
        assert(b[0] == b.subrange(0, i)[0]);
        assert(!lt(a[0], a[0]));
        let a1 = a.drop_first();
        let b1 = b.drop_first();
        assert(a1.subrange(0, i - 1) =~= a.subrange(0, i).drop_first());
        assert(b1.subrange(0, i - 1) =~= b.subrange(0, i).drop_first());
        lemma_lex_skip_prefix(a1, b1, i - 1, lt);
        assert(a1.subrange(i - 1, a1.len() as int) =~= a.subrange(i, a.len() as int));
        assert(b1.subrange(i - 1, b1.len() as int) =~= b.subrange(i, b.len() as int));
    }
}

/// Compares two byte strings in the order of `str`.
pub fn compare_bytes(a: &[u8], b: &[u8]) -> (c: Order)
    ensures
        c == order_of_bytes(a@, b@),
        (c == Order::Equal) == (a@ == b@),
{
    proof {
        lemma_byte_order_strict_total();
        lemma_bytes_facts(a@, b@, b@);
    }
    let mut i: usize = 0;
    while i < a.len() && i < b.len()
        invariant
            0 <= i <= a.len(),
            i <= b.len(),
            a@.subrange(0, i as int) == b@.subrange(0, i as int),
            strict_total(byte_order()),
        decreases a.len() - i,
    {
        if a[i] != b[i] {
            proof {
                lemma_lex_skip_prefix(a@, b@, i as int, byte_order());
                lemma_lex_skip_prefix(b@, a@, i as int, byte_order());
                let sa = a@.subrange(i as int, a@.len() as int);
                let sb = b@.subrange(i as int, b@.len() as int);
                assert(sa[0] == a@[i as int]);
                assert(sb[0] == b@[i as int]);
            }
            if a[i] < b[i] {
                return Order::Less;
            } else {
                return Order::Greater;
            }
        }
        proof {
            assert(a@.subrange(0, i + 1) =~= a@.subrange(0, i as int).push(a@[i as int]));
            assert(b@.subrange(0, i + 1) =~= b@.subrange(0, i as int).push(b@[i as int]));
        }
        i = i + 1;
    }
    proof {
        lemma_lex_skip_prefix(a@, b@, i as int, byte_order());
        lemma_lex_skip_prefix(b@, a@, i as int, byte_order());
        if i == a.len() && i == b.len() {
            assert(a@ =~= a@.subrange(0, i as int));
            assert(b@ =~= b@.subrange(0, i as int));
        }
    }
    if a.len() < b.len() {
        Order::Less
    } else if a.len() > b.len() {
        Order::Greater
    } else {
        Order::Equal
    }
}

/// Compares two texts by their UTF-8 bytes, the order of `str`.
pub fn compare_text(a: &str, b: &str) -> (c: Order)
    ensures
        c == order_of_bytes(text_bytes(a@), text_bytes(b@)),
        (c == Order::Equal) == (a@ == b@),
{
    let x = a.as_bytes();
    let y = b.as_bytes();
    proof {
        lemma_text_bytes_injective(a@, b@);
    }
    compare_bytes(x, y)
}

/// A two-field key compares as its first field, then its second.
pub proof fn lemma_key2(a0: Seq<u8>, a1: Seq<u8>, b0: Seq<u8>, b1: Seq<u8>)
    ensures
        key_lt(seq![a0, a1], seq![b0, b1]) == (bytes_lt(a0, b0) || (a0 == b0 && bytes_lt(a1, b1))),
{
    let a = seq![a0, a1];
    let b = seq![b0, b1];
    lemma_bytes_facts(a0, b0, b0);
    assert(a.drop_first() =~= seq![a1]);
    assert(b.drop_first() =~= seq![b1]);
    assert(seq![a1].drop_first() =~= Seq::<Seq<u8>>::empty());
    assert(seq![b1].drop_first() =~= Seq::<Seq<u8>>::empty());
    reveal_with_fuel(lex_lt, 3);
}

/// A key made of two parts of fixed width compares as its first part, then
/// its second.
pub proof fn lemma_key_concat(p: Seq<Seq<u8>>, r: Seq<Seq<u8>>, q: Seq<Seq<u8>>, s: Seq<Seq<u8>>)
    requires
        p.len() == q.len(),
    ensures
        key_lt(p + r, q + s) == (key_lt(p, q) || (p == q && key_lt(r, s))),
        (p + r == q + s) == (p == q && r == s),
    decreases p.len(),
{
    if p.len() == 0 {
        assert(p + r =~= r);
        assert(q + s =~= s);
        assert(p =~= q);
    } else {
        lemma_bytes_facts(p[0], q[0], q[0]);
        let pr = p + r;
        let qs = q + s;
        assert(pr[0] == p[0]);
        assert(qs[0] == q[0]);
        assert(pr.drop_first() =~= p.drop_first() + r);
        assert(qs.drop_first() =~= q.drop_first() + s);
        lemma_key_concat(p.drop_first(), r, q.drop_first(), s);
        assert(p =~= seq![p[0]] + p.drop_first());
        assert(q =~= seq![q[0]] + q.drop_first());
        if pr == qs {
            assert(pr[0] == qs[0]);
            assert(pr.drop_first() == qs.drop_first());
        }
        if p == q && r == s {
            assert(pr =~= qs);
        }
        if p[0] == q[0] && p.drop_first() == q.drop_first() {
            assert(p =~= q);
        }
        if p == q {
            assert(p.drop_first() =~= q.drop_first());
        }
    }
}

/// The sort key of a value keyed by a single text.
pub open spec fn single_key(key: Seq<char>) -> Seq<Seq<u8>> {
    seq![text_bytes(key)]
}

pub proof fn lemma_single_key(a: Seq<char>, b: Seq<char>)
    ensures
        (single_key(a) == single_key(b)) == (a == b),
        key_lt(single_key(a), single_key(b)) == bytes_lt(text_bytes(a), text_bytes(b)),
{
    lemma_text_bytes_injective(a, b);
    if single_key(a) == single_key(b) {
        assert(single_key(a)[0] == single_key(b)[0]);
    }
    assert(single_key(a).drop_first() =~= Seq::<Seq<u8>>::empty());
    assert(single_key(b).drop_first() =~= Seq::<Seq<u8>>::empty());
    lemma_bytes_facts(text_bytes(a), text_bytes(b), text_bytes(b));
    reveal_with_fuel(lex_lt, 2);
}

} // verus!
