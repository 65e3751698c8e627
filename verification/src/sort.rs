//! Sorting by key and duplicate detection, shared by every sorted collection.
//!
//! Detection uses the same key order as the sort, so a collection cannot order
//! itself one way and check itself another.

use vstd::prelude::*;
use vstd::multiset::Multiset;

use crate::order::{Order, key_lt, order_of_keys, lemma_keys_facts, single_key, lemma_single_key, text_bytes};

verus! {

broadcast use vstd::seq_lib::group_to_multiset_ensures;

/// A value that sorts by a key of byte-string fields.
pub trait Keyed: Sized {
    spec fn key(&self) -> Seq<Seq<u8>>;

    fn compare_key(&self, other: &Self) -> (c: Order)
        ensures
            c == order_of_keys(self.key(), other.key()),
    ;
}

/// A value keyed by a single text.
pub trait TextKeyed: Keyed {
    spec fn text(&self) -> Seq<char>;

    fn text_str(&self) -> (text: &str)
        ensures
            text@ == self.text(),
    ;

    proof fn lemma_text_key(&self)
        ensures
            self.key() == single_key(self.text()),
    ;
}

/// Finds the element whose text is `text` in a strictly sorted sequence, by
/// binary search.
pub fn find_text<T: TextKeyed>(items: &Vec<T>, text: &str) -> (found: Option<usize>)
    requires
        strictly_sorted_by_key(items@),
    ensures
        match found {
            Some(i) => i < items.len() && items@[i as int].text() == text@,
            None => forall|i: int| 0 <= i < items.len() ==> #[trigger] items@[i].text() != text@,
        },
{
    let mut lo: usize = 0;
    let mut hi: usize = items.len();
    while lo < hi
        invariant
            0 <= lo <= hi <= items.len(),
            strictly_sorted_by_key(items@),
            forall|i: int| 0 <= i < lo ==> key_lt(#[trigger] items@[i].key(), single_key(text@)),
            forall|i: int| hi <= i < items.len() ==> key_lt(single_key(text@), #[trigger] items@[i].key()),
        decreases hi - lo,
    {
        let mid = lo + (hi - lo) / 2;
        let order = crate::order::compare_text(items[mid].text_str(), text);
        proof {
            let k = items@[mid as int].text();
            items@[mid as int].lemma_text_key();
            lemma_single_key(k, text@);
            lemma_single_key(text@, k);
            crate::order::lemma_bytes_facts(text_bytes(k), text_bytes(text@), text_bytes(k));
        }
        match order {
            Order::Equal => {
                return Some(mid);
            },
            Order::Less => {
                proof {
                    assert forall|i: int| 0 <= i <= mid implies key_lt(#[trigger] items@[i].key(), single_key(text@)) by {
                        if i < mid {
                            lemma_keys_facts(items@[i].key(), items@[mid as int].key(), single_key(text@));
                        }
                    }
                }
                lo = mid + 1;
            },
            Order::Greater => {
                proof {
                    assert forall|i: int| mid <= i < items.len() implies key_lt(single_key(text@), #[trigger] items@[i].key()) by {
                        if i > mid {
                            lemma_keys_facts(single_key(text@), items@[mid as int].key(), items@[i].key());
                        }
                    }
                }
                hi = mid;
            },
        }
    }
    proof {
        assert forall|i: int| 0 <= i < items.len() implies #[trigger] items@[i].text() != text@ by {
            items@[i].lemma_text_key();
            lemma_single_key(items@[i].text(), text@);
            lemma_keys_facts(single_key(text@), single_key(text@), single_key(text@));
        }
    }
    None
}

/// Non-decreasing by key.
pub open spec fn sorted_by_key<T: Keyed>(s: Seq<T>) -> bool {
    forall|i: int, j: int| 0 <= i < j < s.len() ==> !key_lt(#[trigger] s[j].key(), #[trigger] s[i].key())
}

/// Strictly increasing by key: sorted, and no key repeated.
pub open spec fn strictly_sorted_by_key<T: Keyed>(s: Seq<T>) -> bool {
    forall|i: int, j: int| 0 <= i < j < s.len() ==> key_lt(#[trigger] s[i].key(), #[trigger] s[j].key())
}

/// A strictly sorted sequence is sorted.
pub proof fn lemma_strictly_sorted_is_sorted<T: Keyed>(s: Seq<T>)
    requires
        strictly_sorted_by_key(s),
    ensures
        sorted_by_key(s),
{
    assert forall|i: int, j: int| 0 <= i < j < s.len() implies !key_lt(#[trigger] s[j].key(), #[trigger] s[i].key()) by {
        lemma_keys_facts(s[i].key(), s[j].key(), s[i].key());
    }
}

/// Some key occurs at two positions.
pub open spec fn has_repeated_key<T: Keyed>(s: Seq<T>) -> bool {
    exists|i: int, j: int| 0 <= i < s.len() && 0 <= j < s.len() && i != j && #[trigger] s[i].key() == #[trigger] s[j].key()
}

/// `k` is a key occurring at two positions.
pub open spec fn is_repeated_key<T: Keyed>(s: Seq<T>, k: Seq<Seq<u8>>) -> bool {
    exists|i: int, j: int| 0 <= i < s.len() && 0 <= j < s.len() && i != j && #[trigger] s[i].key() == k && #[trigger] s[j].key() == k
}

/// `k` is the least key occurring at two positions.
pub open spec fn least_repeated_key<T: Keyed>(s: Seq<T>, k: Seq<Seq<u8>>) -> bool {
    &&& is_repeated_key(s, k)
    &&& forall|k2: Seq<Seq<u8>>| is_repeated_key(s, k2) ==> !#[trigger] key_lt(k2, k)
}

pub proof fn lemma_key_order(a: Seq<Seq<u8>>, b: Seq<Seq<u8>>)
    ensures
        (order_of_keys(a, b) == Order::Less) == key_lt(a, b),
        (order_of_keys(a, b) == Order::Greater) == key_lt(b, a),
        (order_of_keys(a, b) == Order::Equal) == (a == b),
{
    lemma_keys_facts(a, b, a);
    lemma_keys_facts(b, a, b);
}

/// Index of the first element whose key exceeds `x`'s, in a sorted sequence.
pub(crate) fn upper_bound<T: Keyed>(s: &Vec<T>, x: &T) -> (pos: usize)
    requires
        sorted_by_key(s@),
    ensures
        pos <= s.len(),
        forall|i: int| 0 <= i < pos ==> !key_lt(x.key(), #[trigger] s@[i].key()),
        forall|i: int| pos <= i < s.len() ==> key_lt(x.key(), #[trigger] s@[i].key()),
{
    let mut lo: usize = 0;
    let mut hi: usize = s.len();
    while lo < hi
        invariant
            0 <= lo <= hi <= s.len(),
            sorted_by_key(s@),
            forall|i: int| 0 <= i < lo ==> !key_lt(x.key(), #[trigger] s@[i].key()),
            forall|i: int| hi <= i < s.len() ==> key_lt(x.key(), #[trigger] s@[i].key()),
        decreases hi - lo,
    {
        let mid = lo + (hi - lo) / 2;
        let c = x.compare_key(&s[mid]);
        proof {
            lemma_key_order(x.key(), s@[mid as int].key());
        }
        if c == Order::Less {
            proof {
                assert forall|i: int| mid <= i < s.len() implies key_lt(x.key(), #[trigger] s@[i].key()) by {
                    if i > mid {
                        lemma_keys_facts(x.key(), s@[mid as int].key(), s@[i].key());
                        lemma_keys_facts(s@[i].key(), s@[mid as int].key(), s@[mid as int].key());
                    }
                }
            }
            hi = mid;
        } else {
            proof {
                assert forall|i: int| 0 <= i <= mid implies !key_lt(x.key(), #[trigger] s@[i].key()) by {
                    if i < mid {
                        lemma_keys_facts(x.key(), s@[i].key(), s@[mid as int].key());
                        lemma_keys_facts(s@[mid as int].key(), s@[i].key(), s@[i].key());
                    }
                }
            }
            lo = mid + 1;
        }
    }
    lo
}

proof fn lemma_insert_multiset<T>(s: Seq<T>, pos: int, x: T)
    requires
        0 <= pos <= s.len(),
    ensures
        s.insert(pos, x).to_multiset() =~= s.to_multiset().insert(x),
{
    let a = s.subrange(0, pos);
    let b = s.subrange(pos, s.len() as int);
    assert(s =~= a + b);
    assert(s.insert(pos, x) =~= a.push(x) + b);
    vstd::seq_lib::lemma_multiset_commutative(a, b);
    vstd::seq_lib::lemma_multiset_commutative(a.push(x), b);
}

/// Sorts `items` by key. The result holds exactly the input's elements.
pub fn sort_by_key<T: Keyed>(items: Vec<T>) -> (sorted: Vec<T>)
    ensures
        sorted@.to_multiset() =~= items@.to_multiset(),
        sorted_by_key(sorted@),
{
    let mut rest = items;
    let mut out: Vec<T> = Vec::new();
    while rest.len() > 0
        invariant
            sorted_by_key(out@),
            out@.to_multiset().add(rest@.to_multiset()) =~= items@.to_multiset(),
        decreases rest.len(),
    {
        let ghost before = rest@;
        let x = rest.pop().unwrap();
        proof {
            assert(before =~= rest@.push(x));
        }
        let pos = upper_bound(&out, &x);
        let ghost old_out = out@;
        out.insert(pos, x);
        proof {
            lemma_insert_multiset(old_out, pos as int, x);
            old_out.insert_ensures(pos as int, x);
            assert forall|i: int, j: int| 0 <= i < j < out@.len() implies !key_lt(#[trigger] out@[j].key(), #[trigger] out@[i].key()) by {
                if j < pos {
                } else if j == pos {
                    lemma_keys_facts(x.key(), old_out[i].key(), x.key());
                } else if i < pos {
                    lemma_keys_facts(old_out[j - 1].key(), old_out[i].key(), x.key());
                    lemma_keys_facts(x.key(), old_out[j - 1].key(), old_out[i].key());
                    lemma_keys_facts(old_out[j - 1].key(), x.key(), old_out[i].key());
                } else if i == pos {
                    lemma_keys_facts(x.key(), old_out[j - 1].key(), x.key());
                } else {
                }
            }
        }
    }
    proof {
        assert(rest@.to_multiset() =~= Multiset::empty());
    }
    out
}

/// An element of one arrangement of a multiset sits somewhere in any other.
pub proof fn lemma_find_in_permutation<T>(a: Seq<T>, b: Seq<T>, i: int) -> (j: int)
    requires
        a.to_multiset() =~= b.to_multiset(),
        0 <= i < a.len(),
    ensures
        0 <= j < b.len(),
        b[j] == a[i],
{
    assert(a.contains(a[i]));
    assert(a.to_multiset().count(a[i]) > 0);
    assert(b.to_multiset().count(a[i]) > 0);
    assert(b.contains(a[i]));
    choose|j: int| 0 <= j < b.len() && b[j] == a[i]
}

/// An element a sequence holds twice sits at two positions.
proof fn lemma_count_two<T>(s: Seq<T>, x: T)
    requires
        s.to_multiset().count(x) >= 2,
    ensures
        exists|i: int, j: int| 0 <= i < s.len() && 0 <= j < s.len() && i != j && s[i] == x && s[j] == x,
    decreases s.len(),
{
    if s.len() == 0 {
        assert(s.to_multiset() =~= Multiset::empty());
    } else {
        let init = s.drop_last();
        let y = s.last();
        assert(s =~= init.push(y));
        if y == x {
            assert(init.to_multiset().count(x) >= 1);
            assert(init.contains(x));
            let i = choose|i: int| 0 <= i < init.len() && init[i] == x;
            assert(s[i] == x && s[s.len() - 1] == x);
        } else {
            lemma_count_two(init, x);
            let (i, j) = choose|i: int, j: int| 0 <= i < init.len() && 0 <= j < init.len() && i != j && init[i] == x && init[j] == x;
            assert(s[i] == x && s[j] == x);
        }
    }
}

proof fn lemma_repeat_carries<T: Keyed>(a: Seq<T>, b: Seq<T>, k: Seq<Seq<u8>>)
    requires
        a.to_multiset() =~= b.to_multiset(),
        is_repeated_key(a, k),
    ensures
        is_repeated_key(b, k),
{
    let (i, j) = choose|i: int, j: int| 0 <= i < a.len() && 0 <= j < a.len() && i != j && #[trigger] a[i].key() == k && #[trigger] a[j].key() == k;
    if a[i] == a[j] {
        assert(a.to_multiset().count(a[i]) >= 2) by {
            lemma_count_two_rev(a, i, j);
        }
        lemma_count_two(b, a[i]);
        let (x, y) = choose|x: int, y: int| 0 <= x < b.len() && 0 <= y < b.len() && x != y && b[x] == a[i] && b[y] == a[i];
        assert(b[x].key() == k && b[y].key() == k);
    } else {
        assert(a.contains(a[i]));
        assert(a.contains(a[j]));
        assert(a.to_multiset().count(a[i]) > 0);
        assert(a.to_multiset().count(a[j]) > 0);
        assert(b.to_multiset().count(a[i]) > 0);
        assert(b.to_multiset().count(a[j]) > 0);
        assert(b.contains(a[i]));
        assert(b.contains(a[j]));
        let x = choose|x: int| 0 <= x < b.len() && b[x] == a[i];
        let y = choose|y: int| 0 <= y < b.len() && b[y] == a[j];
        assert(b[x].key() == k && b[y].key() == k);
    }
}

/// Two positions of a sequence have two positions in any reordering of it
/// that hold the same elements.
pub proof fn lemma_two_in_permutation<T>(a: Seq<T>, b: Seq<T>, i: int, j: int) -> (at: (int, int))
    requires
        a.to_multiset() =~= b.to_multiset(),
        0 <= i < a.len(),
        0 <= j < a.len(),
        i != j,
    ensures
        0 <= at.0 < b.len(),
        0 <= at.1 < b.len(),
        at.0 != at.1,
        b[at.0] == a[i],
        b[at.1] == a[j],
{
    if a[i] == a[j] {
        lemma_count_two_rev(a, i, j);
        lemma_count_two(b, a[i]);
        choose|x: int, y: int| 0 <= x < b.len() && 0 <= y < b.len() && x != y && b[x] == a[i] && b[y] == a[i]
    } else {
        (lemma_find_in_permutation(a, b, i), lemma_find_in_permutation(a, b, j))
    }
}

/// Two positions holding one element count it twice.
proof fn lemma_count_two_rev<T>(s: Seq<T>, i: int, j: int)
    requires
        0 <= i < s.len(),
        0 <= j < s.len(),
        i != j,
        s[i] == s[j],
    ensures
        s.to_multiset().count(s[i]) >= 2,
    decreases s.len(),
{
    let init = s.drop_last();
    let last = s.len() - 1;
    assert(s =~= init.push(s.last()));
    if i == last {
        assert(init[j] == s[i]);
        assert(init.contains(s[i]));
    } else if j == last {
        assert(init[i] == s[i]);
        assert(init.contains(s[i]));
    } else {
        assert(init[i] == init[j]);
        lemma_count_two_rev(init, i, j);
    }
}

proof fn lemma_has_repeated_carries<T: Keyed>(a: Seq<T>, b: Seq<T>)
    requires
        a.to_multiset() =~= b.to_multiset(),
        has_repeated_key(a),
    ensures
        has_repeated_key(b),
{
    let (i, j) = choose|i: int, j: int| 0 <= i < a.len() && 0 <= j < a.len() && i != j && #[trigger] a[i].key() == #[trigger] a[j].key();
    let k = a[i].key();
    assert(is_repeated_key(a, k));
    lemma_repeat_carries(a, b, k);
    let (x, y) = choose|x: int, y: int| 0 <= x < b.len() && 0 <= y < b.len() && x != y && #[trigger] b[x].key() == k && #[trigger] b[y].key() == k;
    assert(b[x].key() == b[y].key());
}

/// Rearranging a sequence keeps which keys it repeats.
pub proof fn lemma_repeats_preserved<T: Keyed>(a: Seq<T>, b: Seq<T>)
    requires
        a.to_multiset() =~= b.to_multiset(),
    ensures
        has_repeated_key(a) == has_repeated_key(b),
        forall|k: Seq<Seq<u8>>| #[trigger] is_repeated_key(a, k) == is_repeated_key(b, k),
        forall|k: Seq<Seq<u8>>| #[trigger] least_repeated_key(a, k) == least_repeated_key(b, k),
{
    assert forall|k: Seq<Seq<u8>>| #[trigger] is_repeated_key(a, k) == is_repeated_key(b, k) by {
        if is_repeated_key(a, k) {
            lemma_repeat_carries(a, b, k);
        }
        if is_repeated_key(b, k) {
            lemma_repeat_carries(b, a, k);
        }
    }
    if has_repeated_key(a) {
        lemma_has_repeated_carries(a, b);
    }
    if has_repeated_key(b) {
        lemma_has_repeated_carries(b, a);
    }
}

/// In a sorted sequence without equal neighbours, every key is distinct.
pub proof fn lemma_no_adjacent_equal_strict<T: Keyed>(s: Seq<T>)
    requires
        sorted_by_key(s),
        forall|i: int| 0 <= i < s.len() - 1 ==> s[i].key() != #[trigger] s[i + 1].key(),
    ensures
        strictly_sorted_by_key(s),
{
    assert forall|i: int, j: int| 0 <= i < j < s.len() implies key_lt(#[trigger] s[i].key(), #[trigger] s[j].key()) by {
        lemma_keys_facts(s[i].key(), s[j].key(), s[j].key());
        if s[i].key() == s[j].key() {
            // Between two equal keys every key equals them, including the neighbour.
            lemma_keys_facts(s[i].key(), s[i + 1].key(), s[j].key());
            lemma_keys_facts(s[i + 1].key(), s[i].key(), s[i].key());
        }
    }
}

/// Two strictly sorted sequences holding the same elements are the same
/// sequence: sorting makes the order in which elements arrived vanish.
pub proof fn lemma_strictly_sorted_unique<T: Keyed>(a: Seq<T>, b: Seq<T>)
    requires
        strictly_sorted_by_key(a),
        strictly_sorted_by_key(b),
        a.to_multiset() =~= b.to_multiset(),
    ensures
        a == b,
    decreases a.len(),
{
    if a.len() == 0 {
        assert(b.to_multiset().len() == 0);
        assert(b.len() == 0);
        assert(a =~= b);
    } else {
        assert(a.contains(a[0]));
        assert(a.to_multiset().count(a[0]) > 0);
        assert(b.len() > 0);
        assert(b.contains(b[0]));
        assert(b.to_multiset().count(b[0]) > 0);
        assert(a.to_multiset().count(b[0]) > 0);
        assert(b.to_multiset().count(a[0]) > 0);
        assert(b.contains(a[0]));
        assert(a.contains(b[0]));
        let j = choose|j: int| 0 <= j < b.len() && b[j] == a[0];
        let i = choose|i: int| 0 <= i < a.len() && a[i] == b[0];
        lemma_keys_facts(a[0].key(), b[0].key(), a[0].key());
        if j != 0 {
            assert(key_lt(b[0].key(), b[j].key()));
            if i != 0 {
                assert(key_lt(a[0].key(), a[i].key()));
                lemma_keys_facts(a[0].key(), b[0].key(), a[0].key());
            }
        }
        assert(a[0] == b[0]);
        let a1 = a.drop_first();
        let b1 = b.drop_first();
        assert(a =~= seq![a[0]] + a1);
        assert(b =~= seq![b[0]] + b1);
        vstd::seq_lib::lemma_multiset_commutative(seq![a[0]], a1);
        vstd::seq_lib::lemma_multiset_commutative(seq![b[0]], b1);
        assert(seq![a[0]].to_multiset() =~= Multiset::singleton(a[0]));
        assert(a1.to_multiset() =~= b1.to_multiset()) by {
            assert(a.to_multiset() =~= Multiset::singleton(a[0]).add(a1.to_multiset()));
            assert(b.to_multiset() =~= Multiset::singleton(a[0]).add(b1.to_multiset()));
            assert forall|v: T| a1.to_multiset().count(v) == b1.to_multiset().count(v) by {
                assert(a.to_multiset().count(v) == b.to_multiset().count(v));
                assert(Multiset::singleton(a[0]).add(a1.to_multiset()).count(v) == Multiset::singleton(a[0]).count(v) + a1.to_multiset().count(v));
                assert(Multiset::singleton(a[0]).add(b1.to_multiset()).count(v) == Multiset::singleton(a[0]).count(v) + b1.to_multiset().count(v));
            }
        }
        assert(strictly_sorted_by_key(a1)) by {
            assert forall|x: int, y: int| 0 <= x < y < a1.len() implies key_lt(#[trigger] a1[x].key(), #[trigger] a1[y].key()) by {
                assert(a1[x] == a[x + 1] && a1[y] == a[y + 1]);
            }
        }
        assert(strictly_sorted_by_key(b1)) by {
            assert forall|x: int, y: int| 0 <= x < y < b1.len() implies key_lt(#[trigger] b1[x].key(), #[trigger] b1[y].key()) by {
                assert(b1[x] == b[x + 1] && b1[y] == b[y + 1]);
            }
        }
        lemma_strictly_sorted_unique(a1, b1);
    }
}

/// Finds the first pair of equal neighbours in a sorted sequence.
///
/// Its key is the least key the sequence repeats; when there is none, the
/// sequence is strictly sorted.
pub fn first_adjacent_duplicate<T: Keyed>(s: &Vec<T>) -> (r: Option<usize>)
    requires
        sorted_by_key(s@),
    ensures
        match r {
            Some(i) => {
                &&& i + 1 < s.len()
                &&& s@[i as int].key() == s@[i + 1].key()
                &&& least_repeated_key(s@, s@[i as int].key())
            },
            None => strictly_sorted_by_key(s@) && !has_repeated_key(s@),
        },
{
    let mut i: usize = 0;
    while s.len() > 0 && i < s.len() - 1
        invariant
            sorted_by_key(s@),
            0 <= i,
            s.len() == 0 || i < s.len(),
            forall|j: int| 0 <= j < i ==> s@[j].key() != #[trigger] s@[j + 1].key(),
        decreases s.len() - i,
    {
        let c = s[i].compare_key(&s[i + 1]);
        proof {
            lemma_key_order(s@[i as int].key(), s@[i + 1].key());
        }
        if c == Order::Equal {
            proof {
                let k = s@[i as int].key();
                assert(is_repeated_key(s@, k)) by {
                    assert(s@[i + 1].key() == k);
                }
                assert forall|k2: Seq<Seq<u8>>| is_repeated_key(s@, k2) implies !#[trigger] key_lt(k2, k) by {
                    let (a, b) = choose|a: int, b: int| 0 <= a < s@.len() && 0 <= b < s@.len() && a != b && #[trigger] s@[a].key() == k2 && #[trigger] s@[b].key() == k2;
                    let lo = if a < b { a } else { b };
                    let hi = if a < b { b } else { a };
                    if key_lt(k2, k) {
                        // Both positions sort before i, so some neighbours below i were equal.
                        if lo >= i {
                            lemma_keys_facts(s@[i as int].key(), s@[lo].key(), s@[lo].key());
                            lemma_keys_facts(k2, k, k2);
                        } else if hi >= i {
                            lemma_keys_facts(k, k2, k);
                            lemma_keys_facts(s@[hi].key(), s@[i as int].key(), s@[i as int].key());
                            lemma_keys_facts(k2, k, s@[hi].key());
                        } else {
                            let sub = s@.subrange(0, i as int + 1);
                            assert(sorted_by_key(sub));
                            assert forall|j: int| 0 <= j < sub.len() - 1 implies sub[j].key() != #[trigger] sub[j + 1].key() by {
                                assert(sub[j] == s@[j]);
                                assert(sub[j + 1] == s@[j + 1]);
                            }
                            lemma_no_adjacent_equal_strict(sub);
                            assert(sub[lo] == s@[lo]);
                            assert(sub[hi] == s@[hi]);
                            lemma_keys_facts(k2, k2, k2);
                        }
                    }
                }
            }
            return Some(i);
        }
        i = i + 1;
    }
    proof {
        lemma_no_adjacent_equal_strict(s@);
        if has_repeated_key(s@) {
            let (a, b) = choose|a: int, b: int| 0 <= a < s@.len() && 0 <= b < s@.len() && a != b && #[trigger] s@[a].key() == #[trigger] s@[b].key();
            lemma_keys_facts(s@[a].key(), s@[a].key(), s@[a].key());
            if a < b {
                assert(key_lt(s@[a].key(), s@[b].key()));
            } else {
                assert(key_lt(s@[b].key(), s@[a].key()));
            }
        }
    }
    None
}

} // verus!
