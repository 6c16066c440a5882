//! The order in which timestamps are compared: character by character, a
//! proper prefix before what it is a prefix of.

use crate::text::chars_of;
use vstd::prelude::*;
use vstd::relations::{sorted_by, strongly_connected, total_ordering, transitive};
use vstd::seq_lib::{lemma_sorted_unique, to_multiset_insert, to_multiset_remove};

verus! {

/// Whether `a` comes before `b`, or equals it, in lexicographic order by code
/// point.
pub open spec fn lex_le(a: Seq<char>, b: Seq<char>) -> bool
    decreases a.len(),
{
    if a.len() == 0 {
        true
    } else if b.len() == 0 {
        false
    } else if a.first() == b.first() {
        lex_le(a.drop_first(), b.drop_first())
    } else {
        (a.first() as u32) < (b.first() as u32)
    }
}

/// The order as a relation, for the predicates of `vstd::relations`.
pub open spec fn lex_order() -> spec_fn(Seq<char>, Seq<char>) -> bool {
    |a: Seq<char>, b: Seq<char>| lex_le(a, b)
}

/// Whether the texts stand in ascending order.
pub open spec fn ascending(texts: Seq<Seq<char>>) -> bool {
    sorted_by(texts, lex_order())
}

pub proof fn lex_le_reflexive(a: Seq<char>)
    ensures
        lex_le(a, a),
    decreases a.len(),
{
    if a.len() > 0 {
        lex_le_reflexive(a.drop_first());
    }
}

pub proof fn lex_le_total(a: Seq<char>, b: Seq<char>)
    ensures
        lex_le(a, b) || lex_le(b, a),
    decreases a.len(),
{
    if a.len() > 0 && b.len() > 0 && a.first() == b.first() {
        lex_le_total(a.drop_first(), b.drop_first());
    }
    if a.len() > 0 && b.len() > 0 && a.first() != b.first() {
        code_points_differ(a.first(), b.first());
    }
}

proof fn code_points_differ(c: char, d: char)
    requires
        c != d,
    ensures
        (c as u32) != (d as u32),
{
    assert((c as u32) as char == c);
    assert((d as u32) as char == d);
}

pub proof fn lex_le_transitive(a: Seq<char>, b: Seq<char>, c: Seq<char>)
    requires
        lex_le(a, b),
        lex_le(b, c),
    ensures
        lex_le(a, c),
    decreases a.len(),
{
    if a.len() > 0 && a.first() == b.first() && b.first() == c.first() {
        lex_le_transitive(a.drop_first(), b.drop_first(), c.drop_first());
    }
}

pub proof fn lex_le_antisymmetric(a: Seq<char>, b: Seq<char>)
    requires
        lex_le(a, b),
        lex_le(b, a),
    ensures
        a == b,
    decreases a.len(),
{
    if a.len() > 0 {
        lex_le_antisymmetric(a.drop_first(), b.drop_first());
        assert(a == seq![a.first()] + a.drop_first());
        assert(b == seq![b.first()] + b.drop_first());
    } else {
        assert(a == b);
    }
}

/// The lexicographic order is total and transitive.
pub proof fn lex_order_is_total_preorder()
    ensures
        transitive(lex_order()),
        strongly_connected(lex_order()),
{
    assert forall|a: Seq<char>, b: Seq<char>, c: Seq<char>|
        #[trigger] lex_order()(a, b) && #[trigger] lex_order()(b, c) implies lex_order()(a, c) by {
        lex_le_transitive(a, b, c);
    }
    assert forall|a: Seq<char>, b: Seq<char>| #[trigger]
        lex_order()(a, b) || #[trigger] lex_order()(b, a) by {
        lex_le_total(a, b);
    }
}

/// The lexicographic order is a total order.
pub proof fn lex_order_is_total()
    ensures
        total_ordering(lex_order()),
{
    lex_order_is_total_preorder();
    assert forall|a: Seq<char>| #[trigger] lex_order()(a, a) by {
        lex_le_reflexive(a);
    }
    assert forall|a: Seq<char>, b: Seq<char>| #[trigger]
        lex_order()(a, b) && #[trigger] lex_order()(b, a) implies a == b by {
        lex_le_antisymmetric(a, b);
    }
}

/// The texts, rearranged into ascending order.
pub open spec fn sorted_texts(texts: Seq<Seq<char>>) -> Seq<Seq<char>> {
    texts.sort_by(lex_order())
}

/// There is one way to put texts into ascending order: `sorted_texts` is
/// ascending and a rearrangement of its argument, and whatever else is both
/// equals it.
pub proof fn sorted_texts_is_the_ascending_rearrangement(texts: Seq<Seq<char>>)
    ensures
        ascending(sorted_texts(texts)),
        sorted_texts(texts).to_multiset() == texts.to_multiset(),
        sorted_texts(texts).len() == texts.len(),
        forall|other: Seq<Seq<char>>|
            ascending(other) && #[trigger] other.to_multiset() == texts.to_multiset() ==> other
                == sorted_texts(texts),
{
    lex_order_is_total();
    texts.lemma_sort_by_ensures(lex_order());
    vstd::seq_lib::to_multiset_len(texts);
    vstd::seq_lib::to_multiset_len(sorted_texts(texts));
    assert forall|other: Seq<Seq<char>>|
        ascending(other) && #[trigger] other.to_multiset() == texts.to_multiset() implies other
        == sorted_texts(texts) by {
        lemma_sorted_unique(other, sorted_texts(texts), lex_order());
    }
}

/// Whether `a` comes before `b`, or equals it.
pub fn le_chars(a: &Vec<char>, b: &Vec<char>) -> (r: bool)
    ensures
        r == lex_le(a@, b@),
{
    let mut i: usize = 0;
    assert(a@.skip(0) == a@ && b@.skip(0) == b@);
    while i < a.len() && i < b.len() && a[i] == b[i]
        invariant
            i <= a.len(),
            i <= b.len(),
            lex_le(a@, b@) == lex_le(a@.skip(i as int), b@.skip(i as int)),
        decreases a.len() - i,
    {
        assert(a@.skip(i as int).drop_first() == a@.skip(i + 1));
        assert(b@.skip(i as int).drop_first() == b@.skip(i + 1));
        i += 1;
    }
    if i >= a.len() {
        true
    } else if i >= b.len() {
        false
    } else {
        (a[i] as u32) < (b[i] as u32)
    }
}

/// Moving the element at `from` down to `to` keeps a sorted front sorted and
/// lengthens it by one, where the element belongs at `to`: what stands
/// before `to` is not above it, and what stands from `to` up to `from` is
/// above it.
pub proof fn moving_down_keeps_order<T>(s: Seq<T>, le: spec_fn(T, T) -> bool, from: int, to: int)
    requires
        transitive(le),
        strongly_connected(le),
        0 <= to <= from < s.len(),
        sorted_by(s.take(from), le),
        to > 0 ==> le(s[to - 1], s[from]),
        forall|t: int| to <= t < from ==> !le(#[trigger] s[t], s[from]),
    ensures
        sorted_by(s.remove(from).insert(to, s[from]).take(from + 1), le),
        s.remove(from).insert(to, s[from]).to_multiset() == s.to_multiset(),
        s.remove(from).insert(to, s[from]).len() == s.len(),
        s.remove(from).insert(to, s[from]).skip(from + 1) == s.skip(from + 1),
{
    let x = s[from];
    let moved = s.remove(from).insert(to, x);
    let front = moved.take(from + 1);
    assert forall|i: int, j: int| 0 <= i < j < front.len() implies #[trigger] le(
        front[i],
        front[j],
    ) by {
        let a = front[i];
        let b = front[j];
        if j < to {
            assert(a == s.take(from)[i] && b == s.take(from)[j]);
        } else if j == to {
            assert(b == x);
            assert(a == s.take(from)[i]);
            if i < to - 1 {
                assert(s[to - 1] == s.take(from)[to - 1]);
                assert(le(a, s[to - 1]));
            }
        } else {
            assert(b == s[j - 1]);
            if i < to {
                assert(a == s.take(from)[i] && b == s.take(from)[j - 1]);
            } else if i == to {
                assert(a == x);
                assert(!le(s[j - 1], x));
            } else {
                assert(a == s.take(from)[i - 1] && b == s.take(from)[j - 1]);
            }
        }
    }
    assert(moved.to_multiset() =~= s.to_multiset()) by {
        broadcast use vstd::multiset::group_multiset_axioms;
        broadcast use vstd::seq_lib::group_to_multiset_ensures;

        to_multiset_remove(s, from);
        to_multiset_insert(s.remove(from), to, x);
        assert(s.contains(x));
    }
    assert(moved.skip(from + 1) == s.skip(from + 1));
}

/// Sorts the strings into ascending order.
pub fn sort_ascending(v: &mut Vec<String>)
    ensures
        final(v).deep_view() == sorted_texts(old(v).deep_view()),
        ascending(final(v).deep_view()),
        final(v).deep_view().to_multiset() == old(v).deep_view().to_multiset(),
{
    let mut keys: Vec<Vec<char>> = Vec::new();
    let mut k: usize = 0;
    while k < v.len()
        invariant
            k <= v.len(),
            keys.len() == k,
            *v == *old(v),
            forall|t: int| 0 <= t < k ==> (#[trigger] keys@[t])@ == v@[t]@,
        decreases v.len() - k,
    {
        keys.push(chars_of(v[k].as_str()));
        k += 1;
    }
    let mut i: usize = 0;
    while i < v.len()
        invariant
            i <= v.len(),
            keys.len() == v.len(),
            forall|t: int| 0 <= t < v.len() ==> (#[trigger] keys@[t])@ == v@[t]@,
            ascending(v.deep_view().take(i as int)),
            v.deep_view().to_multiset() == old(v).deep_view().to_multiset(),
        decreases v.len() - i,
    {
        let mut j: usize = i;
        while j > 0 && !le_chars(&keys[j - 1], &keys[i])
            invariant
                j <= i < v.len(),
                keys.len() == v.len(),
                forall|t: int| j <= t < i ==> !lex_le((#[trigger] keys@[t])@, keys@[i as int]@),
            decreases j,
        {
            j -= 1;
        }
        let ghost before = v.deep_view();
        let ghost keys_before = keys@;
        let text = v.remove(i);
        v.insert(j, text);
        let key = keys.remove(i);
        keys.insert(j, key);
        proof {
            lex_order_is_total_preorder();
            assert forall|t: int| j <= t < i implies !lex_order()(#[trigger] before[t], before[i as int]) by {
                assert(before[t] == keys_before[t]@);
            }
            assert(j > 0 ==> before[j - 1] == keys_before[j - 1]@);
            moving_down_keeps_order(before, lex_order(), i as int, j as int);
            assert(v.deep_view() == before.remove(i as int).insert(j as int, before[i as int]));
        }
        i += 1;
    }
    assert(v.deep_view().take(v.len() as int) == v.deep_view());
    proof {
        sorted_texts_is_the_ascending_rearrangement(old(v).deep_view());
    }
}

} // verus!
