//! Stable insertion into sorted sequences.
use vstd::prelude::*;

verus! {

/// `le` is total and transitive: a preorder in which any two items can be compared.
pub open spec fn total_preorder<A>(le: spec_fn(A, A) -> bool) -> bool {
    &&& forall|a: A, b: A| #[trigger] le(a, b) || le(b, a)
    &&& forall|a: A, b: A, c: A| #[trigger] le(a, b) && #[trigger] le(b, c) ==> le(a, c)
}

/// Every item comes before those that follow it, or is level with them.
pub open spec fn sorted<A>(s: Seq<A>, le: spec_fn(A, A) -> bool) -> bool {
    forall|i: int, j: int| 0 <= i < j < s.len() ==> le(#[trigger] s[i], #[trigger] s[j])
}

/// `i` is where `x` goes in `s`: behind everything that may stand before it.
pub open spec fn insertion_point<A>(s: Seq<A>, x: A, le: spec_fn(A, A) -> bool, i: int) -> bool {
    &&& 0 <= i <= s.len()
    &&& forall|j: int| 0 <= j < i ==> le(#[trigger] s[j], x)
    &&& forall|j: int| i <= j < s.len() ==> !le(#[trigger] s[j], x)
}

/// `out` holds the items of `s` in order, and items that are level with each other as they were.
pub open spec fn stably_sorted<A>(out: Seq<A>, s: Seq<A>, le: spec_fn(A, A) -> bool) -> bool {
    &&& sorted(out, le)
    &&& out.to_multiset() == s.to_multiset()
    &&& forall|x: A|
        #![trigger out.filter(level(x, le))]
        out.filter(level(x, le)) == s.filter(level(x, le))
}

/// The items that are level with `x`.
pub open spec fn level<A>(x: A, le: spec_fn(A, A) -> bool) -> spec_fn(A) -> bool {
    |y: A| le(x, y) && le(y, x)
}

pub proof fn lemma_empty<A>(le: spec_fn(A, A) -> bool)
    ensures
        stably_sorted(Seq::<A>::empty(), Seq::<A>::empty(), le),
{
}

proof fn lemma_filter_concat<A>(a: Seq<A>, b: Seq<A>, p: spec_fn(A) -> bool)
    ensures
        (a + b).filter(p) == a.filter(p) + b.filter(p),
    decreases b.len(),
{
    reveal(Seq::filter);
    if b.len() == 0 {
        assert(a + b == a);
        assert(a.filter(p) + b.filter(p) == a.filter(p));
    } else {
        lemma_filter_concat(a, b.drop_last(), p);
        assert((a + b).drop_last() == a + b.drop_last());
        assert((a + b).last() == b.last());
        if p(b.last()) {
            assert(a.filter(p) + b.drop_last().filter(p).push(b.last()) == (a.filter(p)
                + b.drop_last().filter(p)).push(b.last()));
        }
    }
}

proof fn lemma_filter_none<A>(s: Seq<A>, p: spec_fn(A) -> bool)
    requires
        forall|i: int| 0 <= i < s.len() ==> !p(#[trigger] s[i]),
    ensures
        s.filter(p) == Seq::<A>::empty(),
    decreases s.len(),
{
    reveal(Seq::filter);
    if s.len() > 0 {
        assert forall|i: int| 0 <= i < s.drop_last().len() implies !p(#[trigger] s.drop_last()[i]) by {
            assert(s.drop_last()[i] == s[i]);
        }
        lemma_filter_none(s.drop_last(), p);
    }
}

/// Inserting the next item where it goes keeps the sequence stably sorted.
pub proof fn lemma_insert<A>(out: Seq<A>, s: Seq<A>, x: A, i: int, le: spec_fn(A, A) -> bool)
    requires
        total_preorder(le),
        stably_sorted(out, s, le),
        insertion_point(out, x, le, i),
    ensures
        stably_sorted(out.insert(i, x), s.push(x), le),
{
    let grown = out.insert(i, x);
    assert forall|a: int, b: int| 0 <= a < b < grown.len() implies le(
        #[trigger] grown[a],
        #[trigger] grown[b],
    ) by {
        if a < i && b < i {
            assert(grown[a] == out[a] && grown[b] == out[b]);
        } else if a < i && b == i {
            assert(grown[a] == out[a]);
        } else if a < i && b > i {
            assert(grown[a] == out[a] && grown[b] == out[b - 1]);
        } else if a == i {
            assert(grown[b] == out[b - 1]);
            assert(!le(out[b - 1], x));
        } else {
            assert(grown[a] == out[a - 1] && grown[b] == out[b - 1]);
        }
    }
    let lo = out.take(i);
    let hi = out.skip(i);
    assert(out == lo + hi);
    assert(grown == lo.push(x) + hi);
    assert(lo.push(x) == lo + seq![x]);
    assert(grown.to_multiset() == s.push(x).to_multiset()) by {
        broadcast use vstd::seq_lib::group_to_multiset_ensures;

        vstd::seq_lib::lemma_multiset_commutative(lo + seq![x], hi);
        vstd::seq_lib::lemma_multiset_commutative(lo, seq![x]);
        vstd::seq_lib::lemma_multiset_commutative(lo, hi);
        vstd::seq_lib::lemma_multiset_commutative(s, seq![x]);
        assert(s.push(x) == s + seq![x]);
        assert(grown.to_multiset() =~= s.push(x).to_multiset());
    }
    assert forall|y: A|
        #![trigger grown.filter(level(y, le))]
        grown.filter(level(y, le)) == s.push(x).filter(level(y, le)) by {
        let p = level(y, le);
        lemma_filter_concat(lo, hi, p);
        lemma_filter_concat(lo + seq![x], hi, p);
        lemma_filter_concat(lo, seq![x], p);
        lemma_filter_concat(s, seq![x], p);
        assert(s.push(x) == s + seq![x]);
        assert(out.filter(p) == s.filter(p));
        let one = seq![x].filter(p);
        if p(x) {
            assert forall|j: int| 0 <= j < hi.len() implies !p(#[trigger] hi[j]) by {
                assert(hi[j] == out[i + j]);
                if p(out[i + j]) {
                    assert(le(out[i + j], y) && le(y, x));
                }
            }
            lemma_filter_none(hi, p);
            assert(lo.filter(p) + one + hi.filter(p) == lo.filter(p) + hi.filter(p) + one);
        } else {
            lemma_filter_none(seq![x], p);
            assert(lo.filter(p) + one + hi.filter(p) == lo.filter(p) + hi.filter(p) + one);
        }
    }
}

}
