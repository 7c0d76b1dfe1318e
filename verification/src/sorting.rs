//! Stable sorting and merging of sequences under a total preorder.

use vstd::prelude::*;
use vstd::relations::{sorted_by, strongly_connected, transitive};

verus! {

/// `s` with `x` put in front of the first element that `x` is in order with,
/// or at the end where there is none.
pub open spec fn insert_in_order<A>(x: A, s: Seq<A>, le: spec_fn(A, A) -> bool) -> Seq<A>
    decreases s.len(),
{
    if s.len() == 0 {
        seq![x]
    } else if le(x, s.first()) {
        seq![x] + s
    } else {
        seq![s.first()] + insert_in_order(x, s.drop_first(), le)
    }
}

/// The elements of `s` in the order `le`; elements that `le` ranks alike
/// keep the order they have in `s`.
pub open spec fn stable_sort<A>(s: Seq<A>, le: spec_fn(A, A) -> bool) -> Seq<A>
    decreases s.len(),
{
    if s.len() == 0 {
        Seq::empty()
    } else {
        insert_in_order(s.first(), stable_sort(s.drop_first(), le), le)
    }
}

/// Where `x` stands after `insert_in_order`: behind exactly the leading
/// elements that it is not in order with.
pub proof fn lemma_insert_in_order_at<A>(x: A, s: Seq<A>, at: int, le: spec_fn(A, A) -> bool)
    requires
        0 <= at <= s.len(),
        forall|j: int| 0 <= j < at ==> !le(x, #[trigger] s[j]),
        at < s.len() ==> le(x, s[at]),
    ensures
        insert_in_order(x, s, le) == s.insert(at, x),
    decreases s.len(),
{
    if s.len() > 0 && at > 0 {
        let rest = s.drop_first();
        assert forall|j: int| 0 <= j < at - 1 implies !le(x, #[trigger] rest[j]) by {
            assert(rest[j] == s[j + 1]);
        }
        lemma_insert_in_order_at(x, rest, at - 1, le);
    }
}

/// The place that `insert_in_order` gives `x` in `s`.
pub open spec fn landing_index<A>(x: A, s: Seq<A>, le: spec_fn(A, A) -> bool) -> int
    decreases s.len(),
{
    if s.len() == 0 || le(x, s.first()) {
        0
    } else {
        1 + landing_index(x, s.drop_first(), le)
    }
}

/// `insert_in_order` is an insertion at `landing_index`.
pub proof fn lemma_insert_in_order_lands<A>(x: A, s: Seq<A>, le: spec_fn(A, A) -> bool)
    ensures
        0 <= landing_index(x, s, le) <= s.len(),
        forall|j: int| 0 <= j < landing_index(x, s, le) ==> !le(x, #[trigger] s[j]),
        landing_index(x, s, le) < s.len() ==> le(x, s[landing_index(x, s, le)]),
        insert_in_order(x, s, le) == s.insert(landing_index(x, s, le), x),
    decreases s.len(),
{
    let at = landing_index(x, s, le);
    if s.len() > 0 && !le(x, s.first()) {
        let rest = s.drop_first();
        lemma_insert_in_order_lands(x, rest, le);
        assert forall|j: int| 0 <= j < at implies !le(x, #[trigger] s[j]) by {
            if j > 0 {
                assert(s[j] == rest[j - 1]);
            }
        }
    }
    lemma_insert_in_order_at(x, s, at, le);
}

/// Inserting into a sorted sequence leaves it sorted.
pub proof fn lemma_insert_in_order_sorted<A>(x: A, s: Seq<A>, le: spec_fn(A, A) -> bool)
    requires
        sorted_by(s, le),
        strongly_connected(le),
        transitive(le),
    ensures
        sorted_by(insert_in_order(x, s, le), le),
{
    lemma_insert_in_order_lands(x, s, le);
    let at = landing_index(x, s, le);
    let out = s.insert(at, x);
    assert forall|i: int, j: int| 0 <= i < j < out.len() implies le(out[i], out[j]) by {
        if j == at {
            assert(!le(x, s[i]));
        } else if i == at && j - 1 > at {
            assert(le(x, s[at]) && le(s[at], s[j - 1]));
        }
    }
}

/// Inserting adds the element and nothing else.
pub proof fn lemma_insert_in_order_permutes<A>(x: A, s: Seq<A>, le: spec_fn(A, A) -> bool)
    ensures
        insert_in_order(x, s, le).to_multiset() == s.to_multiset().insert(x),
        insert_in_order(x, s, le).len() == s.len() + 1,
{
    lemma_insert_in_order_lands(x, s, le);
    vstd::seq_lib::to_multiset_insert(s, landing_index(x, s, le), x);
}

/// A stable sort is sorted.
pub proof fn lemma_stable_sort_sorted<A>(s: Seq<A>, le: spec_fn(A, A) -> bool)
    requires
        strongly_connected(le),
        transitive(le),
    ensures
        sorted_by(stable_sort(s, le), le),
    decreases s.len(),
{
    if s.len() > 0 {
        lemma_stable_sort_sorted(s.drop_first(), le);
        lemma_insert_in_order_sorted(s.first(), stable_sort(s.drop_first(), le), le);
    }
}

/// A stable sort holds the elements of its argument, each as often as the
/// argument does.
pub proof fn lemma_stable_sort_permutes<A>(s: Seq<A>, le: spec_fn(A, A) -> bool)
    ensures
        stable_sort(s, le).to_multiset() == s.to_multiset(),
        stable_sort(s, le).len() == s.len(),
    decreases s.len(),
{
    if s.len() > 0 {
        let rest = s.drop_first();
        lemma_stable_sort_permutes(rest, le);
        lemma_insert_in_order_permutes(s.first(), stable_sort(rest, le), le);
        assert(s =~= rest.insert(0, s.first()));
        vstd::seq_lib::to_multiset_insert(rest, 0, s.first());
    } else {
        assert(s =~= Seq::<A>::empty());
    }
}

/// A part of a sorted sequence is sorted.
pub proof fn lemma_sorted_subrange<A>(s: Seq<A>, le: spec_fn(A, A) -> bool, from: int, to: int)
    requires
        sorted_by(s, le),
        0 <= from <= to <= s.len(),
    ensures
        sorted_by(s.subrange(from, to), le),
{
    let part = s.subrange(from, to);
    assert forall|i: int, j: int| 0 <= i < j < part.len() implies le(part[i], part[j]) by {
        assert(part[i] == s[from + i] && part[j] == s[from + j]);
    }
}

/// What a filter keeps of a sorted sequence is sorted.
pub proof fn lemma_sorted_filter<A>(s: Seq<A>, keep: spec_fn(A) -> bool, le: spec_fn(A, A) -> bool)
    requires
        sorted_by(s, le),
    ensures
        sorted_by(s.filter(keep), le),
    decreases s.len(),
{
    if s.len() > 0 {
        let rest = s.drop_last();
        lemma_sorted_subrange(s, le, 0, s.len() - 1);
        lemma_sorted_filter(rest, keep, le);
        assert(s =~= rest.push(s.last()));
        crate::seqs::lemma_filter_push(rest, s.last(), keep);
        let kept = s.filter(keep);
        assert forall|i: int, j: int| 0 <= i < j < kept.len() implies le(kept[i], kept[j]) by {
            if j == rest.filter(keep).len() {
                crate::seqs::lemma_filter_kept(rest, keep, i);
                let p = choose|p: int| 0 <= p < rest.len() && rest[p] == rest.filter(keep)[i];
                assert(le(s[p], s[s.len() - 1]));
            }
        }
    } else {
        crate::seqs::lemma_filter_empty(keep);
    }
}

/// A sorted sequence is its own stable sort.
pub proof fn lemma_stable_sort_keeps_sorted<A>(s: Seq<A>, le: spec_fn(A, A) -> bool)
    requires
        sorted_by(s, le),
    ensures
        stable_sort(s, le) == s,
    decreases s.len(),
{
    if s.len() > 0 {
        lemma_sorted_subrange(s, le, 1, s.len() as int);
        lemma_stable_sort_keeps_sorted(s.drop_first(), le);
        if s.len() > 1 {
            assert(le(s[0], s[1]));
        }
    }
}

/// The test that picks the elements that `le` ranks like `x`.
pub open spec fn ranked_like<A>(le: spec_fn(A, A) -> bool, x: A) -> spec_fn(A) -> bool {
    |y: A| le(x, y) && le(y, x)
}

/// An inserted element stands in front of the elements that are ranked like
/// it.
pub proof fn lemma_insert_in_order_is_stable<A>(h: A, s: Seq<A>, le: spec_fn(A, A) -> bool, x: A)
    requires
        transitive(le),
    ensures
        insert_in_order(h, s, le).filter(ranked_like(le, x)) == (seq![h] + s).filter(
            ranked_like(le, x),
        ),
{
    let keep = ranked_like(le, x);
    lemma_insert_in_order_lands(h, s, le);
    let at = landing_index(h, s, le);
    let front = s.take(at);
    let back = s.skip(at);
    assert(s =~= front + back);
    Seq::filter_distributes_over_add(front, back, keep);
    Seq::filter_distributes_over_add(front.push(h), back, keep);
    crate::seqs::lemma_filter_push(front, h, keep);
    s.lemma_filter_prepend(h, keep);
    if keep(h) && front.filter(keep).len() > 0 {
        // Nothing in front of `h` is ranked like it.
        crate::seqs::lemma_filter_kept(front, keep, 0);
    }
}

/// A stable sort is stable: the elements that are ranked alike stand in it as
/// they stand in its argument.
pub proof fn lemma_stable_sort_is_stable<A>(s: Seq<A>, le: spec_fn(A, A) -> bool, x: A)
    requires
        transitive(le),
    ensures
        stable_sort(s, le).filter(ranked_like(le, x)) == s.filter(ranked_like(le, x)),
    decreases s.len(),
{
    let keep = ranked_like(le, x);
    if s.len() > 0 {
        let rest = s.drop_first();
        lemma_stable_sort_is_stable(rest, le, x);
        lemma_insert_in_order_is_stable(s.first(), stable_sort(rest, le), le, x);
        stable_sort(rest, le).lemma_filter_prepend(s.first(), keep);
        rest.lemma_filter_prepend(s.first(), keep);
        assert(seq![s.first()] + rest =~= s);
    }
}

/// The two-way merge of `a` and `b`: what stands last is the last of `b`
/// where the last of `a` is in order with it, and the last of `a` otherwise;
/// what stands in front of it is the merge of the rest. Of two elements that
/// `le` ranks alike, the one of `a` comes first.
pub open spec fn merge_in_order<A>(a: Seq<A>, b: Seq<A>, le: spec_fn(A, A) -> bool) -> Seq<A>
    decreases a.len() + b.len(),
{
    if a.len() == 0 {
        b
    } else if b.len() == 0 {
        a
    } else if le(a.last(), b.last()) {
        merge_in_order(a, b.drop_last(), le).push(b.last())
    } else {
        merge_in_order(a.drop_last(), b, le).push(a.last())
    }
}

/// A merge holds the elements of both arguments, each as often as the two
/// together do.
pub proof fn lemma_merge_permutes<A>(a: Seq<A>, b: Seq<A>, le: spec_fn(A, A) -> bool)
    ensures
        merge_in_order(a, b, le).len() == a.len() + b.len(),
        merge_in_order(a, b, le).to_multiset() == a.to_multiset().add(b.to_multiset()),
    decreases a.len() + b.len(),
{
    broadcast use vstd::multiset::group_multiset_axioms;

    if a.len() == 0 {
        assert(a.to_multiset() =~= vstd::multiset::Multiset::<A>::empty()) by {
            a.to_multiset_ensures();
        }
    } else if b.len() == 0 {
        assert(b.to_multiset() =~= vstd::multiset::Multiset::<A>::empty()) by {
            b.to_multiset_ensures();
        }
    } else if le(a.last(), b.last()) {
        let rest = b.drop_last();
        lemma_merge_permutes(a, rest, le);
        vstd::seq_lib::to_multiset_build(merge_in_order(a, rest, le), b.last());
        vstd::seq_lib::to_multiset_build(rest, b.last());
        assert(b =~= rest.push(b.last()));
    } else {
        let rest = a.drop_last();
        lemma_merge_permutes(rest, b, le);
        vstd::seq_lib::to_multiset_build(merge_in_order(rest, b, le), a.last());
        vstd::seq_lib::to_multiset_build(rest, a.last());
        assert(a =~= rest.push(a.last()));
    }
}

/// Every element of a merge stands in one of the arguments.
pub proof fn lemma_merge_elements<A>(a: Seq<A>, b: Seq<A>, le: spec_fn(A, A) -> bool, k: int)
    requires
        0 <= k < merge_in_order(a, b, le).len(),
    ensures
        a.contains(merge_in_order(a, b, le)[k]) || b.contains(merge_in_order(a, b, le)[k]),
    decreases a.len() + b.len(),
{
    if a.len() > 0 && b.len() > 0 {
        let b_is_last = le(a.last(), b.last());
        let rest_a = if b_is_last { a } else { a.drop_last() };
        let rest_b = if b_is_last { b.drop_last() } else { b };
        lemma_merge_permutes(rest_a, rest_b, le);
        if k < rest_a.len() + rest_b.len() {
            let x = merge_in_order(a, b, le)[k];
            lemma_merge_elements(rest_a, rest_b, le, k);
            if rest_a.contains(x) {
                let j = choose|j: int| 0 <= j < rest_a.len() && rest_a[j] == x;
                assert(a[j] == x);
            } else {
                let j = choose|j: int| 0 <= j < rest_b.len() && rest_b[j] == x;
                assert(b[j] == x);
            }
        }
    }
}

/// Every element of a sorted sequence is in order with its last element.
proof fn lemma_sorted_up_to_last<A>(s: Seq<A>, le: spec_fn(A, A) -> bool, x: A)
    requires
        sorted_by(s, le),
        strongly_connected(le),
        s.contains(x),
    ensures
        le(x, s.last()),
{
    let i = choose|i: int| 0 <= i < s.len() && s[i] == x;
    if i < s.len() - 1 {
        assert(le(s[i], s[s.len() - 1]));
    } else {
        assert(le(x, x) || le(x, x));
    }
}

/// The merge of two sorted sequences is sorted.
pub proof fn lemma_merge_sorted<A>(a: Seq<A>, b: Seq<A>, le: spec_fn(A, A) -> bool)
    requires
        sorted_by(a, le),
        sorted_by(b, le),
        strongly_connected(le),
        transitive(le),
    ensures
        sorted_by(merge_in_order(a, b, le), le),
    decreases a.len() + b.len(),
{
    if a.len() > 0 && b.len() > 0 {
        let b_is_last = le(a.last(), b.last());
        let last = if b_is_last { b.last() } else { a.last() };
        let rest_a = if b_is_last { a } else { a.drop_last() };
        let rest_b = if b_is_last { b.drop_last() } else { b };
        lemma_sorted_subrange(a, le, 0, a.len() - 1);
        lemma_sorted_subrange(b, le, 0, b.len() - 1);
        lemma_merge_sorted(rest_a, rest_b, le);
        let front = merge_in_order(rest_a, rest_b, le);
        assert(le(a.last(), last) && le(b.last(), last)) by {
            assert(le(a.last(), b.last()) || le(b.last(), a.last()));
            assert(le(last, last) || le(last, last));
        }
        assert forall|i: int| 0 <= i < front.len() implies le(#[trigger] front[i], last) by {
            let x = front[i];
            lemma_merge_elements(rest_a, rest_b, le, i);
            if rest_a.contains(x) {
                let j = choose|j: int| 0 <= j < rest_a.len() && rest_a[j] == x;
                assert(a[j] == x);
                lemma_sorted_up_to_last(a, le, x);
                assert(le(x, a.last()) && le(a.last(), last));
            } else {
                let j = choose|j: int| 0 <= j < rest_b.len() && rest_b[j] == x;
                assert(b[j] == x);
                lemma_sorted_up_to_last(b, le, x);
                assert(le(x, b.last()) && le(b.last(), last));
            }
        }
        let merged = merge_in_order(a, b, le);
        assert forall|i: int, j: int| 0 <= i < j < merged.len() implies le(merged[i], merged[j]) by {
            if j < front.len() {
                assert(le(front[i], front[j]));
            } else {
                assert(le(front[i], last));
            }
        }
    }
}

/// A merge depends on the order only through how it ranks an element of the
/// one argument against an element of the other.
pub proof fn lemma_merge_agrees<A>(
    a: Seq<A>,
    b: Seq<A>,
    le: spec_fn(A, A) -> bool,
    other: spec_fn(A, A) -> bool,
)
    requires
        forall|i: int, j: int|
            0 <= i < a.len() && 0 <= j < b.len() ==> le(#[trigger] a[i], #[trigger] b[j]) == other(
                a[i],
                b[j],
            ),
    ensures
        merge_in_order(a, b, le) == merge_in_order(a, b, other),
    decreases a.len() + b.len(),
{
    if a.len() > 0 && b.len() > 0 {
        assert(le(a[a.len() - 1], b[b.len() - 1]) == other(a[a.len() - 1], b[b.len() - 1]));
        let b_is_last = le(a.last(), b.last());
        let rest_a = if b_is_last { a } else { a.drop_last() };
        let rest_b = if b_is_last { b.drop_last() } else { b };
        assert forall|i: int, j: int| 0 <= i < rest_a.len() && 0 <= j < rest_b.len() implies le(
            #[trigger] rest_a[i],
            #[trigger] rest_b[j],
        ) == other(rest_a[i], rest_b[j]) by {
            assert(rest_a[i] == a[i] && rest_b[j] == b[j]);
        }
        lemma_merge_agrees(rest_a, rest_b, le, other);
    }
}

/// An element that goes in front of `x` lands where it would land without
/// `x` at the end.
pub proof fn lemma_insert_in_order_before_last<A>(
    h: A,
    t: Seq<A>,
    x: A,
    le: spec_fn(A, A) -> bool,
)
    requires
        le(h, x),
    ensures
        insert_in_order(h, t.push(x), le) == insert_in_order(h, t, le).push(x),
    decreases t.len(),
{
    if t.len() > 0 {
        assert(t.push(x).drop_first() =~= t.drop_first().push(x));
        if !le(h, t.first()) {
            lemma_insert_in_order_before_last(h, t.drop_first(), x, le);
        }
    }
}

/// An element that no element of `t` lets in front of it lands at the end.
pub proof fn lemma_insert_in_order_last<A>(x: A, t: Seq<A>, le: spec_fn(A, A) -> bool)
    requires
        forall|j: int| 0 <= j < t.len() ==> !le(x, #[trigger] t[j]),
    ensures
        insert_in_order(x, t, le) == t.push(x),
{
    lemma_insert_in_order_at(x, t, t.len() as int, le);
}

/// An element that ranks with or behind all that stands in front of it, and
/// behind all that stands after it, is sorted to the end.
pub proof fn lemma_stable_sort_moves_last<A>(u: Seq<A>, x: A, t: Seq<A>, le: spec_fn(A, A) -> bool)
    requires
        forall|i: int| 0 <= i < u.len() ==> le(#[trigger] u[i], x),
        forall|j: int| 0 <= j < t.len() ==> !le(x, #[trigger] t[j]),
    ensures
        stable_sort(u + seq![x] + t, le) == stable_sort(u + t, le).push(x),
    decreases u.len(),
{
    let whole = u + seq![x] + t;
    if u.len() == 0 {
        assert(whole.drop_first() =~= t);
        assert(u + t =~= t);
        let sorted = stable_sort(t, le);
        lemma_stable_sort_permutes(t, le);
        assert forall|j: int| 0 <= j < sorted.len() implies !le(x, #[trigger] sorted[j]) by {
            vstd::seq_lib::to_multiset_contains(sorted, sorted[j]);
            vstd::seq_lib::to_multiset_contains(t, sorted[j]);
            let k = choose|k: int| 0 <= k < t.len() && t[k] == sorted[j];
            assert(!le(x, t[k]));
        }
        lemma_insert_in_order_last(x, sorted, le);
    } else {
        let rest = u.drop_first();
        assert(whole.drop_first() =~= rest + seq![x] + t);
        assert((u + t).drop_first() =~= rest + t);
        assert forall|i: int| 0 <= i < rest.len() implies le(#[trigger] rest[i], x) by {
            assert(rest[i] == u[i + 1]);
        }
        lemma_stable_sort_moves_last(rest, x, t, le);
        assert(le(u[0], x));
        lemma_insert_in_order_before_last(u.first(), stable_sort(rest + t, le), x, le);
    }
}

/// The merge of two sorted sequences is the stable sort of the one followed
/// by the other.
pub proof fn lemma_merge_is_stable_sort<A>(a: Seq<A>, b: Seq<A>, le: spec_fn(A, A) -> bool)
    requires
        sorted_by(a, le),
        sorted_by(b, le),
        strongly_connected(le),
        transitive(le),
    ensures
        merge_in_order(a, b, le) == stable_sort(a + b, le),
    decreases a.len() + b.len(),
{
    if a.len() == 0 {
        assert(a + b =~= b);
        lemma_stable_sort_keeps_sorted(b, le);
    } else if b.len() == 0 {
        assert(a + b =~= a);
        lemma_stable_sort_keeps_sorted(a, le);
    } else if le(a.last(), b.last()) {
        let rest = b.drop_last();
        let front = a + rest;
        lemma_sorted_subrange(b, le, 0, b.len() - 1);
        lemma_merge_is_stable_sort(a, rest, le);
        assert forall|i: int| 0 <= i < front.len() implies le(#[trigger] front[i], b.last()) by {
            if i < a.len() {
                assert(a.contains(a[i]));
                lemma_sorted_up_to_last(a, le, a[i]);
                assert(le(a[i], a.last()) && le(a.last(), b.last()));
            } else {
                assert(front[i] == b[i - a.len()]);
                assert(le(b[i - a.len()], b[b.len() - 1]));
            }
        }
        lemma_stable_sort_moves_last(front, b.last(), Seq::<A>::empty(), le);
        assert(front + seq![b.last()] + Seq::<A>::empty() =~= a + b);
        assert(front + Seq::<A>::empty() =~= front);
    } else {
        let rest = a.drop_last();
        lemma_sorted_subrange(a, le, 0, a.len() - 1);
        lemma_merge_is_stable_sort(rest, b, le);
        assert forall|i: int| 0 <= i < rest.len() implies le(#[trigger] rest[i], a.last()) by {
            assert(le(a[i], a[a.len() - 1]));
        }
        assert forall|j: int| 0 <= j < b.len() implies !le(a.last(), #[trigger] b[j]) by {
            assert(b.contains(b[j]));
            lemma_sorted_up_to_last(b, le, b[j]);
            assert(le(a.last(), b[j]) && le(b[j], b.last()) ==> le(a.last(), b.last()));
        }
        lemma_stable_sort_moves_last(rest, a.last(), b, le);
        assert(rest + seq![a.last()] + b =~= a + b);
    }
}

/// A type whose values stand in one total preorder, decided on their models.
pub trait Ranked: DeepView + Sized {
    /// `a` is ranked with `b` or in front of it.
    spec fn rank_le(a: Self::V, b: Self::V) -> bool;

    /// Of two models, one is ranked with or in front of the other.
    proof fn rank_le_total(a: Self::V, b: Self::V)
        ensures
            Self::rank_le(a, b) || Self::rank_le(b, a),
    ;

    /// The ranking carries over a model in the middle.
    proof fn rank_le_transitive(a: Self::V, b: Self::V, c: Self::V)
        requires
            Self::rank_le(a, b),
            Self::rank_le(b, c),
        ensures
            Self::rank_le(a, c),
    ;

    /// Decides the ranking of two values.
    fn ranks_le(&self, other: &Self) -> (le: bool)
        ensures
            le == Self::rank_le(self.deep_view(), other.deep_view()),
    ;
}

/// The ranking of `T` as a relation on models.
pub open spec fn rank_order<T: Ranked>() -> spec_fn(T::V, T::V) -> bool {
    |a: T::V, b: T::V| T::rank_le(a, b)
}

/// The ranking of a `Ranked` type is total and transitive.
pub proof fn lemma_rank_order_is_total_preorder<T: Ranked>()
    ensures
        strongly_connected(rank_order::<T>()),
        transitive(rank_order::<T>()),
{
    let le = rank_order::<T>();
    assert forall|a: T::V, b: T::V| #[trigger] le(a, b) || #[trigger] le(b, a) by {
        T::rank_le_total(a, b);
    }
    assert forall|a: T::V, b: T::V, c: T::V| #[trigger] le(a, b) && #[trigger] le(b, c) implies le(
        a,
        c,
    ) by {
        T::rank_le_transitive(a, b, c);
    }
}

/// Puts `item` into `sorted` in front of the first value that it is ranked
/// with or in front of.
pub fn insert_ranked<T: Ranked>(sorted: &mut Vec<T>, item: T)
    ensures
        final(sorted).deep_view() == insert_in_order(
            item.deep_view(),
            old(sorted).deep_view(),
            rank_order::<T>(),
        ),
{
    let len = sorted.len();
    let mut at: usize = 0;
    while at < len
        invariant
            len == sorted.len(),
            *sorted == *old(sorted),
            at <= len,
            forall|j: int|
                0 <= j < at ==> !T::rank_le(item.deep_view(), #[trigger] sorted.deep_view()[j]),
        ensures
            at <= len,
            forall|j: int|
                0 <= j < at ==> !T::rank_le(item.deep_view(), #[trigger] sorted.deep_view()[j]),
            at < len ==> T::rank_le(item.deep_view(), sorted.deep_view()[at as int]),
        decreases len - at,
    {
        if item.ranks_le(&sorted[at]) {
            break;
        }
        at += 1;
    }
    proof {
        lemma_insert_in_order_at(
            item.deep_view(),
            sorted.deep_view(),
            at as int,
            rank_order::<T>(),
        );
    }
    sorted.insert(at, item);
}

/// Sorts `items` by rank; values ranked alike keep their order.
pub fn sort_ranked<T: Ranked>(items: Vec<T>) -> (sorted: Vec<T>)
    ensures
        sorted.deep_view() == stable_sort(items.deep_view(), rank_order::<T>()),
        sorted_by(sorted.deep_view(), rank_order::<T>()),
        sorted.deep_view().to_multiset() == items.deep_view().to_multiset(),
{
    let ghost all = items.deep_view();
    let mut rest = items;
    let mut sorted: Vec<T> = Vec::new();
    while rest.len() > 0
        invariant
            rest.len() <= all.len(),
            rest.deep_view() == all.take(rest.len() as int),
            sorted.deep_view() == stable_sort(all.skip(rest.len() as int), rank_order::<T>()),
        decreases rest.len(),
    {
        let ghost left = rest.len() as int;
        assert(rest.deep_view()[left - 1] == rest@[left - 1].deep_view());
        let item = rest.pop().unwrap();
        proof {
            assert(all.skip(left - 1).drop_first() =~= all.skip(left));
        }
        insert_ranked(&mut sorted, item);
    }
    proof {
        assert(all.skip(0) =~= all);
        lemma_rank_order_is_total_preorder::<T>();
        lemma_stable_sort_sorted(all, rank_order::<T>());
        lemma_stable_sort_permutes(all, rank_order::<T>());
    }
    sorted
}

/// The values of `items` in the opposite order.
pub fn reversed<T: DeepView>(items: Vec<T>) -> (turned: Vec<T>)
    ensures
        turned.deep_view() == items.deep_view().reverse(),
{
    let ghost all = items.deep_view();
    let mut rest = items;
    let mut turned: Vec<T> = Vec::new();
    while rest.len() > 0
        invariant
            rest.len() <= all.len(),
            rest.deep_view() == all.take(rest.len() as int),
            turned.len() == all.len() - rest.len(),
            forall|j: int|
                0 <= j < turned.len() ==> (#[trigger] turned.deep_view()[j]) == all[all.len() - 1
                    - j],
        decreases rest.len(),
    {
        let ghost left = rest.len() as int;
        let ghost before = turned.deep_view();
        assert(rest.deep_view()[left - 1] == rest@[left - 1].deep_view());
        let item = rest.pop().unwrap();
        turned.push(item);
        assert(turned.deep_view() =~= before.push(all[left - 1]));
    }
    turned
}

} // verus!
