//! Facts about filtered sequences that the loops of this crate rest on.

use vstd::prelude::*;

verus! {

/// Filtering a sequence that got one more element: the element is kept or
/// dropped, and the rest is filtered as before.
pub proof fn lemma_filter_push<A>(s: Seq<A>, x: A, keep: spec_fn(A) -> bool)
    ensures
        s.push(x).filter(keep) == if keep(x) {
            s.filter(keep).push(x)
        } else {
            s.filter(keep)
        },
{
    reveal(Seq::filter);
    assert(s.push(x).drop_last() =~= s);
}

/// Filtering one element more of a prefix.
pub proof fn lemma_filter_take_step<A>(s: Seq<A>, i: int, keep: spec_fn(A) -> bool)
    requires
        0 <= i < s.len(),
    ensures
        s.take(i + 1).filter(keep) == if keep(s[i]) {
            s.take(i).filter(keep).push(s[i])
        } else {
            s.take(i).filter(keep)
        },
{
    assert(s.take(i + 1) =~= s.take(i).push(s[i]));
    lemma_filter_push(s.take(i), s[i], keep);
}

/// Nothing is kept of the empty sequence.
pub proof fn lemma_filter_empty<A>(keep: spec_fn(A) -> bool)
    ensures
        Seq::<A>::empty().filter(keep) == Seq::<A>::empty(),
{
    reveal(Seq::filter);
}

/// A row that the filter drops can be put in anywhere without a change to
/// what the filter keeps.
pub proof fn lemma_filter_ignores_dropped<A>(s: Seq<A>, at: int, x: A, keep: spec_fn(A) -> bool)
    requires
        0 <= at <= s.len(),
        !keep(x),
    ensures
        s.insert(at, x).filter(keep) == s.filter(keep),
{
    let front = s.take(at);
    let back = s.skip(at);
    assert(s =~= front + back);
    Seq::filter_distributes_over_add(front, back, keep);
    Seq::filter_distributes_over_add(front.push(x), back, keep);
    lemma_filter_push(front, x, keep);
}

/// What the filter keeps satisfies it and stood in the sequence.
pub proof fn lemma_filter_kept<A>(s: Seq<A>, keep: spec_fn(A) -> bool, k: int)
    requires
        0 <= k < s.filter(keep).len(),
    ensures
        keep(s.filter(keep)[k]),
        exists|i: int| 0 <= i < s.len() && s[i] == s.filter(keep)[k],
{
    s.lemma_filter_pred(keep, k);
    s.lemma_filter_contains_rev(keep, s.filter(keep)[k]);
}

/// The first element that the filter keeps is the first of the sequence that
/// satisfies it.
pub proof fn lemma_first_kept<A>(s: Seq<A>, keep: spec_fn(A) -> bool, i: int)
    requires
        0 <= i < s.len(),
        s.take(i).filter(keep).len() == 0,
        keep(s[i]),
    ensures
        s.filter(keep).len() > 0,
        s.filter(keep).first() == s[i],
{
    lemma_filter_take_step(s, i, keep);
    assert(s =~= s.take(i + 1) + s.skip(i + 1));
    Seq::filter_distributes_over_add(s.take(i + 1), s.skip(i + 1), keep);
}

/// Whether `id` is one of `ids`.
pub(crate) fn contains_id(ids: &Vec<i32>, id: i32) -> (found: bool)
    ensures
        found == ids@.contains(id),
{
    let mut i: usize = 0;
    while i < ids.len()
        invariant
            i <= ids.len(),
            forall|j: int| 0 <= j < i ==> ids@[j] != id,
        decreases ids.len() - i,
    {
        if ids[i] == id {
            return true;
        }
        i += 1;
    }
    false
}

} // verus!
