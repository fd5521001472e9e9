//! The connected clients of an emulated device: which of them stay after a
//! broadcast that some could not take, or after one disconnects.

use vstd::prelude::*;

verus! {

/// The items of `s` whose mark in `keep` is set, in their order.
pub open spec fn kept<T>(s: Seq<T>, keep: Seq<bool>) -> Seq<T>
    decreases s.len(),
{
    if s.len() == 0 {
        Seq::empty()
    } else {
        let rest = kept(s.drop_last(), keep);
        if keep[s.len() - 1] { rest.push(s.last()) } else { rest }
    }
}

proof fn lemma_kept_prefix<T>(s: Seq<T>, keep: Seq<bool>, k: int)
    requires
        0 <= k < s.len(),
    ensures
        kept(s.take(k + 1), keep) == if keep[k] { kept(s.take(k), keep).push(s[k]) } else { kept(s.take(k), keep) },
{
    assert(s.take(k + 1).drop_last() =~= s.take(k));
}

/// Keep the items whose mark is set, in their order; the others are dropped.
/// A broadcast marks the clients it reached, a disconnect all but the client
/// that left.
pub fn keep_marked<T>(items: Vec<T>, keep: &Vec<bool>) -> (r: Vec<T>)
    requires
        keep@.len() == items@.len(),
    ensures
        r@ == kept(items@, keep@),
{
    let ghost orig = items@;
    let mut items = items;
    let mut out: Vec<T> = Vec::new();
    let mut k: usize = 0;
    assert(orig.take(0) =~= Seq::<T>::empty());
    assert(orig.len() == keep.len());
    while items.len() > 0
        invariant
            k + items@.len() == orig.len(),
            keep@.len() == orig.len(),
            orig.len() <= usize::MAX,
            items@ == orig.skip(k as int),
            out@ == kept(orig.take(k as int), keep@),
        decreases items@.len(),
    {
        let x = items.remove(0);
        proof {
            lemma_kept_prefix(orig, keep@, k as int);
            assert(x == orig[k as int]);
            assert(items@ =~= orig.skip(k + 1));
        }
        if keep[k] {
            out.push(x);
        }
        k = k + 1;
    }
    assert(orig.take(k as int) =~= orig);
    out
}

/// Marking every item keeps the list as it is.
pub proof fn lemma_keep_all<T>(s: Seq<T>, keep: Seq<bool>)
    requires
        forall|j: int| 0 <= j < s.len() ==> #[trigger] keep[j],
    ensures
        kept(s, keep) == s,
    decreases s.len(),
{
    if s.len() > 0 {
        lemma_keep_all(s.drop_last(), keep);
        assert(s.drop_last().push(s.last()) =~= s);
    }
}

/// Marking all items but the one at `i` removes exactly that one (the client
/// that disconnected), keeping the others in their order.
pub proof fn lemma_drop_one<T>(s: Seq<T>, keep: Seq<bool>, i: int)
    requires
        0 <= i < s.len(),
        forall|j: int| 0 <= j < s.len() ==> #[trigger] keep[j] == (j != i),
    ensures
        kept(s, keep) == s.remove(i),
    decreases s.len(),
{
    let n = s.len() - 1;
    if i == n {
        lemma_keep_all(s.drop_last(), keep);
        assert(s.drop_last() =~= s.remove(i));
    } else {
        lemma_drop_one(s.drop_last(), keep, i);
        assert(s.drop_last().remove(i).push(s.last()) =~= s.remove(i));
    }
}

} // verus!
