//! Facts about picking items from a sequence with a test.

use vstd::prelude::*;

verus! {

/// Two tests that agree on every item of a sequence pick the same items.
pub proof fn lemma_filter_agree<A>(s: Seq<A>, p: spec_fn(A) -> bool, q: spec_fn(A) -> bool)
    requires
        forall|i: int| 0 <= i < s.len() ==> p(#[trigger] s[i]) == q(s[i]),
    ensures
        s.filter(p) == s.filter(q),
    decreases s.len(),
{
    reveal(Seq::filter);
    if s.len() > 0 {
        assert(p(s.last()) == q(s[s.len() - 1]));
        assert forall|i: int| 0 <= i < s.drop_last().len() implies p(#[trigger] s.drop_last()[i]) == q(
            s.drop_last()[i],
        ) by {
            assert(s.drop_last()[i] == s[i]);
        }
        lemma_filter_agree(s.drop_last(), p, q);
    }
}

/// Where a picked item comes from: the item at place `k` of what a test
/// picks from a sequence stands at some place of the sequence, not before
/// `k`, and passes the test.
pub proof fn lemma_filter_source<A>(s: Seq<A>, keep: spec_fn(A) -> bool, k: int) -> (i: int)
    requires
        0 <= k < s.filter(keep).len(),
    ensures
        k <= i < s.len(),
        s[i] == s.filter(keep)[k],
        keep(s[i]),
    decreases s.len(),
{
    reveal(Seq::filter);
    let front = s.drop_last();
    if k < front.filter(keep).len() {
        let i = lemma_filter_source(front, keep, k);
        assert(front[i] == s[i]);
        i
    } else {
        front.lemma_filter_len(keep);
        s.len() - 1
    }
}

/// Where an item goes: an item of a sequence that passes a test stands at
/// some place of what the test picks.
pub proof fn lemma_filter_target<A>(s: Seq<A>, keep: spec_fn(A) -> bool, i: int) -> (k: int)
    requires
        0 <= i < s.len(),
        keep(s[i]),
    ensures
        0 <= k < s.filter(keep).len(),
        s.filter(keep)[k] == s[i],
    decreases s.len(),
{
    reveal(Seq::filter);
    let front = s.drop_last();
    if i < front.len() {
        assert(front[i] == s[i]);
        lemma_filter_target(front, keep, i)
    } else {
        s.filter(keep).len() - 1
    }
}

} // verus!
