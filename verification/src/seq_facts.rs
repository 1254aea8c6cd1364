//! Small facts about sequence filtering that the store's contracts lean on:
//! filtering respects pointwise-equal predicates, splits a sequence's length
//! between a predicate's holders and refusers, and keeps distinct keys
//! distinct.

use vstd::prelude::*;

verus! {

/// Two predicates that agree on every element filter a sequence identically.
pub proof fn lemma_filter_congruence<A>(s: Seq<A>, p: spec_fn(A) -> bool, q: spec_fn(A) -> bool)
    requires
        forall|i: int| 0 <= i < s.len() ==> p(#[trigger] s[i]) == q(s[i]),
    ensures
        s.filter(p) =~= s.filter(q),
    decreases s.len(),
{
    reveal(Seq::filter);
    if s.len() != 0 {
        let pre = s.drop_last();
        assert(forall|i: int| 0 <= i < pre.len() ==> p(#[trigger] pre[i]) == q(pre[i]));
        lemma_filter_congruence(pre, p, q);
    }
}

/// A predicate's holders and refusers together account for every element.
pub proof fn lemma_filter_length_partition<A>(
    s: Seq<A>,
    p: spec_fn(A) -> bool,
    q: spec_fn(A) -> bool,
)
    requires
        forall|i: int| 0 <= i < s.len() ==> q(#[trigger] s[i]) == !p(s[i]),
    ensures
        s.filter(p).len() + s.filter(q).len() == s.len(),
    decreases s.len(),
{
    reveal(Seq::filter);
    if s.len() != 0 {
        let pre = s.drop_last();
        assert(forall|i: int| 0 <= i < pre.len() ==> q(#[trigger] pre[i]) == !p(pre[i]));
        lemma_filter_length_partition(pre, p, q);
    }
}

/// Filtering keeps pairwise-distinct keys distinct.  Keys are partial: two
/// elements collide only when both keys are present and equal.
pub proof fn lemma_filter_distinct_keys<A>(
    s: Seq<A>,
    p: spec_fn(A) -> bool,
    key: spec_fn(A) -> Option<int>,
)
    requires
        forall|i: int, j: int|
            0 <= i < j < s.len() ==> match (key(#[trigger] s[i]), key(#[trigger] s[j])) {
                (Some(a), Some(b)) => a != b,
                _ => true,
            },
    ensures
        forall|i: int, j: int|
            0 <= i < j < s.filter(p).len() ==> match (
                key(#[trigger] s.filter(p)[i]),
                key(#[trigger] s.filter(p)[j]),
            ) {
                (Some(a), Some(b)) => a != b,
                _ => true,
            },
    decreases s.len(),
{
    reveal(Seq::filter);
    if s.len() != 0 {
        let pre = s.drop_last();
        let last = s.last();
        assert(forall|i: int, j: int|
            0 <= i < j < pre.len() ==> match (key(#[trigger] pre[i]), key(#[trigger] pre[j])) {
                (Some(a), Some(b)) => a != b,
                _ => true,
            });
        lemma_filter_distinct_keys(pre, p, key);
        if p(last) {
            let kept = pre.filter(p);
            assert forall|i: int|
                0 <= i < kept.len() implies match (key(#[trigger] kept[i]), key(last)) {
                (Some(a), Some(b)) => a != b,
                _ => true,
            } by {
                assert(kept.contains(kept[i]));
                pre.lemma_filter_contains_rev(p, kept[i]);
                let w = choose|w: int| 0 <= w < pre.len() && pre[w] == kept[i];
                assert(s[w] == kept[i]);
                assert(s[s.len() - 1] == last);
            }
        }
    }
}

} // verus!
