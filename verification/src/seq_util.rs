//! Facts about filtered sequences that the model's invariants rest on.

use vstd::prelude::*;

verus! {

/// `rel` relates every earlier element of `s` to every later one.
pub open spec fn pairwise<A>(s: Seq<A>, rel: spec_fn(A, A) -> bool) -> bool {
    forall|i: int, j: int| 0 <= i < j < s.len() ==> rel(#[trigger] s[i], #[trigger] s[j])
}

/// Filtering keeps the elements in their order, so a relation between
/// earlier and later elements survives it.
pub proof fn lemma_filter_pairwise<A>(s: Seq<A>, pred: spec_fn(A) -> bool, rel: spec_fn(A, A) -> bool)
    requires
        pairwise(s, rel),
    ensures
        pairwise(s.filter(pred), rel),
    decreases s.len(),
{
    reveal(Seq::filter);
    if s.len() > 0 {
        let rest = s.drop_last();
        let last = s.last();
        assert(pairwise(rest, rel)) by {
            assert forall|i: int, j: int| 0 <= i < j < rest.len() implies rel(
                #[trigger] rest[i],
                #[trigger] rest[j],
            ) by {
                assert(rel(s[i], s[j]));
            }
        }
        lemma_filter_pairwise(rest, pred, rel);
        if pred(last) {
            let kept = rest.filter(pred);
            let out = kept.push(last);
            assert forall|i: int, j: int| 0 <= i < j < out.len() implies rel(
                #[trigger] out[i],
                #[trigger] out[j],
            ) by {
                if j < kept.len() {
                    assert(rel(kept[i], kept[j]));
                } else {
                    assert(kept.contains(kept[i]));
                    rest.lemma_filter_contains_rev(pred, kept[i]);
                    let k = choose|k: int| 0 <= k < rest.len() && rest[k] == kept[i];
                    assert(rel(s[k], s[s.len() - 1]));
                }
            }
        }
    }
}

/// A filtered sequence holds exactly the elements of the sequence that
/// satisfy the predicate.
pub proof fn lemma_filter_members<A>(s: Seq<A>, pred: spec_fn(A) -> bool)
    ensures
        forall|x: A| #[trigger] s.filter(pred).contains(x) <==> s.contains(x) && pred(x),
{
    assert forall|x: A| #[trigger] s.filter(pred).contains(x) <==> s.contains(x) && pred(x) by {
        if s.filter(pred).contains(x) {
            s.lemma_filter_contains_rev(pred, x);
            let k = choose|k: int| 0 <= k < s.filter(pred).len() && s.filter(pred)[k] == x;
            s.lemma_filter_pred(pred, k);
        }
        if s.contains(x) && pred(x) {
            let k = choose|k: int| 0 <= k < s.len() && s[k] == x;
            s.lemma_filter_contains(pred, k);
        }
    }
}

/// Filtering a sequence without duplicates leaves no duplicates.
pub proof fn lemma_filter_no_duplicates<A>(s: Seq<A>, pred: spec_fn(A) -> bool)
    requires
        s.no_duplicates(),
    ensures
        s.filter(pred).no_duplicates(),
{
    let differ = |a: A, b: A| a != b;
    assert(pairwise(s, differ));
    lemma_filter_pairwise(s, pred, differ);
    let out = s.filter(pred);
    assert forall|i: int, j: int| 0 <= i < out.len() && 0 <= j < out.len() && i != j implies out[i]
        != out[j] by {
        if i < j {
            assert(differ(out[i], out[j]));
        } else {
            assert(differ(out[j], out[i]));
        }
    }
}

} // verus!
