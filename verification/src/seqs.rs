//! Searching sequences: the first element that satisfies a predicate.
use vstd::prelude::*;

verus! {

/// The first element of `s` that satisfies `pred`, if any.
pub open spec fn first_where<A>(s: Seq<A>, pred: spec_fn(A) -> bool) -> Option<A>
    decreases s.len(),
{
    if s.len() == 0 {
        None
    } else if pred(s[0]) {
        Some(s[0])
    } else {
        first_where(s.drop_first(), pred)
    }
}

/// If `s[i]` is the first element that satisfies `pred`, it is what
/// `first_where` finds.
pub proof fn lemma_first_where_at<A>(s: Seq<A>, pred: spec_fn(A) -> bool, i: int)
    requires
        0 <= i < s.len(),
        pred(s[i]),
        forall|k: int| 0 <= k < i ==> !pred(#[trigger] s[k]),
    ensures
        first_where(s, pred) == Some(s[i]),
    decreases i,
{
    if i > 0 {
        assert(!pred(s[0]));
        lemma_first_where_at(s.drop_first(), pred, i - 1);
    }
}

/// If no element satisfies `pred`, `first_where` finds nothing.
pub proof fn lemma_first_where_none<A>(s: Seq<A>, pred: spec_fn(A) -> bool)
    requires
        forall|k: int| 0 <= k < s.len() ==> !pred(#[trigger] s[k]),
    ensures
        first_where(s, pred) is None,
    decreases s.len(),
{
    if s.len() > 0 {
        assert(!pred(s[0]));
        lemma_first_where_none(s.drop_first(), pred);
    }
}

/// What `first_where` finds is an element of `s` that satisfies `pred`, and
/// no earlier element does.
pub proof fn lemma_first_where_found<A>(s: Seq<A>, pred: spec_fn(A) -> bool)
    ensures
        first_where(s, pred) matches Some(x) ==> exists|i: int|
            0 <= i < s.len() && s[i] == x && pred(x) && forall|k: int|
                0 <= k < i ==> !pred(#[trigger] s[k]),
        first_where(s, pred) is None ==> forall|k: int| 0 <= k < s.len() ==> !pred(#[trigger] s[k]),
    decreases s.len(),
{
    if s.len() > 0 {
        lemma_first_where_found(s.drop_first(), pred);
        if pred(s[0]) {
            assert(s[0] == s[0]);
        } else {
            let t = s.drop_first();
            if let Some(x) = first_where(t, pred) {
                let j = choose|j: int|
                    0 <= j < t.len() && t[j] == x && pred(x) && forall|k: int|
                        0 <= k < j ==> !pred(#[trigger] t[k]);
                assert(s[j + 1] == x);
                assert forall|k: int| 0 <= k < j + 1 implies !pred(#[trigger] s[k]) by {
                    if k > 0 {
                        assert(s[k] == t[k - 1]);
                    }
                }
            } else {
                assert forall|k: int| 0 <= k < s.len() implies !pred(#[trigger] s[k]) by {
                    if k > 0 {
                        assert(s[k] == t[k - 1]);
                    }
                }
            }
        }
    }
}

/// `filter` over a prefix one longer: the new element is kept exactly when
/// it satisfies the predicate.
pub proof fn lemma_filter_take_step<A>(s: Seq<A>, pred: spec_fn(A) -> bool, i: int)
    requires
        0 <= i < s.len(),
    ensures
        s.take(i + 1).filter(pred) == if pred(s[i]) {
            s.take(i).filter(pred).push(s[i])
        } else {
            s.take(i).filter(pred)
        },
{
    assert(s.take(i + 1) =~= s.take(i).push(s[i]));
    s.take(i).lemma_filter_push(s[i], pred);
}

/// Every element of a filtered sequence satisfies the predicate and occurs in
/// the original sequence.
pub proof fn lemma_filter_members<A>(s: Seq<A>, pred: spec_fn(A) -> bool)
    ensures
        forall|k: int|
            0 <= k < s.filter(pred).len() ==> pred(#[trigger] s.filter(pred)[k]) && s.contains(
                s.filter(pred)[k],
            ),
    decreases s.len(),
{
    reveal(Seq::filter);
    if s.len() > 0 {
        lemma_filter_members(s.drop_last(), pred);
        let sub = s.drop_last().filter(pred);
        assert forall|k: int| 0 <= k < s.filter(pred).len() implies pred(
            #[trigger] s.filter(pred)[k],
        ) && s.contains(s.filter(pred)[k]) by {
            if k < sub.len() {
                assert(s.filter(pred)[k] == sub[k]);
                let j = choose|j: int| 0 <= j < s.drop_last().len() && s.drop_last()[j] == sub[k];
                assert(s[j] == sub[k]);
            } else {
                assert(s.filter(pred)[k] == s.last());
                assert(s[s.len() - 1] == s.last());
            }
        }
    }
}

} // verus!
