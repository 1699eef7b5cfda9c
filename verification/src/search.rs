//! Finding the first element of a sequence that meets a condition.

use vstd::prelude::*;

verus! {

/// `i` is the least index of `s` at which `pred` holds.
pub open spec fn is_first_where<A>(s: Seq<A>, pred: spec_fn(A) -> bool, i: int) -> bool {
    &&& 0 <= i < s.len()
    &&& pred(s[i])
    &&& forall|j: int| 0 <= j < i ==> !pred(#[trigger] s[j])
}

/// The least index of `s` at which `pred` holds, if there is one.
pub open spec fn first_where<A>(s: Seq<A>, pred: spec_fn(A) -> bool) -> Option<int> {
    if exists|i: int| is_first_where(s, pred, i) {
        Some(choose|i: int| is_first_where(s, pred, i))
    } else {
        None
    }
}

/// A least index is the one `first_where` reports.
pub proof fn lemma_first_where_found<A>(s: Seq<A>, pred: spec_fn(A) -> bool, i: int)
    requires
        is_first_where(s, pred, i),
    ensures
        first_where(s, pred) == Some(i),
{
    let k = choose|k: int| is_first_where(s, pred, k);
    assert(is_first_where(s, pred, k));
    if k < i {
        assert(!pred(s[k]));
    }
    if i < k {
        assert(!pred(s[i]));
    }
}

/// Where `pred` holds nowhere, `first_where` reports nothing.
pub proof fn lemma_first_where_absent<A>(s: Seq<A>, pred: spec_fn(A) -> bool)
    requires
        forall|j: int| 0 <= j < s.len() ==> !pred(#[trigger] s[j]),
    ensures
        first_where(s, pred) is None,
{
}

/// What `first_where` reports is a least index, and it reports one whenever
/// `pred` holds somewhere.
pub proof fn lemma_first_where_sound<A>(s: Seq<A>, pred: spec_fn(A) -> bool)
    ensures
        first_where(s, pred) matches Some(i) ==> is_first_where(s, pred, i),
        first_where(s, pred) is None ==> forall|j: int|
            0 <= j < s.len() ==> !pred(#[trigger] s[j]),
    decreases s.len(),
{
    if first_where(s, pred) is None {
        assert forall|j: int| 0 <= j < s.len() implies !pred(#[trigger] s[j]) by {
            if pred(s[j]) {
                lemma_least_exists(s, pred, j);
            }
        }
    }
}

/// Below any index at which `pred` holds there is a least one.
proof fn lemma_least_exists<A>(s: Seq<A>, pred: spec_fn(A) -> bool, j: int)
    requires
        0 <= j < s.len(),
        pred(s[j]),
    ensures
        exists|i: int| is_first_where(s, pred, i),
    decreases j,
{
    if exists|k: int| 0 <= k < j && pred(s[k]) {
        let k = choose|k: int| 0 <= k < j && pred(s[k]);
        lemma_least_exists(s, pred, k);
    } else {
        assert(is_first_where(s, pred, j));
    }
}

} // verus!
