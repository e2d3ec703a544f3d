//! Finding the first element of a sequence that satisfies a predicate.
use vstd::prelude::*;

verus! {

/// The position of the first element of `s` that satisfies `p`, or the
/// length of `s` where none does.
pub open spec fn first_index<V>(s: Seq<V>, p: spec_fn(V) -> bool) -> int
    decreases s.len(),
{
    if s.len() == 0 {
        0
    } else if p(s[0]) {
        0
    } else {
        1 + first_index(s.drop_first(), p)
    }
}

/// What `first_index` finds.
pub proof fn lemma_first_index<V>(s: Seq<V>, p: spec_fn(V) -> bool)
    ensures
        0 <= first_index(s, p) <= s.len(),
        forall|j: int| 0 <= j < first_index(s, p) ==> !p(#[trigger] s[j]),
        first_index(s, p) < s.len() ==> p(s[first_index(s, p)]),
    decreases s.len(),
{
    if s.len() > 0 && !p(s[0]) {
        lemma_first_index(s.drop_first(), p);
        assert forall|j: int| 0 <= j < first_index(s, p) implies !p(#[trigger] s[j]) by {
            if j > 0 {
                assert(s[j] == s.drop_first()[j - 1]);
            }
        }
    }
}

/// The first index whose element `p` picks is `k`.
pub proof fn lemma_first_index_is<V>(s: Seq<V>, p: spec_fn(V) -> bool, k: int)
    requires
        0 <= k <= s.len(),
        forall|j: int| 0 <= j < k ==> !p(#[trigger] s[j]),
        k < s.len() ==> p(s[k]),
    ensures
        first_index(s, p) == k,
    decreases s.len(),
{
    if s.len() > 0 && k > 0 {
        assert(!p(s[0]));
        assert forall|j: int| 0 <= j < k - 1 implies !p(#[trigger] s.drop_first()[j]) by {
            assert(s.drop_first()[j] == s[j + 1]);
        }
        lemma_first_index_is(s.drop_first(), p, k - 1);
    }
}

} // verus!
