//! The first place in a sequence at which something holds.

use vstd::prelude::*;

verus! {

/// Whether `i` is the first index of `s` whose item satisfies `p`.
pub open spec fn is_first<A>(s: Seq<A>, p: spec_fn(A) -> bool, i: int) -> bool {
    &&& 0 <= i < s.len()
    &&& p(s[i])
    &&& forall|j: int| 0 <= j < i ==> !p(#[trigger] s[j])
}

/// The first index of `s` whose item satisfies `p`, if there is one.
pub open spec fn first_index<A>(s: Seq<A>, p: spec_fn(A) -> bool) -> Option<int> {
    if exists|i: int| is_first(s, p, i) {
        Some(choose|i: int| is_first(s, p, i))
    } else {
        None
    }
}

/// Below an index that satisfies `p` there is a first one.
proof fn lemma_first_below<A>(s: Seq<A>, p: spec_fn(A) -> bool, k: int)
    requires
        0 <= k < s.len(),
        p(s[k]),
    ensures
        exists|i: int| 0 <= i <= k && is_first(s, p, i),
    decreases k,
{
    if exists|j: int| 0 <= j < k && p(#[trigger] s[j]) {
        let j = choose|j: int| 0 <= j < k && p(#[trigger] s[j]);
        lemma_first_below(s, p, j);
    } else {
        assert(is_first(s, p, k));
    }
}

/// `first_index` is `Some(i)` exactly when `i` is the first index that
/// satisfies `p`, and `None` exactly when no index does.
pub proof fn lemma_first_index<A>(s: Seq<A>, p: spec_fn(A) -> bool)
    ensures
        forall|i: int| is_first(s, p, i) <==> first_index(s, p) == Some(i),
        first_index(s, p) is None <==> forall|j: int| 0 <= j < s.len() ==> !p(#[trigger] s[j]),
{
    assert forall|i: int| is_first(s, p, i) implies first_index(s, p) == Some(i) by {
        let c = choose|c: int| is_first(s, p, c);
        if c < i {
            assert(!p(s[c]));
        } else if i < c {
            assert(!p(s[i]));
        }
    }
    if first_index(s, p) is None {
        assert forall|j: int| 0 <= j < s.len() implies !p(#[trigger] s[j]) by {
            if p(s[j]) {
                lemma_first_below(s, p, j);
            }
        }
    }
}

} // verus!
