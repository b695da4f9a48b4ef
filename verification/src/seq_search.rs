//! First-match search over sequences, shared by the tap lists.

use vstd::prelude::*;

verus! {

/// Whether some element of `s` satisfies `p`.
pub open spec fn any_where<T>(s: Seq<T>, p: spec_fn(T) -> bool) -> bool {
    exists|i: int| 0 <= i < s.len() && #[trigger] p(s[i])
}

/// `i` is the first index of `s` whose element satisfies `p`.
pub open spec fn is_first_where<T>(s: Seq<T>, p: spec_fn(T) -> bool, i: int) -> bool {
    &&& 0 <= i < s.len()
    &&& p(s[i])
    &&& forall|j: int| 0 <= j < i ==> !#[trigger] p(s[j])
}

/// The first index of `s` whose element satisfies `p` (meaningful only when
/// [`any_where`] holds).
pub open spec fn first_where<T>(s: Seq<T>, p: spec_fn(T) -> bool) -> int {
    choose|i: int| is_first_where(s, p, i)
}

/// The first matching index is unique, so [`first_where`] names it.
pub proof fn lemma_first_where<T>(s: Seq<T>, p: spec_fn(T) -> bool, i: int)
    requires
        is_first_where(s, p, i),
    ensures
        first_where(s, p) == i,
        any_where(s, p),
{
    let k = first_where(s, p);
    assert(is_first_where(s, p, k));
    if k < i {
        assert(!p(s[k]));
    } else if i < k {
        assert(!p(s[i]));
    }
}

/// Some index at or below a match is the first match.
proof fn lemma_first_below<T>(s: Seq<T>, p: spec_fn(T) -> bool, i: int)
    requires
        0 <= i < s.len(),
        p(s[i]),
    ensures
        exists|k: int| is_first_where(s, p, k),
    decreases i,
{
    if exists|j: int| 0 <= j < i && #[trigger] p(s[j]) {
        let j = choose|j: int| 0 <= j < i && #[trigger] p(s[j]);
        lemma_first_below(s, p, j);
    } else {
        assert(is_first_where(s, p, i));
    }
}

/// When some element satisfies `p`, [`first_where`] is the first such index.
pub proof fn lemma_first_exists<T>(s: Seq<T>, p: spec_fn(T) -> bool)
    requires
        any_where(s, p),
    ensures
        is_first_where(s, p, first_where(s, p)),
{
    let i = choose|i: int| 0 <= i < s.len() && #[trigger] p(s[i]);
    lemma_first_below(s, p, i);
}

} // verus!
