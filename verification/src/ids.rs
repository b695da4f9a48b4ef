//! Id lists: strictly increasing identifier sequences handed out by a counter.

use vstd::prelude::*;

verus! {

/// Every earlier id is smaller than every later one (so no id repeats).
pub open spec fn strictly_increasing(ids: Seq<u32>) -> bool {
    forall|i: int, j: int| 0 <= i < j < ids.len() ==> ids[i] < ids[j]
}

/// Every id is below the next id the counter will hand out.
pub open spec fn all_below(ids: Seq<u32>, next: u32) -> bool {
    forall|i: int| 0 <= i < ids.len() ==> ids[i] < next
}

/// A well-formed id list for counter value `next`.
pub open spec fn id_list_wf(ids: Seq<u32>, next: u32) -> bool {
    strictly_increasing(ids) && all_below(ids, next)
}

/// The position of `id` in `ids` (meaningful only when `ids` contains it).
pub open spec fn index_of_id(ids: Seq<u32>, id: u32) -> int {
    choose|i: int| 0 <= i < ids.len() && ids[i] == id
}

/// In a strictly increasing list an id has exactly one position.
pub proof fn lemma_index_of_id(ids: Seq<u32>, id: u32, i: int)
    requires
        strictly_increasing(ids),
        0 <= i < ids.len(),
        ids[i] == id,
    ensures
        index_of_id(ids, id) == i,
        ids.contains(id),
{
    let k = index_of_id(ids, id);
    assert(0 <= k < ids.len() && ids[k] == id);
}

/// Appending the counter value keeps the list well formed for the next counter value.
pub proof fn lemma_push_next(ids: Seq<u32>, next: u32)
    requires
        id_list_wf(ids, next),
        next < u32::MAX,
    ensures
        id_list_wf(ids.push(next), (next + 1) as u32),
{
}

/// Removing one position keeps the list well formed.
pub proof fn lemma_remove_keeps_wf(ids: Seq<u32>, next: u32, k: int)
    requires
        id_list_wf(ids, next),
        0 <= k < ids.len(),
    ensures
        id_list_wf(ids.remove(k), next),
        !ids.remove(k).contains(ids[k]),
{
    let r = ids.remove(k);
    assert forall|i: int, j: int| 0 <= i < j < r.len() implies r[i] < r[j] by {
        let oi = if i < k { i } else { i + 1 };
        let oj = if j < k { j } else { j + 1 };
        assert(r[i] == ids[oi]);
        assert(r[j] == ids[oj]);
    }
    if r.contains(ids[k]) {
        let i = choose|i: int| 0 <= i < r.len() && r[i] == ids[k];
        let oi = if i < k { i } else { i + 1 };
        assert(r[i] == ids[oi]);
    }
}

/// Position of `id` in `ids`, or `None` when absent.
pub fn find_id(ids: &Vec<u32>, id: u32) -> (r: Option<usize>)
    ensures
        match r {
            Some(i) => i < ids@.len() && ids@[i as int] == id,
            None => !ids@.contains(id),
        },
{
    let mut i: usize = 0;
    while i < ids.len()
        invariant
            i <= ids@.len(),
            forall|j: int| 0 <= j < i ==> ids@[j] != id,
        decreases ids@.len() - i,
    {
        if ids[i] == id {
            return Some(i);
        }
        i += 1;
    }
    None
}

} // verus!
