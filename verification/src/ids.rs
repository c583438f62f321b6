//! Lists of job identifiers: the history of a worker and the queue of the
//! coordinator.

use crate::task::JobId;
use std::collections::VecDeque;
use vstd::prelude::*;

verus! {

/// `ids` without any occurrence of `id`; the rest keeps its order.
pub open spec fn without(ids: Seq<JobId>, id: JobId) -> Seq<JobId>
    decreases ids.len(),
{
    if ids.len() == 0 {
        ids
    } else if ids.last() == id {
        without(ids.drop_last(), id)
    } else {
        without(ids.drop_last(), id).push(ids.last())
    }
}

/// `ids` with `id` appended unless it occurs already.
pub open spec fn with(ids: Seq<JobId>, id: JobId) -> Seq<JobId> {
    if ids.contains(id) {
        ids
    } else {
        ids.push(id)
    }
}

/// What `without` keeps: every other identifier that was there, and no more.
pub proof fn lemma_without_contains(ids: Seq<JobId>, id: JobId, j: JobId)
    ensures
        without(ids, id).contains(j) <==> ids.contains(j) && j != id,
    decreases ids.len(),
{
    if ids.len() > 0 {
        let front = ids.drop_last();
        let kept = without(front, id);
        lemma_without_contains(front, id, j);
        assert(ids =~= front.push(ids.last()));
        if ids.contains(j) {
            let i = choose|i: int| 0 <= i < ids.len() && ids[i] == j;
            if i < front.len() {
                assert(front[i] == j);
            }
        }
        if front.contains(j) {
            let i = choose|i: int| 0 <= i < front.len() && front[i] == j;
            assert(ids[i] == j);
        }
        if ids.last() != id {
            let all = kept.push(ids.last());
            if all.contains(j) {
                let i = choose|i: int| 0 <= i < all.len() && all[i] == j;
                if i < kept.len() {
                    assert(kept[i] == j);
                }
            }
            if kept.contains(j) {
                let i = choose|i: int| 0 <= i < kept.len() && kept[i] == j;
                assert(all[i] == j);
            }
            if j == ids.last() {
                assert(all[kept.len() as int] == j);
                assert(ids[ids.len() - 1] == j);
            }
        }
    }
}

/// `without` keeps a list free of duplicates so.
pub proof fn lemma_without_no_duplicates(ids: Seq<JobId>, id: JobId)
    requires
        ids.no_duplicates(),
    ensures
        without(ids, id).no_duplicates(),
    decreases ids.len(),
{
    if ids.len() > 0 {
        let front = ids.drop_last();
        lemma_without_no_duplicates(front, id);
        if ids.last() != id {
            assert(!without(front, id).contains(ids.last())) by {
                lemma_without_contains(front, id, ids.last());
                if front.contains(ids.last()) {
                    let i = choose|i: int| 0 <= i < front.len() && front[i] == ids.last();
                    assert(ids[i] == ids[ids.len() - 1]);
                }
            }
        }
    }
}

/// What a list holds after one more identifier was appended.
pub proof fn lemma_push_contains(ids: Seq<JobId>, id: JobId, j: JobId)
    ensures
        ids.push(id).contains(j) <==> ids.contains(j) || j == id,
{
    let longer = ids.push(id);
    if longer.contains(j) {
        let i = choose|i: int| 0 <= i < longer.len() && longer[i] == j;
        if i < ids.len() {
            assert(ids[i] == j);
        }
    }
    if ids.contains(j) {
        let i = choose|i: int| 0 <= i < ids.len() && ids[i] == j;
        assert(longer[i] == j);
    }
    assert(longer[ids.len() as int] == id);
}

/// Tells whether `id` occurs in `ids`.
pub fn vec_contains(ids: &Vec<JobId>, id: JobId) -> (found: bool)
    ensures
        found == ids@.contains(id),
{
    let mut i: usize = 0;
    while i < ids.len()
        invariant
            i <= ids.len(),
            forall|k: int| 0 <= k < i ==> ids@[k] != id,
        decreases ids.len() - i,
    {
        if ids[i] == id {
            return true;
        }
        i += 1;
    }
    false
}

/// Removes every occurrence of `id` from `ids`.
pub fn vec_remove(ids: &mut Vec<JobId>, id: JobId)
    ensures
        final(ids)@ == without(old(ids)@, id),
{
    let mut kept: Vec<JobId> = Vec::new();
    let mut i: usize = 0;
    while i < ids.len()
        invariant
            i <= ids.len(),
            ids@ == old(ids)@,
            kept@ == without(ids@.take(i as int), id),
        decreases ids.len() - i,
    {
        proof {
            assert(ids@.take(i + 1).drop_last() =~= ids@.take(i as int));
        }
        if ids[i] != id {
            kept.push(ids[i]);
        }
        i += 1;
    }
    assert(ids@.take(i as int) =~= ids@);
    *ids = kept;
}

/// Removes every occurrence of `id` from `queue`.
pub fn queue_remove(queue: &mut VecDeque<JobId>, id: JobId)
    ensures
        final(queue)@ == without(old(queue)@, id),
{
    let mut kept: VecDeque<JobId> = VecDeque::new();
    let mut i: usize = 0;
    while i < queue.len()
        invariant
            i <= queue.len(),
            queue@ == old(queue)@,
            kept@ == without(queue@.take(i as int), id),
        decreases queue.len() - i,
    {
        proof {
            assert(queue@.take(i + 1).drop_last() =~= queue@.take(i as int));
        }
        if queue[i] != id {
            kept.push_back(queue[i]);
        }
        i += 1;
    }
    assert(queue@.take(i as int) =~= queue@);
    *queue = kept;
}

} // verus!
