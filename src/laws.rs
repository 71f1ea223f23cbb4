//! Properties that relate several operations of the store.
use vstd::prelude::*;

use hibitset::BitSet;

use crate::liveness::is_alive;
use crate::storage::{group_of, IDVStorage};

verus! {

/// A value stored under an identifier is what a lookup of that identifier
/// then finds.
pub proof fn lemma_insert_then_get<T>(pre: IDVStorage<T>, post: IDVStorage<T>, id: int, v: T)
    requires
        pre.wf(),
        IDVStorage::inserted(pre, post, id, v),
    ensures
        post.wf(),
        post.covers(id),
        post.value_of(id) == Some(v),
        post.owns(id),
{
}

/// Storing under one identifier leaves what another identifier owns as it
/// was.
pub proof fn lemma_insert_keeps_ownership<T>(
    pre: IDVStorage<T>,
    post: IDVStorage<T>,
    id2: int,
    v: T,
    id: int,
)
    requires
        pre.wf(),
        pre.owns(id),
        id != id2,
        IDVStorage::inserted(pre, post, id2, v),
    ensures
        post.owns(id),
        post.value_of(id) == pre.value_of(id),
{
    let c = pre.redirect_of(id);
    assert(post.redirect_of(id) == c);
    assert(post.redirect_of(id2) != c);
}

/// Removing an identifier right after storing `v` under it returns `v` and
/// leaves the identifier's cell empty.
pub proof fn lemma_remove_after_insert<T>(
    s0: IDVStorage<T>,
    s1: IDVStorage<T>,
    s2: IDVStorage<T>,
    id: int,
    v: T,
    r: Option<T>,
)
    requires
        s0.wf(),
        IDVStorage::inserted(s0, s1, id, v),
        IDVStorage::removed(s1, s2, id, r),
    ensures
        r == Some(v),
        s2.wf(),
        s2.covers(id),
        s2.value_of(id) is None,
{
}

/// Storing under an identifier grows the table just enough to cover it,
/// plus at most one group for the data cell, whatever identifiers were
/// stored before.
pub proof fn lemma_sparse_growth<T>(pre: IDVStorage<T>, post: IDVStorage<T>, id: int, v: T)
    requires
        pre.wf(),
        IDVStorage::inserted(pre, post, id, v),
    ensures
        post@.len() >= group_of(id) + 1,
        post@.len() <= if pre@.len() <= group_of(id) {
            group_of(id) + 2
        } else {
            pre@.len() + 1int
        },
{
}

/// A cell emptied by a removal is reused by the next store under a covered
/// identifier: the table does not grow, and the chosen cell lies no later
/// than the emptied one.
pub proof fn lemma_slot_reuse<T>(
    s0: IDVStorage<T>,
    s1: IDVStorage<T>,
    s2: IDVStorage<T>,
    id: int,
    r: Option<T>,
    id2: int,
    b: T,
)
    requires
        s0.wf(),
        s0.covers(id),
        IDVStorage::removed(s0, s1, id, r),
        s1.covers(id2),
        IDVStorage::inserted(s1, s2, id2, b),
    ensures
        s2@.len() == s1@.len(),
        s2.redirect_of(id2) <= s0.redirect_of(id),
{
    let c = s0.redirect_of(id);
    let f = s2.redirect_of(id2);
    if f > c {
        assert(s1@[c].data is Some);
    }
}

/// Storing twice under one identifier without a removal in between: the
/// second value is found, the table does not shrink, and the cell that held
/// the first value keeps it while nothing redirects to it from that
/// identifier any more.
pub proof fn lemma_double_insert<T>(
    s0: IDVStorage<T>,
    s1: IDVStorage<T>,
    s2: IDVStorage<T>,
    id: int,
    a: T,
    b: T,
)
    requires
        s0.wf(),
        IDVStorage::inserted(s0, s1, id, a),
        IDVStorage::inserted(s1, s2, id, b),
    ensures
        s2.value_of(id) == Some(b),
        s2@.len() >= s1@.len(),
        s2.redirect_of(id) != s1.redirect_of(id),
        s2@[s1.redirect_of(id)].data == Some(a),
        s2@[s1.redirect_of(id)].owner == id,
{
    let c1 = s1.redirect_of(id);
    let f = s2.redirect_of(id);
    if f == c1 {
        assert(s1@[c1].data is Some);
    }
}

/// Bulk cleanup keeps the value of an identifier that owns its cell when
/// the identifier is alive, and empties that cell when it is not. A cell
/// whose owner is alive is never emptied.
pub proof fn lemma_clean<T>(pre: IDVStorage<T>, post: IDVStorage<T>, live: BitSet, id: int)
    requires
        pre.wf(),
        IDVStorage::cleaned(pre, post, live),
        pre.owns(id),
    ensures
        post.wf(),
        post.covers(id),
        post.redirect_of(id) == pre.redirect_of(id),
        is_alive(live, id) ==> post.value_of(id) == pre.value_of(id) && post.owns(id),
        !is_alive(live, id) ==> post.value_of(id) is None,
        forall|c: int|
            0 <= c < pre@.len() && is_alive(live, pre@[c].owner as int) ==> (#[trigger] post@[c]).data
                == pre@[c].data,
{
    assert(post@[group_of(id)].redirects == pre@[group_of(id)].redirects);
}

} // verus!
