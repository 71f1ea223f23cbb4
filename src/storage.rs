//! The group table and the indirection / allocation protocol over it.
use vstd::prelude::*;

use hibitset::BitSet;

use crate::group::{InterleavedGroup, GROUP_WIDTH};
use crate::liveness::{bitset_contains, is_alive};

verus! {

/// Group position of external identifier `id`.
pub open spec fn group_of(id: int) -> int {
    id / 4
}

/// Redirect entry, within its group, of external identifier `id`.
pub open spec fn sub_of(id: int) -> int {
    id % 4
}

/// Slot store keyed by external identifiers.
///
/// Its model is the sequence of groups. Each group holds the redirect
/// entries of four consecutive identifiers and one data cell; a redirect
/// entry names a position in the same sequence.
pub struct IDVStorage<T> {
    inner: Vec<InterleavedGroup<T>>,
}

impl<T> View for IDVStorage<T> {
    type V = Seq<InterleavedGroup<T>>;

    closed spec fn view(&self) -> Seq<InterleavedGroup<T>> {
        self.inner@
    }
}

impl<T> Default for IDVStorage<T> {
    fn default() -> (r: Self)
        ensures
            r.wf(),
            r@.len() == 0,
    {
        Self::new()
    }
}

impl<T> IDVStorage<T> {
    /// Every redirect entry names a position inside the table.
    pub open spec fn wf(&self) -> bool {
        forall|g: int, k: int|
            0 <= g < self@.len() && 0 <= k < 4 ==> #[trigger] self@[g].redirects[k] < self@.len()
    }

    /// The table holds the redirect entry of identifier `id`.
    pub open spec fn covers(&self, id: int) -> bool {
        0 <= id && group_of(id) < self@.len()
    }

    /// The internal position that identifier `id` redirects to.
    pub open spec fn redirect_of(&self, id: int) -> int {
        self@[group_of(id)].redirects[sub_of(id)] as int
    }

    /// The content of the cell that identifier `id` redirects to.
    pub open spec fn value_of(&self, id: int) -> Option<T> {
        self@[self.redirect_of(id)].data
    }

    /// Identifier `id` redirects to an occupied cell that its own insert
    /// filled.
    pub open spec fn owns(&self, id: int) -> bool {
        &&& self.covers(id)
        &&& self.value_of(id) is Some
        &&& self@[self.redirect_of(id)].owner == id
    }

    /// Creates an empty store.
    pub fn new() -> (r: Self)
        ensures
            r.wf(),
            r@.len() == 0,
    {
        IDVStorage { inner: Vec::new() }
    }

    /// Reads the redirect entry of identifier `idx`.
    pub fn resolve_to_internal(&self, idx: usize) -> (r: usize)
        requires
            self.wf(),
            self.covers(idx as int),
        ensures
            r as int == self.redirect_of(idx as int),
            r < self@.len(),
    {
        let group_idx = idx / GROUP_WIDTH;
        let group_sub = idx % GROUP_WIDTH;
        self.inner[group_idx].redirects[group_sub]
    }

    /// Grows the table with blank groups until it holds at least `idx_cap`
    /// groups. Existing groups are kept as they are.
    pub fn check_prefill(&mut self, idx_cap: usize)
        requires
            old(self).wf(),
        ensures
            final(self).wf(),
            final(self)@.len() == if old(self)@.len() < idx_cap {
                idx_cap as int
            } else {
                old(self)@.len() as int
            },
            forall|j: int| 0 <= j < old(self)@.len() ==> #[trigger] final(self)@[j] == old(self)@[j],
            forall|j: int|
                old(self)@.len() <= j < final(self)@.len() ==> (#[trigger] final(self)@[j]).is_blank(),
    {
        while self.inner.len() < idx_cap
            invariant
                self.wf(),
                old(self)@.len() <= self@.len(),
                old(self)@.len() < idx_cap ==> self@.len() <= idx_cap,
                old(self)@.len() >= idx_cap ==> self@.len() == old(self)@.len(),
                forall|j: int| 0 <= j < old(self)@.len() ==> #[trigger] self@[j] == old(self)@[j],
                forall|j: int| old(self)@.len() <= j < self@.len() ==> (#[trigger] self@[j]).is_blank(),
            decreases idx_cap - self@.len(),
        {
            let ghost prev = self@;
            self.inner.push(InterleavedGroup::blank());
            proof {
                assert forall|g: int, k: int|
                    0 <= g < self@.len() && 0 <= k < 4 implies #[trigger] self@[g].redirects[k]
                    < self@.len() by {
                    if g == prev.len() {
                        assert(self@[g].is_blank());
                        assert(self@[g].redirects[k] == 0);
                    } else {
                        assert(self@[g] == prev[g]);
                        assert(prev[g].redirects[k] < prev.len());
                    }
                }
            }
        }
    }
    /// Returns the first position whose cell is empty; when every cell is
    /// occupied, appends a blank group and returns its position.
    pub fn find_free(&mut self) -> (r: usize)
        requires
            old(self).wf(),
        ensures
            final(self).wf(),
            r <= old(self)@.len(),
            forall|j: int| 0 <= j < r ==> (#[trigger] old(self)@[j]).data is Some,
            r < old(self)@.len() ==> old(self)@[r as int].data is None && final(self)@ == old(self)@,
            r == old(self)@.len() ==> final(self)@.len() == old(self)@.len() + 1
                && final(self)@.subrange(0, r as int) == old(self)@ && final(self)@[r as int].is_blank(),
    {
        let mut i: usize = 0;
        while i < self.inner.len()
            invariant
                0 <= i <= self@.len(),
                self@ == old(self)@,
                self.wf(),
                forall|j: int| 0 <= j < i ==> (#[trigger] self@[j]).data is Some,
            decreases self@.len() - i,
        {
            if self.inner[i].data.is_none() {
                return i;
            }
            i = i + 1;
        }
        self.inner.push(InterleavedGroup::blank());
        assert(self@.subrange(0, i as int) =~= old(self)@);
        proof {
            assert forall|g: int, k: int|
                0 <= g < self@.len() && 0 <= k < 4 implies #[trigger] self@[g].redirects[k]
                < self@.len() by {
                if g == i {
                    assert(self@[g].is_blank());
                    assert(self@[g].redirects[k] == 0);
                } else {
                    assert(self@[g] == old(self)@[g]);
                    assert(old(self)@[g].redirects[k] < old(self)@.len());
                }
            }
        }
        self.inner.len() - 1
    }

    /// Stores `v` under identifier `idx`.
    ///
    /// The table first grows to cover `idx`; the value then goes into the
    /// first empty cell (a new group when none is empty), and the redirect
    /// entry of `idx` is pointed at it. A cell that `idx` redirected to
    /// before is left as it was.
    pub fn c_insert(&mut self, idx: usize, v: T)
        requires
            old(self).wf(),
        ensures
            Self::inserted(*old(self), *final(self), idx as int, v),
    {
        let ghost s0 = *old(self);
        self.check_prefill(idx / GROUP_WIDTH + 1);
        let ghost s1 = *self;
        let group_idx = idx / GROUP_WIDTH;
        let group_sub = idx % GROUP_WIDTH;
        let internal_point = self.find_free();
        let ghost s2 = *self;
        self.inner[group_idx].redirects[group_sub] = internal_point;
        self.inner[internal_point].owner = idx;
        self.inner[internal_point].data = Some(v);
        proof {
            let s = *self;
            let n = s0@.len();
            let p = s1@.len();
            let f = internal_point as int;
            assert(s@.len() == s2@.len());
            assert(s.redirect_of(idx as int) == f);
            assert(s.wf()) by {
                assert forall|g: int, k: int|
                    0 <= g < s@.len() && 0 <= k < 4 implies #[trigger] s@[g].redirects[k]
                    < s@.len() by {
                    assert(s2@[g].redirects[k] < s2@.len());
                    if g != f && g != group_idx {
                        assert(s@[g] == s2@[g]);
                    }
                }
            }
            assert forall|j: int| 0 <= j < f implies j < n && (#[trigger] s0@[j]).data is Some by {
                assert(s1@[j].data is Some);
                if j >= n {
                    assert(s1@[j].is_blank());
                }
            }
            assert forall|j: int|
                0 <= j < s@.len() && j != f implies (#[trigger] s@[j]).data == (if j < n {
                s0@[j].data
            } else {
                None::<T>
            }) && s@[j].owner == if j < n {
                s0@[j].owner
            } else {
                0
            } by {
                assert(s@[j].data == s2@[j].data);
                assert(s@[j].owner == s2@[j].owner);
                if j < p {
                    assert(s2@[j] == s1@[j]);
                    if j >= n {
                        assert(s1@[j].is_blank());
                    }
                }
            }
            assert forall|i: int|
                s.covers(i) && i != idx as int implies #[trigger] s.redirect_of(i) == if s0.covers(i) {
                s0.redirect_of(i)
            } else {
                0
            } by {
                let g = group_of(i);
                if g == group_of(idx as int) {
                    assert(sub_of(i) != sub_of(idx as int));
                }
                if g < p {
                    assert(s2@[g] == s1@[g]);
                    if !s0.covers(i) {
                        assert(s1@[g].is_blank());
                    }
                } else {
                    assert(s2@[g].is_blank());
                }
            }
        }
    }

    /// The relation between the store before (`pre`) and after (`post`) a
    /// call of `c_insert(id, v)`.
    ///
    /// With `p` the length of the table grown to cover `id`, the cell chosen
    /// is `f == post.redirect_of(id)`: the first empty cell of the grown
    /// table, or a new group at position `p` when all are occupied. Cell `f`
    /// then holds `v` with owner `id`, the redirect entry of `id` names `f`,
    /// and nothing else changes (groups added by growth are blank).
    pub open spec fn inserted(pre: Self, post: Self, id: int, v: T) -> bool {
        let n = pre@.len();
        let p = if n <= group_of(id) { group_of(id) + 1 } else { n as int };
        let f = post.redirect_of(id);
        &&& 0 <= id
        &&& post.wf()
        &&& 0 <= f <= p
        &&& forall|j: int| 0 <= j < f ==> j < n && (#[trigger] pre@[j]).data is Some
        &&& f < n ==> pre@[f].data is None
        &&& post@.len() == if f == p { p + 1 } else { p }
        &&& post@[f].data == Some(v)
        &&& post@[f].owner == id
        &&& forall|j: int|
            0 <= j < post@.len() && j != f ==> (#[trigger] post@[j]).data == (if j < n {
                pre@[j].data
            } else {
                None
            }) && post@[j].owner == if j < n {
                pre@[j].owner
            } else {
                0
            }
        &&& forall|i: int|
            post.covers(i) && i != id ==> #[trigger] post.redirect_of(i) == if pre.covers(i) {
                pre.redirect_of(i)
            } else {
                0
            }
    }
    /// The content of the cell that identifier `idx` redirects to.
    pub fn c_get(&self, idx: usize) -> (r: Option<&T>)
        requires
            self.wf(),
            self.covers(idx as int),
        ensures
            r is Some <==> self.value_of(idx as int) is Some,
            r is Some ==> Some(*r->0) == self.value_of(idx as int),
    {
        let internal = self.resolve_to_internal(idx);
        self.inner[internal].data.as_ref()
    }

    /// Exclusive access to the content of the cell that identifier `idx`
    /// redirects to. Only that cell's content can change through it.
    pub fn c_get_mut(&mut self, idx: usize) -> (r: Option<&mut T>)
        requires
            old(self).wf(),
            old(self).covers(idx as int),
        ensures
            r is Some <==> old(self).value_of(idx as int) is Some,
            r is Some ==> Some(*r->0) == old(self).value_of(idx as int),
            final(self)@ == old(self)@.update(
                old(self).redirect_of(idx as int),
                InterleavedGroup {
                    redirects: old(self)@[old(self).redirect_of(idx as int)].redirects,
                    owner: old(self)@[old(self).redirect_of(idx as int)].owner,
                    data: match r {
                        Some(x) => Some(*final(x)),
                        None => None,
                    },
                },
            ),
    {
        let internal = self.resolve_to_internal(idx);
        self.inner[internal].data.as_mut()
    }

    /// Takes the content of the cell that identifier `idx` redirects to,
    /// leaving that cell empty. Redirect entries are not changed.
    pub fn c_remove(&mut self, idx: usize) -> (r: Option<T>)
        requires
            old(self).wf(),
            old(self).covers(idx as int),
        ensures
            Self::removed(*old(self), *final(self), idx as int, r),
    {
        let internal = self.resolve_to_internal(idx);
        let r = self.inner[internal].data.take();
        proof {
            let s = *self;
            assert forall|g: int, k: int|
                0 <= g < s@.len() && 0 <= k < 4 implies #[trigger] s@[g].redirects[k] < s@.len() by {
                assert(old(self)@[g].redirects[k] < old(self)@.len());
            }
        }
        r
    }

    /// The relation between the store before (`pre`) and after (`post`) a
    /// call of `c_remove(id)` that returned `r`: `r` is what the cell of `id`
    /// held, that cell is now empty, and nothing else changes.
    pub open spec fn removed(pre: Self, post: Self, id: int, r: Option<T>) -> bool {
        let c = pre.redirect_of(id);
        &&& post.wf()
        &&& r == pre.value_of(id)
        &&& post@.len() == pre@.len()
        &&& post@[c].data is None
        &&& post@[c].redirects == pre@[c].redirects
        &&& post@[c].owner == pre@[c].owner
        &&& forall|j: int| 0 <= j < post@.len() && j != c ==> #[trigger] post@[j] == pre@[j]
    }
    /// Cell `c` holds a value whose owner `live` holds dead.
    pub open spec fn is_garbage(&self, live: BitSet, c: int) -> bool {
        &&& self@[c].data is Some
        &&& !is_alive(live, self@[c].owner as int)
    }

    /// The relation between the store before (`pre`) and after (`post`) a
    /// call of `c_clean(live)`: every garbage cell is emptied, and nothing
    /// else changes.
    pub open spec fn cleaned(pre: Self, post: Self, live: BitSet) -> bool {
        &&& post.wf()
        &&& post@.len() == pre@.len()
        &&& forall|j: int|
            0 <= j < post@.len() ==> (#[trigger] post@[j]).redirects == pre@[j].redirects
                && post@[j].owner == pre@[j].owner && post@[j].data == if pre.is_garbage(live, j) {
                None
            } else {
                pre@[j].data
            }
    }

    /// Empties every occupied cell whose owner `has` holds dead.
    ///
    /// The owner of a cell is the identifier `4 * g + k` whose redirect entry
    /// `k` of group `g` was pointed at the cell when it was filled. Redirect
    /// entries that were never set, or that a removal or a later insert left
    /// behind, own nothing, so they neither keep a cell nor empty it. The
    /// data of live identifiers is never touched. A cell orphaned by a second
    /// insert under the same identifier is emptied once that identifier dies.
    pub fn c_clean(&mut self, has: BitSet)
        requires
            old(self).wf(),
        ensures
            Self::cleaned(*old(self), *final(self), has),
    {
        let n = self.inner.len();
        let mut c: usize = 0;
        while c < n
            invariant
                n == self@.len(),
                n == old(self)@.len(),
                c <= n,
                old(self).wf(),
                forall|j: int|
                    0 <= j < n ==> (#[trigger] self@[j]).redirects == old(self)@[j].redirects
                        && self@[j].owner == old(self)@[j].owner && self@[j].data == if j < c
                        && old(self).is_garbage(has, j) {
                        None
                    } else {
                        old(self)@[j].data
                    },
            decreases n - c,
        {
            let owner = self.inner[c].owner;
            let alive = if owner <= u32::MAX as usize {
                bitset_contains(&has, owner as u32)
            } else {
                false
            };
            if self.inner[c].data.is_some() && !alive {
                self.inner[c].data = None;
            }
            c = c + 1;
        }
        proof {
            let s = *self;
            assert forall|g: int, k: int|
                0 <= g < s@.len() && 0 <= k < 4 implies #[trigger] s@[g].redirects[k] < s@.len() by {
                assert(old(self)@[g].redirects[k] < old(self)@.len());
            }
        }
    }

    /// Number of groups in the table.
    pub fn group_count(&self) -> (r: usize)
        ensures
            r == self@.len(),
    {
        self.inner.len()
    }

    /// The content of the data cell at internal position `pos`.
    pub fn cell(&self, pos: usize) -> (r: Option<&T>)
        requires
            pos < self@.len(),
        ensures
            r is Some <==> self@[pos as int].data is Some,
            r is Some ==> Some(*r->0) == self@[pos as int].data,
    {
        self.inner[pos].data.as_ref()
    }

    /// Stores `v` under identifier `idx` (see `c_insert`).
    pub fn insert(&mut self, idx: u32, v: T)
        requires
            old(self).wf(),
        ensures
            Self::inserted(*old(self), *final(self), idx as int, v),
    {
        self.c_insert(idx as usize, v);
    }

    /// The value held for identifier `idx`, which must hold one.
    pub fn get(&self, idx: u32) -> (r: &T)
        requires
            self.wf(),
            self.covers(idx as int),
            self.value_of(idx as int) is Some,
        ensures
            Some(*r) == self.value_of(idx as int),
    {
        self.c_get(idx as usize).unwrap()
    }

    /// Exclusive access to the value held for identifier `idx`, which must
    /// hold one. Only that value can change through it.
    pub fn get_mut(&mut self, idx: u32) -> (r: &mut T)
        requires
            old(self).wf(),
            old(self).covers(idx as int),
            old(self).value_of(idx as int) is Some,
        ensures
            Some(*r) == old(self).value_of(idx as int),
            final(self)@ == old(self)@.update(
                old(self).redirect_of(idx as int),
                InterleavedGroup {
                    redirects: old(self)@[old(self).redirect_of(idx as int)].redirects,
                    owner: old(self)@[old(self).redirect_of(idx as int)].owner,
                    data: Some(*final(r)),
                },
            ),
    {
        self.c_get_mut(idx as usize).unwrap()
    }

    /// Takes the value held for identifier `idx`, which must hold one (see
    /// `c_remove`).
    pub fn remove(&mut self, idx: u32) -> (r: T)
        requires
            old(self).wf(),
            old(self).covers(idx as int),
            old(self).value_of(idx as int) is Some,
        ensures
            Self::removed(*old(self), *final(self), idx as int, Some(r)),
    {
        self.c_remove(idx as usize).unwrap()
    }

    /// Empties the cells of the identifiers that `has` holds dead (see
    /// `c_clean`).
    pub fn clean(&mut self, has: BitSet)
        requires
            old(self).wf(),
        ensures
            Self::cleaned(*old(self), *final(self), has),
    {
        self.c_clean(has);
    }
}

} // verus!
