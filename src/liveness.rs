//! The liveness set consulted by bulk cleanup: a `hibitset::BitSet` of live
//! identifiers.
use vstd::prelude::*;

use hibitset::BitSet;

verus! {

#[verifier::external_type_specification]
#[verifier::external_body]
pub struct ExBitSet(hibitset::BitSet);

/// The identifiers held by a bit set.
pub uninterp spec fn bitset_members(s: BitSet) -> Set<u32>;

/// Whether identifier `id` is alive according to `live`. Identifiers beyond
/// the range of `u32` cannot be held by a bit set and are never alive.
pub open spec fn is_alive(live: BitSet, id: int) -> bool {
    0 <= id <= u32::MAX && bitset_members(live).contains(id as u32)
}

/// Relies on hibitset::BitSet::contains: true exactly when `id` was added to
/// the set (and not removed since).
#[verifier::external_body]
pub(crate) fn bitset_contains(s: &BitSet, id: u32) -> (r: bool)
    ensures
        r == bitset_members(*s).contains(id),
{
    s.contains(id)
}

} // verus!
