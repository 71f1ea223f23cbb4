//! A fixed bucket of redirect entries together with one data cell.
use vstd::prelude::*;

verus! {

/// Number of redirect entries held by each group.
pub const GROUP_WIDTH: usize = 4;

/// One bucket of the group table.
///
/// `redirects[k]` is the internal position that identifier `4 * g + k` maps
/// to, where `g` is the position of this group; `data` is the cell that lives
/// at this group's own position, and `owner` is the identifier whose insert
/// last filled that cell (meaningful while the cell is occupied).
pub struct InterleavedGroup<T> {
    pub redirects: [usize; GROUP_WIDTH],
    pub owner: usize,
    pub data: Option<T>,
}

impl<T> InterleavedGroup<T> {
    /// A group whose redirects are all zero and whose cell is empty.
    pub open spec fn is_blank(&self) -> bool {
        &&& self.data is None
        &&& self.owner == 0
        &&& forall|k: int| 0 <= k < 4 ==> #[trigger] self.redirects[k] == 0
    }

    /// Creates a blank group.
    pub fn blank() -> (r: Self)
        ensures
            r.is_blank(),
    {
        Self { redirects: [0; GROUP_WIDTH], owner: 0, data: None }
    }
}

} // verus!
