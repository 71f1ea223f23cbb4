//! An indirect, densely packed slot store.
//!
//! External identifiers (small unsigned integers, possibly sparse and large)
//! are mapped through a redirect table onto a compact table of data cells.
//! Identifier `id` owns the redirect entry `id % 4` of group `id / 4`; that
//! entry names the position of a group whose data cell holds the value.
use vstd::prelude::*;

pub mod group;
pub mod laws;
pub mod liveness;
pub mod storage;

pub use group::{InterleavedGroup, GROUP_WIDTH};
pub use storage::IDVStorage;
