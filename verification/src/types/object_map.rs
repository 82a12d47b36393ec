//! The parts of an object map that the reader goes by.

use vstd::prelude::*;

verus! {

/// Object map block (`omap_phys_t`).
#[derive(Debug, Clone, Copy, PartialEq, Eq)]
pub struct ObjectMapBlock {
    /// Physical block address of the root of the map's B-tree.
    pub tree_oid: u64,
}

/// Object map key (`omap_key_t`).
#[derive(Debug, Clone, Copy, PartialEq, Eq)]
pub struct ObjectMapKey {
    /// Object identifier.
    pub oid: u64,
    /// Transaction identifier.
    pub xid: u64,
}

/// Object map value (`omap_val_t`).
#[derive(Debug, Clone, Copy, PartialEq, Eq)]
pub struct ObjectMapValue {
    /// Physical block address of the object.
    pub address: u64,
}

} // verus!
