//! The parts of a B-tree node that the reader goes by.

use crate::error::ApfsError;
use vstd::prelude::*;

verus! {

/// One key/value pair of a B-tree node.
#[derive(Debug, PartialEq, Eq)]
pub struct OwnedEntry {
    /// Key bytes.
    pub key: Vec<u8>,
    /// Value bytes.
    pub value: Vec<u8>,
}

/// A decoded B-tree node (`btree_node_phys_t`).
#[derive(Debug)]
pub struct OwnedBTreeNode {
    /// Whether the node carries the information on its tree that a root has
    /// to carry (`btree_info_t`).
    pub tree_info: Result<(), ApfsError>,
    /// Whether the node is a leaf.
    pub is_leaf: Result<bool, ApfsError>,
    /// The node's entries, decoded by the information on its tree.
    pub entries: Result<Vec<OwnedEntry>, ApfsError>,
}

} // verus!
