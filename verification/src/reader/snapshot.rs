//! Finding the snapshots of a volume.

use crate::reader::btree::{Addressing, MissingChild, TreeRoot};
use crate::reader::container::Container;
use crate::reader::object_map::resolve;
use crate::types::object_map::{ObjectMapKey, ObjectMapValue};
use crate::types::volume::VolumeSuperblock;
use vstd::prelude::*;

verus! {

/// The block of the root of the volume's snapshot metadata tree, or nothing
/// when there are no snapshots to report.
pub open spec fn snapshot_root(
    volume: VolumeSuperblock,
    values: Seq<(ObjectMapKey, ObjectMapValue)>,
) -> Option<u64> {
    if volume.snapshot_metadata_tree_oid == 0 {
        None
    } else {
        match crate::reader::object_map::resolved(
            values,
            volume.snapshot_metadata_tree_oid,
            volume.spec_default_read_transaction_id(),
        ) {
            Some(entry) => Some(entry.1.address),
            None => None,
        }
    }
}

/// Returns whether a volume may have snapshots at all. When it may not, its
/// object map need not be read.
pub fn may_have_snapshots(volume: &VolumeSuperblock) -> (may: bool)
    ensures
        may == (volume.snapshot_metadata_tree_oid != 0),
        !may ==> forall|values: Seq<(ObjectMapKey, ObjectMapValue)>| #[trigger]
            snapshot_root(*volume, values) is None,
{
    volume.snapshot_metadata_tree_oid != 0
}

impl<D> Container<D> {
    /// Lists the volume's snapshots by walking its snapshot metadata tree.
    /// Without a tree there are none.
    ///
    /// The snapshot metadata tree's OID
    /// (`apfs_superblock_t.apfs_snap_meta_tree_oid`) is a virtual OID resolved
    /// through the volume's own object map, just like the filesystem root tree
    /// (see [`Self::virtual_btree_leaf_entries`]).
    ///
    /// Unlike with the filesystem root tree, a volume with no
    /// snapshots can have `snapshot_metadata_tree_oid` set but no
    /// corresponding entry in the object map (the tree is only materialized
    /// once a snapshot is taken), and on a live, mounted container this
    /// lookup can also lose a race with a concurrent transaction. Either way
    /// that means "no snapshots to report", not a fatal error. For the same
    /// reason a child that is not in the object map is left out.
    pub fn volume_snapshots(
        &self,
        volume: &VolumeSuperblock,
        values: Vec<(ObjectMapKey, ObjectMapValue)>,
    ) -> (tree: Option<TreeRoot>)
        ensures
            match tree {
                Some(root) => {
                    &&& snapshot_root(*volume, values@) == Some(root.block)
                    &&& root.addressing@ == (crate::reader::btree::AddressingView::Virtual {
                        values: values@,
                        max_transaction_id: volume.spec_default_read_transaction_id(),
                        missing: MissingChild::Skip,
                    })
                },
                None => snapshot_root(*volume, values@) is None,
            },
    {
        if volume.snapshot_metadata_tree_oid == 0 {
            return None;
        }
        let max_transaction_id: u64 = volume.default_read_transaction_id();
        match resolve(&values, volume.snapshot_metadata_tree_oid, max_transaction_id) {
            Some(entry) => Some(
                TreeRoot {
                    block: entry.1.address,
                    addressing: Addressing::Virtual {
                        values,
                        max_transaction_id,
                        missing: MissingChild::Skip,
                    },
                },
            ),
            None => None,
        }
    }
}

/// A volume whose superblock names no snapshot tree has none; one that names
/// it has the one that its newest mapping up to the volume's own read
/// transaction leads to, if there is such a mapping.
pub proof fn law_snapshot_tree_is_the_newest_readable_one(
    volume: VolumeSuperblock,
    values: Seq<(ObjectMapKey, ObjectMapValue)>,
)
    ensures
        volume.snapshot_metadata_tree_oid == 0 ==> snapshot_root(volume, values) is None,
        volume.snapshot_metadata_tree_oid != 0 ==> {
            let xid = if volume.root_to_xid != 0 {
                volume.root_to_xid
            } else {
                volume.object.transaction_identifier
            };
            match crate::reader::object_map::resolved(
                values,
                volume.snapshot_metadata_tree_oid,
                xid,
            ) {
                Some(entry) => snapshot_root(volume, values) == Some(entry.1.address),
                None => snapshot_root(volume, values) is None,
            }
        },
{
}

} // verus!
