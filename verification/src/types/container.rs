//! The parts of a container superblock and of its checkpoints that the
//! reader goes by.

use crate::types::object::ObjectHeader;
use vstd::prelude::*;

verus! {

/// Container superblock (`nx_superblock_t`).
#[derive(Debug)]
pub struct ContainerSuperblock {
    /// Common object header.
    pub object: ObjectHeader,
    /// Container block size in bytes.
    pub block_size: u32,
    /// First block of the checkpoint descriptor area.
    pub checkpoint_descriptor_area_block: u64,
    /// Number of blocks in the checkpoint descriptor area.
    pub checkpoint_descriptor_area_block_count: u32,
    /// Index of this checkpoint's first block in the descriptor area.
    pub checkpoint_descriptor_area_start_index: u32,
    /// Number of blocks of this checkpoint in the descriptor area.
    pub checkpoint_descriptor_area_length: u32,
    /// Object map OID.
    pub object_map_oid: u64,
    /// Space manager OID.
    pub space_manager_oid: u64,
    /// OIDs of the volumes in the container.
    pub volumes: Vec<u64>,
}

/// What a container superblock holds.
#[verifier::ext_equal]
pub struct ContainerSuperblockView {
    /// Common object header.
    pub object: ObjectHeader,
    /// Container block size in bytes.
    pub block_size: u32,
    /// First block of the checkpoint descriptor area.
    pub checkpoint_descriptor_area_block: u64,
    /// Number of blocks in the checkpoint descriptor area.
    pub checkpoint_descriptor_area_block_count: u32,
    /// Index of this checkpoint's first block in the descriptor area.
    pub checkpoint_descriptor_area_start_index: u32,
    /// Number of blocks of this checkpoint in the descriptor area.
    pub checkpoint_descriptor_area_length: u32,
    /// Object map OID.
    pub object_map_oid: u64,
    /// Space manager OID.
    pub space_manager_oid: u64,
    /// OIDs of the volumes in the container.
    pub volumes: Seq<u64>,
}

impl View for ContainerSuperblock {
    type V = ContainerSuperblockView;

    open spec fn view(&self) -> ContainerSuperblockView {
        ContainerSuperblockView {
            object: self.object,
            block_size: self.block_size,
            checkpoint_descriptor_area_block: self.checkpoint_descriptor_area_block,
            checkpoint_descriptor_area_block_count: self.checkpoint_descriptor_area_block_count,
            checkpoint_descriptor_area_start_index: self.checkpoint_descriptor_area_start_index,
            checkpoint_descriptor_area_length: self.checkpoint_descriptor_area_length,
            object_map_oid: self.object_map_oid,
            space_manager_oid: self.space_manager_oid,
            volumes: self.volumes@,
        }
    }
}

impl Clone for ContainerSuperblock {
    fn clone(&self) -> (copy: Self)
        ensures
            copy@ == self@,
    {
        let mut volumes: Vec<u64> = Vec::new();
        let mut i: usize = 0;
        while i < self.volumes.len()
            invariant
                i <= self.volumes@.len(),
                volumes@ == self.volumes@.take(i as int),
            decreases self.volumes@.len() - i,
        {
            volumes.push(self.volumes[i]);
            i = i + 1;
            assert(self.volumes@.take(i as int) =~= self.volumes@.take(i - 1).push(
                self.volumes@[i - 1],
            ));
        }
        assert(self.volumes@.take(i as int) =~= self.volumes@);
        ContainerSuperblock {
            object: self.object,
            block_size: self.block_size,
            checkpoint_descriptor_area_block: self.checkpoint_descriptor_area_block,
            checkpoint_descriptor_area_block_count: self.checkpoint_descriptor_area_block_count,
            checkpoint_descriptor_area_start_index: self.checkpoint_descriptor_area_start_index,
            checkpoint_descriptor_area_length: self.checkpoint_descriptor_area_length,
            object_map_oid: self.object_map_oid,
            space_manager_oid: self.space_manager_oid,
            volumes,
        }
    }
}

/// Where a checkpoint keeps an ephemeral object (`checkpoint_mapping_t`).
#[derive(Debug, Clone, Copy, PartialEq, Eq)]
pub struct CheckpointMapping {
    /// Identifier of the ephemeral object.
    pub container_identifier: u64,
    /// Physical block address of the object.
    pub address: u64,
}

/// Checkpoint map block (`checkpoint_map_phys_t`).
#[derive(Debug)]
pub struct CheckpointMapBlock {
    /// The mappings in this block.
    pub mappings: Vec<CheckpointMapping>,
}

/// Superblocks that are shown alike are alike in every field.
pub proof fn law_superblocks_are_shown_whole(
    superblock: ContainerSuperblock,
    other: ContainerSuperblock,
)
    requires
        superblock@ == other@,
    ensures
        superblock.object == other.object,
        superblock.block_size == other.block_size,
        superblock.checkpoint_descriptor_area_block == other.checkpoint_descriptor_area_block,
        superblock.checkpoint_descriptor_area_block_count
            == other.checkpoint_descriptor_area_block_count,
        superblock.checkpoint_descriptor_area_start_index
            == other.checkpoint_descriptor_area_start_index,
        superblock.checkpoint_descriptor_area_length == other.checkpoint_descriptor_area_length,
        superblock.object_map_oid == other.object_map_oid,
        superblock.space_manager_oid == other.space_manager_oid,
        superblock.volumes@ == other.volumes@,
{
}

} // verus!
