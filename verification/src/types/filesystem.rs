//! The parts of filesystem records that the reader goes by.

use vstd::prelude::*;

verus! {

/// Inode identifier of a volume's root directory (`ROOT_DIR_INO_NUM`).
pub const INODE_ROOT_DIRECTORY: u64 = 2;

/// Record type of an inode (`APFS_TYPE_INODE`).
pub const FS_TYPE_INODE: u8 = 3;

/// Key of a filesystem record (`j_key_t`).
#[derive(Debug, Clone, Copy, PartialEq, Eq)]
pub struct FileSystemKey {
    /// Object identifier.
    pub id: u64,
    /// Record type.
    pub record_type: u8,
}

/// Inode record (`j_inode_val_t`).
#[derive(Debug, Clone, Copy, PartialEq, Eq)]
pub struct InodeRecord {
    /// Identifier of the inode's data stream.
    pub private_id: u64,
    /// Size of the data stream, when the inode records one.
    pub data_stream_size: Option<u64>,
    /// Size of the uncompressed data, or 0.
    pub uncompressed_size: u64,
}

/// File extent record (`j_file_extent_val_t`).
#[derive(Debug, Clone, Copy, PartialEq, Eq)]
pub struct FileExtentRecord {
    /// Identifier of the data stream that the extent belongs to.
    pub id: u64,
    /// Offset of the extent in the data stream, in bytes.
    pub logical_address: u64,
    /// Length of the extent in bytes.
    pub length: u64,
    /// Physical block address of the extent's first block.
    pub physical_block: u64,
}

/// Directory entry (`j_drec_val_t`).
#[derive(Debug)]
pub struct OwnedDirectoryEntryRecord {
    /// Entry name.
    pub name: String,
    /// Inode identifier of what the entry names.
    pub file_id: u64,
}

/// Snapshot metadata (`j_snap_metadata_val_t`).
#[derive(Debug)]
pub struct SnapshotMetadataRecord {
    /// Snapshot name.
    pub name: String,
    /// Transaction that the snapshot was taken in.
    pub transaction_id: u64,
}

} // verus!
