//! APFS volume superblock parsing.

use crate::error::ApfsError;
use crate::types::bytes::{le_u32, le_u64, take};
use crate::types::object::{ObjectHeader, ObjectType, OBJECT_HEADER_SIZE};
use vstd::prelude::*;
use vstd::slice::slice_subrange;

verus! {

/// Magic value in volume superblocks (`APSB` on disk).
pub const VOLUME_MAGIC: [u8; 4] = [0x41, 0x50, 0x53, 0x42];

/// Length of the APFS volume name field.
pub const VOLUME_NAME_LENGTH: usize = 256;

/// Volume flag (`APFS_FS_UNENCRYPTED`): the volume's filesystem tree is
/// stored unencrypted.
pub const VOLUME_FLAG_UNENCRYPTED: u64 = 0x0000_0001;

/// Number of bytes of a volume superblock that are parsed.
pub const VOLUME_SUPERBLOCK_SIZE: usize = 976;

/// The error of [`core::str::from_utf8`].
#[verifier::external_type_specification]
#[verifier::external_body]
pub struct ExUtf8Error(core::str::Utf8Error);

/// [`core::str::from_utf8`] accepts exactly the byte sequences that are UTF-8
/// and gives the text that they encode.
pub assume_specification[ core::str::from_utf8 ](bytes: &[u8]) -> (r: Result<
    &str,
    core::str::Utf8Error,
>)
    ensures
        r is Ok <==> vstd::utf8::valid_utf8(bytes@),
        r matches Ok(text) ==> vstd::utf8::encode_utf8(text@) == bytes@,
;

/// Parsed APFS volume superblock (`apfs_superblock_t`).
#[derive(Debug, Clone, PartialEq, Eq)]
pub struct VolumeSuperblock {
    /// Common object header.
    pub object: ObjectHeader,
    /// Volume index in the container volume array.
    pub fs_index: u32,
    /// Optional feature flags.
    pub optional_features: u64,
    /// Read-only compatible feature flags.
    pub readonly_compatible_features: u64,
    /// Incompatible feature flags.
    pub incompatible_features: u64,
    /// Blocks allocated by the volume.
    pub allocated_block_count: u64,
    /// Volume object map physical OID.
    pub object_map_oid: u64,
    /// Root filesystem tree OID.
    pub root_tree_oid: u64,
    /// Extent-reference tree OID.
    pub extent_reference_tree_oid: u64,
    /// Snapshot metadata tree OID.
    pub snapshot_metadata_tree_oid: u64,
    /// Number of regular files.
    pub number_files: u64,
    /// Number of directories.
    pub number_directories: u64,
    /// Number of symbolic links.
    pub number_symlinks: u64,
    /// Number of snapshots.
    pub number_snapshots: u64,
    /// Volume UUID.
    pub volume_id: [u8; 16],
    /// Volume flags.
    pub flags: u64,
    /// Null-terminated UTF-8 volume name bytes.
    pub volume_name: [u8; 256],
    /// Transaction identifier of the snapshot this volume roots from, or 0
    /// to root normally from the volume's own live state
    /// (`apfs_root_to_xid`).
    ///
    /// Set on sealed system volumes (and other volumes mounted from a
    /// specific snapshot instead of their live state): the volume
    /// superblock's own `object.transaction_identifier` keeps advancing as
    /// the container is written to, but the *filesystem tree actually
    /// presented to users* is frozen at this transaction. Resolving
    /// virtual object-map lookups against the live transaction id instead
    /// of this one walks blocks the live filesystem has since freed and
    /// reused, surfacing as spurious checksum mismatches on an otherwise
    /// perfectly healthy, unencrypted, and even read-only volume. See
    /// [`Self::default_read_transaction_id`].
    pub root_to_xid: u64,
}

/// Whether `volume` holds what the superblock at the start of `data` records.
pub open spec fn is_volume_in(data: Seq<u8>, volume: VolumeSuperblock) -> bool {
    &&& volume.object == crate::types::object::object_header(data)
    &&& volume.fs_index == crate::types::bytes::u32_at(data, 36)
    &&& volume.optional_features == crate::types::bytes::u64_at(data, 40)
    &&& volume.readonly_compatible_features == crate::types::bytes::u64_at(data, 48)
    &&& volume.incompatible_features == crate::types::bytes::u64_at(data, 56)
    &&& volume.allocated_block_count == crate::types::bytes::u64_at(data, 88)
    &&& volume.object_map_oid == crate::types::bytes::u64_at(data, 128)
    &&& volume.root_tree_oid == crate::types::bytes::u64_at(data, 136)
    &&& volume.extent_reference_tree_oid == crate::types::bytes::u64_at(data, 144)
    &&& volume.snapshot_metadata_tree_oid == crate::types::bytes::u64_at(data, 152)
    &&& volume.number_files == crate::types::bytes::u64_at(data, 184)
    &&& volume.number_directories == crate::types::bytes::u64_at(data, 192)
    &&& volume.number_symlinks == crate::types::bytes::u64_at(data, 200)
    &&& volume.number_snapshots == crate::types::bytes::u64_at(data, 216)
    &&& volume.volume_id@ == data.subrange(240, 256)
    &&& volume.flags == crate::types::bytes::u64_at(data, 264)
    &&& volume.volume_name@ == data.subrange(704, 960)
    &&& volume.root_to_xid == crate::types::bytes::u64_at(data, 968)
}

/// Whether `r` is what parsing `data` as a volume superblock gives. The object
/// type is looked at before the magic value, and both before the length of
/// the rest.
pub open spec fn is_volume_outcome(
    data: Seq<u8>,
    r: Result<VolumeSuperblock, ApfsError>,
) -> bool {
    if data.len() < OBJECT_HEADER_SIZE {
        r == Err::<VolumeSuperblock, ApfsError>(ApfsError::InputTooSmall)
    } else if crate::types::object::object_header(data).spec_kind()
        != ObjectType::VolumeSuperblock.spec_raw() {
        r == Err::<VolumeSuperblock, ApfsError>(
            ApfsError::InvalidValue("volume superblock object type"),
        )
    } else if data.len() < 36 {
        r == Err::<VolumeSuperblock, ApfsError>(ApfsError::InputTooSmall)
    } else if data.subrange(32, 36) != VOLUME_MAGIC@ {
        &&& r matches Err(ApfsError::InvalidMagic { expected, actual })
        &&& expected@ == VOLUME_MAGIC@
        &&& actual@ == data.subrange(32, 36)
    } else if data.len() < VOLUME_SUPERBLOCK_SIZE {
        r == Err::<VolumeSuperblock, ApfsError>(ApfsError::InputTooSmall)
    } else {
        r matches Ok(volume) && is_volume_in(data, volume)
    }
}

/// The bytes before the first NUL byte.
pub open spec fn before_nul(bytes: Seq<u8>) -> Seq<u8>
    decreases bytes.len(),
{
    if bytes.len() == 0 || bytes[0] == 0 {
        Seq::empty()
    } else {
        seq![bytes[0]] + before_nul(bytes.drop_first())
    }
}

/// The bytes before the first NUL byte are those that a scan for it passes.
proof fn lemma_before_nul(bytes: Seq<u8>, at: int)
    requires
        0 <= at <= bytes.len(),
        forall|i: int| 0 <= i < at ==> bytes[i] != 0,
        at < bytes.len() ==> bytes[at] == 0,
    ensures
        before_nul(bytes) == bytes.take(at),
    decreases at,
{
    if at > 0 {
        let rest = bytes.drop_first();
        assert(bytes[0] != 0);
        lemma_before_nul(rest, at - 1);
        assert(seq![bytes[0]] + rest.take(at - 1) =~= bytes.take(at));
    } else {
        assert(bytes.take(0) =~= Seq::empty());
    }
}

impl VolumeSuperblock {
    /// Parses a volume superblock from bytes beginning at an APFS object.
    pub fn parse(data: &[u8]) -> (r: Result<Self, ApfsError>)
        ensures
            is_volume_outcome(data@, r),
    {
        let object = ObjectHeader::parse(data)?;
        if object.kind() != ObjectType::VolumeSuperblock.raw() {
            return Err(ApfsError::InvalidValue("volume superblock object type"));
        }
        let magic = take::<4>(data, 32)?;
        let expected: [u8; 4] = VOLUME_MAGIC;
        if magic[0] != expected[0] || magic[1] != expected[1] || magic[2] != expected[2]
            || magic[3] != expected[3] {
            return Err(ApfsError::InvalidMagic { expected, actual: magic });
        }
        assert(magic@ =~= expected@);
        Ok(
            VolumeSuperblock {
                object,
                fs_index: le_u32(data, 36)?,
                optional_features: le_u64(data, 40)?,
                readonly_compatible_features: le_u64(data, 48)?,
                incompatible_features: le_u64(data, 56)?,
                allocated_block_count: le_u64(data, 88)?,
                object_map_oid: le_u64(data, 128)?,
                root_tree_oid: le_u64(data, 136)?,
                extent_reference_tree_oid: le_u64(data, 144)?,
                snapshot_metadata_tree_oid: le_u64(data, 152)?,
                number_files: le_u64(data, 184)?,
                number_directories: le_u64(data, 192)?,
                number_symlinks: le_u64(data, 200)?,
                number_snapshots: le_u64(data, 216)?,
                volume_id: take::<16>(data, 240)?,
                flags: le_u64(data, 264)?,
                volume_name: take::<256>(data, 704)?,
                root_to_xid: le_u64(data, 968)?,
            },
        )
    }

    /// Returns whether the volume's filesystem tree is encrypted on disk.
    ///
    /// When true, the volume superblock and object map are still readable
    /// (APFS keeps container-level metadata in plaintext), but the
    /// filesystem B-tree blocks the object map points at are AES-XTS
    /// ciphertext: reading them raw yields bytes whose stored checksum
    /// field cannot verify, surfacing as a deterministic
    /// [`ApfsError::ChecksumMismatch`]. Decrypting them requires
    /// unwrapping the volume encryption key from the container keybag. Note
    /// that Apple Silicon and T2 Macs encrypt the Data volume even when
    /// FileVault is disabled.
    pub fn is_encrypted(&self) -> (encrypted: bool)
        ensures
            encrypted == (self.flags % 2 == 0),
    {
        let flags: u64 = self.flags;
        assert(flags & 1 == flags % 2) by (bit_vector);
        flags & VOLUME_FLAG_UNENCRYPTED == 0
    }

    /// Returns the volume name as UTF-8 up to the first NUL byte.
    pub fn name(&self) -> (r: Result<&str, ApfsError>)
        ensures
            match r {
                Ok(name) => vstd::utf8::encode_utf8(name@) == before_nul(self.volume_name@),
                Err(error) => {
                    &&& !vstd::utf8::valid_utf8(before_nul(self.volume_name@))
                    &&& error == ApfsError::InvalidValue("volume name UTF-8")
                },
            },
    {
        let mut length: usize = 0;
        while length < VOLUME_NAME_LENGTH && self.volume_name[length] != 0
            invariant
                length <= VOLUME_NAME_LENGTH,
                forall|i: int| 0 <= i < length ==> self.volume_name@[i] != 0,
            decreases VOLUME_NAME_LENGTH - length,
        {
            length = length + 1;
        }
        let bytes = slice_subrange(&self.volume_name, 0, length);
        proof {
            lemma_before_nul(self.volume_name@, length as int);
            assert(bytes@ =~= self.volume_name@.take(length as int));
        }
        match core::str::from_utf8(bytes) {
            Ok(name) => Ok(name),
            Err(_) => Err(ApfsError::InvalidValue("volume name UTF-8")),
        }
    }

    /// The transaction identifier that reads of this volume go by.
    pub open spec fn spec_default_read_transaction_id(&self) -> u64 {
        if self.root_to_xid != 0 {
            self.root_to_xid
        } else {
            self.object.transaction_identifier
        }
    }

    /// Returns the transaction identifier B-tree walks rooted at this
    /// volume should default to bounding lookups by.
    ///
    /// This is [`Self::root_to_xid`] when non-zero (the volume is mounted
    /// from a frozen snapshot, as with a sealed system volume), otherwise
    /// the volume superblock's own live transaction identifier.
    pub fn default_read_transaction_id(&self) -> (xid: u64)
        ensures
            xid == self.spec_default_read_transaction_id(),
    {
        if self.root_to_xid != 0 {
            self.root_to_xid
        } else {
            self.object.transaction_identifier
        }
    }
}

/// A block is taken for a volume superblock if and only if it is an object of
/// type 13, says `APSB` after its header and has all 976 bytes; and then every
/// field is the number or the bytes at its own offset.
pub proof fn law_volume_fields_lie_at_their_offsets(
    data: Seq<u8>,
    r: Result<VolumeSuperblock, ApfsError>,
)
    requires
        is_volume_outcome(data, r),
    ensures
        r is Ok <==> data.len() >= 976 && data[24] == 13 && data[25] == 0 && data[32] == 0x41
            && data[33] == 0x50 && data[34] == 0x53 && data[35] == 0x42,
        r matches Ok(volume) ==> {
            &&& volume.object.checksum == crate::types::bytes::u64_at(data, 0)
            &&& volume.object.object_identifier == crate::types::bytes::u64_at(data, 8)
            &&& volume.object.transaction_identifier == crate::types::bytes::u64_at(data, 16)
            &&& volume.object.object_type == crate::types::bytes::u32_at(data, 24)
            &&& volume.object.object_subtype == crate::types::bytes::u32_at(data, 28)
            &&& volume.fs_index == crate::types::bytes::u32_at(data, 36)
            &&& volume.optional_features == crate::types::bytes::u64_at(data, 40)
            &&& volume.readonly_compatible_features == crate::types::bytes::u64_at(data, 48)
            &&& volume.incompatible_features == crate::types::bytes::u64_at(data, 56)
            &&& volume.allocated_block_count == crate::types::bytes::u64_at(data, 88)
            &&& volume.object_map_oid == crate::types::bytes::u64_at(data, 128)
            &&& volume.root_tree_oid == crate::types::bytes::u64_at(data, 136)
            &&& volume.extent_reference_tree_oid == crate::types::bytes::u64_at(data, 144)
            &&& volume.snapshot_metadata_tree_oid == crate::types::bytes::u64_at(data, 152)
            &&& volume.number_files == crate::types::bytes::u64_at(data, 184)
            &&& volume.number_directories == crate::types::bytes::u64_at(data, 192)
            &&& volume.number_symlinks == crate::types::bytes::u64_at(data, 200)
            &&& volume.number_snapshots == crate::types::bytes::u64_at(data, 216)
            &&& volume.flags == crate::types::bytes::u64_at(data, 264)
            &&& volume.root_to_xid == crate::types::bytes::u64_at(data, 968)
            &&& volume.volume_id@ == data.subrange(240, 256)
            &&& volume.volume_name@ == data.subrange(704, 960)
        },
{
    if data.len() >= 32 {
        crate::types::object::law_header_fields_lie_at_their_offsets(data);
    }
    if data.len() >= 36 {
        assert(data.subrange(32, 36) =~= seq![data[32], data[33], data[34], data[35]]);
        assert(VOLUME_MAGIC@ =~= seq![0x41u8, 0x50u8, 0x53u8, 0x42u8]);
        if data.subrange(32, 36) == VOLUME_MAGIC@ {
            assert(data[32] == VOLUME_MAGIC@[0] && data[33] == VOLUME_MAGIC@[1] && data[34]
                == VOLUME_MAGIC@[2] && data[35] == VOLUME_MAGIC@[3]);
        }
    }
}

/// The bytes before the first NUL are bytes of the field from its start on,
/// none of them is NUL, and they end only at a NUL or at the end of the field.
pub proof fn law_name_ends_at_the_first_nul(bytes: Seq<u8>)
    ensures
        before_nul(bytes).len() <= bytes.len(),
        before_nul(bytes) == bytes.take(before_nul(bytes).len() as int),
        forall|i: int| 0 <= i < before_nul(bytes).len() ==> #[trigger] bytes[i] != 0,
        before_nul(bytes).len() < bytes.len() ==> bytes[before_nul(bytes).len() as int] == 0,
    decreases bytes.len(),
{
    if bytes.len() > 0 && bytes[0] != 0 {
        let rest = bytes.drop_first();
        law_name_ends_at_the_first_nul(rest);
        let n = before_nul(rest).len() as int;
        assert(seq![bytes[0]] + rest.take(n) =~= bytes.take(n + 1));
        assert forall|i: int| 0 <= i < n + 1 implies #[trigger] bytes[i] != 0 by {
            if i > 0 {
                assert(rest[i - 1] == bytes[i]);
            }
        }
    } else {
        assert(before_nul(bytes) =~= bytes.take(0));
    }
}

/// A volume that roots from a snapshot is read as of that snapshot, and any
/// other one as of the transaction that last wrote its superblock.
pub proof fn law_default_transaction(volume: VolumeSuperblock)
    ensures
        volume.root_to_xid != 0 ==> volume.spec_default_read_transaction_id()
            == volume.root_to_xid,
        volume.root_to_xid == 0 ==> volume.spec_default_read_transaction_id()
            == volume.object.transaction_identifier,
{
}

} // verus!
