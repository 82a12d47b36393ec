//! The header that starts every APFS object.

use crate::error::ApfsError;
use crate::types::bytes::{le_u32, le_u64};
use vstd::prelude::*;

verus! {

/// Number of bytes an object header occupies (`obj_phys_t`).
pub const OBJECT_HEADER_SIZE: usize = 32;

/// Object types that the reader recognises.
#[derive(Debug, Clone, Copy, PartialEq, Eq)]
pub enum ObjectType {
    /// Container superblock (`OBJECT_TYPE_NX_SUPERBLOCK`).
    ContainerSuperblock,
    /// Checkpoint map (`OBJECT_TYPE_CHECKPOINT_MAP`).
    CheckpointMap,
    /// Volume superblock (`OBJECT_TYPE_FS`).
    VolumeSuperblock,
}

impl ObjectType {
    /// The on-disk value of this type.
    pub open spec fn spec_raw(self) -> u16 {
        match self {
            ObjectType::ContainerSuperblock => 0x01,
            ObjectType::CheckpointMap => 0x0c,
            ObjectType::VolumeSuperblock => 0x0d,
        }
    }

    /// Returns the on-disk value of this type.
    pub fn raw(self) -> (value: u16)
        ensures
            value == self.spec_raw(),
    {
        match self {
            ObjectType::ContainerSuperblock => 0x01,
            ObjectType::CheckpointMap => 0x0c,
            ObjectType::VolumeSuperblock => 0x0d,
        }
    }
}

/// Common object header (`obj_phys_t`).
#[derive(Debug, Clone, Copy, PartialEq, Eq)]
pub struct ObjectHeader {
    /// Fletcher-64 checksum of the rest of the object.
    pub checksum: u64,
    /// Object identifier.
    pub object_identifier: u64,
    /// Transaction that last wrote the object.
    pub transaction_identifier: u64,
    /// Raw object type and flags.
    pub object_type: u32,
    /// Raw object subtype.
    pub object_subtype: u32,
}

/// The header at the start of `data`, when `data` is long enough to hold one.
pub open spec fn object_header(data: Seq<u8>) -> ObjectHeader {
    ObjectHeader {
        checksum: crate::types::bytes::u64_at(data, 0),
        object_identifier: crate::types::bytes::u64_at(data, 8),
        transaction_identifier: crate::types::bytes::u64_at(data, 16),
        object_type: crate::types::bytes::u32_at(data, 24),
        object_subtype: crate::types::bytes::u32_at(data, 28),
    }
}

impl ObjectHeader {
    /// The object type without the flag bits.
    pub open spec fn spec_kind(self) -> u16 {
        (self.object_type % 0x1_0000) as u16
    }

    /// Parses the header at the start of `data`.
    pub fn parse(data: &[u8]) -> (r: Result<Self, ApfsError>)
        ensures
            data@.len() >= OBJECT_HEADER_SIZE ==> r == Ok::<Self, ApfsError>(object_header(data@)),
            data@.len() < OBJECT_HEADER_SIZE ==> r == Err::<Self, ApfsError>(
                ApfsError::InputTooSmall,
            ),
    {
        Ok(
            ObjectHeader {
                checksum: le_u64(data, 0)?,
                object_identifier: le_u64(data, 8)?,
                transaction_identifier: le_u64(data, 16)?,
                object_type: le_u32(data, 24)?,
                object_subtype: le_u32(data, 28)?,
            },
        )
    }

    /// Returns the object type without the flag bits.
    pub fn kind(&self) -> (kind: u16)
        ensures
            kind == self.spec_kind(),
    {
        (self.object_type % 0x1_0000) as u16
    }
}

/// The fields of an object header follow each other from the start of the
/// object, and the object type is the low half of its type field.
pub proof fn law_header_fields_lie_at_their_offsets(data: Seq<u8>)
    requires
        data.len() >= 32,
    ensures
        object_header(data).checksum == crate::types::bytes::u64_at(data, 0),
        object_header(data).object_identifier == crate::types::bytes::u64_at(data, 8),
        object_header(data).transaction_identifier == crate::types::bytes::u64_at(data, 16),
        object_header(data).object_type == crate::types::bytes::u32_at(data, 24),
        object_header(data).object_subtype == crate::types::bytes::u32_at(data, 28),
        object_header(data).spec_kind() == data[24] + 0x100 * data[25],
{
    crate::types::bytes::law_fields_are_little_endian(data, 24);
}

/// The object types that the reader recognises have these values on disk.
pub proof fn law_object_type_values()
    ensures
        ObjectType::ContainerSuperblock.spec_raw() == 1,
        ObjectType::CheckpointMap.spec_raw() == 12,
        ObjectType::VolumeSuperblock.spec_raw() == 13,
        OBJECT_HEADER_SIZE == 32,
{
}

} // verus!
