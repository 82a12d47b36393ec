//! The error type shared by every APFS operation.

use crate::text::{
    append_byte_list, append_decimal, append_hexadecimal, append_padded_hexadecimal, append_truth,
};
use vstd::prelude::*;
use vstd::string::*;

verus! {

/// Portable classification of an I/O failure.
#[derive(Debug, Clone, Copy, PartialEq, Eq)]
pub enum ErrorKind {
    /// The requested entity was not found.
    NotFound,
    /// The operation lacked the necessary privileges.
    PermissionDenied,
    /// The operation was interrupted and may be retried.
    Interrupted,
    /// A parameter was incorrect.
    InvalidInput,
    /// The data was malformed.
    InvalidData,
    /// The operation did not finish in time.
    TimedOut,
    /// The device ended before the requested bytes.
    UnexpectedEof,
    /// The operation is not supported by the device.
    Unsupported,
    /// Any other failure.
    Other,
}

/// Why a block device refused or failed a read.
#[derive(Debug, Clone, Copy, PartialEq, Eq)]
pub enum ReadError {
    /// The buffer is not a whole number of device blocks.
    InvalidBufferLength,
    /// The requested blocks lie outside the device.
    OutOfBounds,
    /// The byte address of the requested block does not fit the address type.
    AddressOverflow,
    /// The device is a partition view that does not fit its parent device.
    InvalidView,
    /// The device itself failed.
    Io(ErrorKind),
}

/// APFS operation error.
#[derive(Debug, Clone, Copy, PartialEq, Eq)]
pub enum ApfsError {
    /// Input ended before the requested structure could be parsed.
    InputTooSmall,
    /// The APFS magic value was not present.
    InvalidMagic {
        /// Expected magic bytes.
        expected: [u8; 4],
        /// Actual magic bytes found in input.
        actual: [u8; 4],
    },
    /// A field contained an invalid value.
    InvalidValue(&'static str),
    /// Fletcher checksum verification failed.
    ChecksumMismatch {
        /// Checksum stored in the object header.
        expected: u64,
        /// Checksum computed from the object bytes.
        actual: u64,
    },
    /// Arithmetic overflow while calculating an address or length.
    AddressOverflow,
    /// A B-tree walk expected the node at `object_identifier` to be the root
    /// of its tree (carrying the `btree_info_t` trailer), but its on-disk
    /// flags don't have the root bit set.
    NotBTreeRoot {
        /// The node's `obj_phys_t.o_oid`. For a physically-addressed B-tree
        /// node this is also its physical block address.
        object_identifier: u64,
        /// The node's `obj_phys_t.o_xid`. A value newer than the transaction
        /// that referenced this block indicates the block was reallocated to
        /// a different object (a live-disk race), rather than a real
        /// non-root node in the intended tree.
        transaction_identifier: u64,
        /// Raw APFS object type/subtype from the node's header.
        object_type: u32,
        /// Raw `btn_flags` read from the node.
        flags: u16,
    },
    /// Underlying I/O failed.
    Io(ErrorKind),
    /// Encryption/decryption failed: a malformed keybag or wrapped-key blob,
    /// a wrong password, or a volume that isn't unlocked before an encrypted
    /// block was read.
    Crypto(&'static str),
}

impl ErrorKind {
    /// The name of this kind.
    pub open spec fn spec_name(self) -> Seq<char> {
        match self {
            ErrorKind::NotFound => "NotFound"@,
            ErrorKind::PermissionDenied => "PermissionDenied"@,
            ErrorKind::Interrupted => "Interrupted"@,
            ErrorKind::InvalidInput => "InvalidInput"@,
            ErrorKind::InvalidData => "InvalidData"@,
            ErrorKind::TimedOut => "TimedOut"@,
            ErrorKind::UnexpectedEof => "UnexpectedEof"@,
            ErrorKind::Unsupported => "Unsupported"@,
            ErrorKind::Other => "Other"@,
        }
    }

    /// Returns the name of this kind.
    pub fn name(self) -> (name: &'static str)
        ensures
            name@ == self.spec_name(),
    {
        match self {
            ErrorKind::NotFound => "NotFound",
            ErrorKind::PermissionDenied => "PermissionDenied",
            ErrorKind::Interrupted => "Interrupted",
            ErrorKind::InvalidInput => "InvalidInput",
            ErrorKind::InvalidData => "InvalidData",
            ErrorKind::TimedOut => "TimedOut",
            ErrorKind::UnexpectedEof => "UnexpectedEof",
            ErrorKind::Unsupported => "Unsupported",
            ErrorKind::Other => "Other",
        }
    }
}

/// The text that an error is shown as.
pub open spec fn error_text(error: ApfsError) -> Seq<char> {
    match error {
        ApfsError::InputTooSmall => "APFS input too small"@,
        ApfsError::InvalidMagic { expected, actual } => "invalid APFS magic "@
            + crate::text::byte_list(actual@) + ", expected "@ + crate::text::byte_list(expected@),
        ApfsError::InvalidValue(name) => "invalid APFS value: "@ + name@,
        ApfsError::ChecksumMismatch { expected, actual } => "APFS checksum mismatch: expected "@
            + crate::text::hexadecimal(expected as int) + ", got "@ + crate::text::hexadecimal(
            actual as int,
        ),
        ApfsError::AddressOverflow => "APFS address calculation overflowed"@,
        ApfsError::NotBTreeRoot {
            object_identifier,
            transaction_identifier,
            object_type,
            flags,
        } => "expected B-tree root at object "@ + crate::text::decimal(object_identifier as int)
            + " (oid "@ + crate::text::hexadecimal(object_identifier as int)
            + "), found object_type "@ + crate::text::padded_hexadecimal(object_type as int, 8)
            + " flags "@ + crate::text::padded_hexadecimal(flags as int, 4) + " (root bit "@
            + crate::text::truth(flags % 2 == 1) + ") xid "@ + crate::text::decimal(
            transaction_identifier as int,
        ),
        ApfsError::Io(kind) => "APFS I/O error: "@ + kind.spec_name(),
        ApfsError::Crypto(reason) => "APFS decryption failed: "@ + reason@,
    }
}

impl ApfsError {
    /// Returns the text that this error is shown as.
    pub fn message(&self) -> (message: String)
        ensures
            message@ == error_text(*self),
    {
        match self {
            ApfsError::InputTooSmall => "APFS input too small".to_owned(),
            ApfsError::InvalidMagic { expected, actual } => {
                let mut message: String = "invalid APFS magic ".to_owned();
                append_byte_list(&mut message, actual);
                message.append(", expected ");
                append_byte_list(&mut message, expected);
                message
            },
            ApfsError::InvalidValue(name) => {
                let mut message: String = "invalid APFS value: ".to_owned();
                message.append(name);
                message
            },
            ApfsError::ChecksumMismatch { expected, actual } => {
                let mut message: String = "APFS checksum mismatch: expected ".to_owned();
                append_hexadecimal(&mut message, *expected);
                message.append(", got ");
                append_hexadecimal(&mut message, *actual);
                message
            },
            ApfsError::AddressOverflow => "APFS address calculation overflowed".to_owned(),
            ApfsError::NotBTreeRoot {
                object_identifier,
                transaction_identifier,
                object_type,
                flags,
            } => {
                let mut message: String = "expected B-tree root at object ".to_owned();
                append_decimal(&mut message, *object_identifier);
                message.append(" (oid ");
                append_hexadecimal(&mut message, *object_identifier);
                message.append("), found object_type ");
                append_padded_hexadecimal(&mut message, *object_type as u64, 8);
                message.append(" flags ");
                append_padded_hexadecimal(&mut message, *flags as u64, 4);
                message.append(" (root bit ");
                append_truth(&mut message, *flags % 2 == 1);
                message.append(") xid ");
                append_decimal(&mut message, *transaction_identifier);
                message
            },
            ApfsError::Io(kind) => {
                let mut message: String = "APFS I/O error: ".to_owned();
                message.append(kind.name());
                message
            },
            ApfsError::Crypto(reason) => {
                let mut message: String = "APFS decryption failed: ".to_owned();
                message.append(reason);
                message
            },
        }
    }

    /// Converts the kind of a portable I/O error into an APFS error.
    pub fn from_io(kind: ErrorKind) -> (error: Self)
        ensures
            error == ApfsError::Io(kind),
    {
        ApfsError::Io(kind)
    }
}

/// The APFS error that a failed device read is reported as.
pub open spec fn read_error_as_apfs(error: ReadError) -> ApfsError {
    match error {
        ReadError::InvalidBufferLength => ApfsError::InvalidValue("read buffer length"),
        ReadError::OutOfBounds => ApfsError::InvalidValue("block is outside the device"),
        ReadError::AddressOverflow => ApfsError::AddressOverflow,
        ReadError::InvalidView => ApfsError::InvalidValue("partition view"),
        ReadError::Io(kind) => ApfsError::Io(kind),
    }
}

/// Maps a block-device read error to an APFS error.
pub fn map_read_error(error: ReadError) -> (mapped: ApfsError)
    ensures
        mapped == read_error_as_apfs(error),
{
    match error {
        ReadError::InvalidBufferLength => ApfsError::InvalidValue("read buffer length"),
        ReadError::OutOfBounds => ApfsError::InvalidValue("block is outside the device"),
        ReadError::AddressOverflow => ApfsError::AddressOverflow,
        ReadError::InvalidView => ApfsError::InvalidValue("partition view"),
        ReadError::Io(kind) => ApfsError::from_io(kind),
    }
}

/// What each error is shown as.
pub proof fn law_messages(error: ApfsError)
    ensures
        error is InputTooSmall ==> error_text(error) == "APFS input too small"@,
        error is AddressOverflow ==> error_text(error) == "APFS address calculation overflowed"@,
        error matches ApfsError::InvalidValue(name) ==> error_text(error)
            == "invalid APFS value: "@ + name@,
        error matches ApfsError::Crypto(reason) ==> error_text(error)
            == "APFS decryption failed: "@ + reason@,
        error matches ApfsError::Io(kind) ==> error_text(error) == "APFS I/O error: "@ + (
        match kind {
            ErrorKind::NotFound => "NotFound"@,
            ErrorKind::PermissionDenied => "PermissionDenied"@,
            ErrorKind::Interrupted => "Interrupted"@,
            ErrorKind::InvalidInput => "InvalidInput"@,
            ErrorKind::InvalidData => "InvalidData"@,
            ErrorKind::TimedOut => "TimedOut"@,
            ErrorKind::UnexpectedEof => "UnexpectedEof"@,
            ErrorKind::Unsupported => "Unsupported"@,
            ErrorKind::Other => "Other"@,
        }),
        error matches ApfsError::ChecksumMismatch { expected, actual } ==> error_text(error)
            == "APFS checksum mismatch: expected "@ + crate::text::hexadecimal(expected as int)
            + ", got "@ + crate::text::hexadecimal(actual as int),
        error matches ApfsError::InvalidMagic { expected, actual } ==> error_text(error)
            == "invalid APFS magic "@ + ("["@ + crate::text::decimal(actual@[0] as int) + ", "@
            + crate::text::decimal(actual@[1] as int) + ", "@ + crate::text::decimal(
            actual@[2] as int,
        ) + ", "@ + crate::text::decimal(actual@[3] as int) + "]"@) + ", expected "@ + ("["@
            + crate::text::decimal(expected@[0] as int) + ", "@ + crate::text::decimal(
            expected@[1] as int,
        ) + ", "@ + crate::text::decimal(expected@[2] as int) + ", "@ + crate::text::decimal(
            expected@[3] as int,
        ) + "]"@),
        error matches ApfsError::NotBTreeRoot {
            object_identifier,
            transaction_identifier,
            object_type,
            flags,
        } ==> error_text(error) == "expected B-tree root at object "@ + crate::text::decimal(
            object_identifier as int,
        ) + " (oid "@ + crate::text::hexadecimal(object_identifier as int)
            + "), found object_type "@ + crate::text::padded_hexadecimal(object_type as int, 8)
            + " flags "@ + crate::text::padded_hexadecimal(flags as int, 4) + " (root bit "@ + (
        if flags % 2 == 1 {
            "true"@
        } else {
            "false"@
        }) + ") xid "@ + crate::text::decimal(transaction_identifier as int),
{
}

} // verus!
