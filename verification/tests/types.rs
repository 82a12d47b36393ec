//! Tests of the on-disk structures and of error texts.

use hadris_apfs::error::{map_read_error, ApfsError, ErrorKind, ReadError};
use hadris_apfs::types::keybag::{
    Keybag, KeybagEntry, KeybagTag, MediaKeybag, PhysicalRange, CONTAINER_KEYBAG_OBJECT_TYPE,
    KEYBAG_VERSION,
};
use hadris_apfs::types::object::{ObjectHeader, ObjectType};
use hadris_apfs::types::volume::{VolumeSuperblock, VOLUME_MAGIC};

#[test]
fn parses_single_entry_keybag() {
    let mut data = vec![0_u8; 16 + 32];
    // kb_locker_t header
    data[0..2].copy_from_slice(&KEYBAG_VERSION.to_le_bytes());
    data[2..4].copy_from_slice(&1_u16.to_le_bytes()); // kl_nkeys
    data[4..8].copy_from_slice(&32_u32.to_le_bytes()); // kl_nbytes
    // one entry: uuid, tag=VolumePassphraseHint, key_length=4, key_data="hint"
    data[16..32].fill(0xAB);
    data[32..34].copy_from_slice(&(KeybagTag::VolumePassphraseHint as u16).to_le_bytes());
    data[34..36].copy_from_slice(&4_u16.to_le_bytes());
    data[40..44].copy_from_slice(b"hint");

    let keybag = Keybag::parse(&data).unwrap();
    assert_eq!(keybag.version, KEYBAG_VERSION);
    assert_eq!(keybag.entries.len(), 1);
    assert_eq!(keybag.entries[0].uuid, [0xAB_u8; 16]);
    assert_eq!(keybag.entries[0].key_data, b"hint");
    assert!(keybag
        .find(&[0xAB; 16], KeybagTag::VolumePassphraseHint)
        .is_some());
}

fn keybag_entry(uuid: u8, tag: KeybagTag, key_data: &[u8]) -> Vec<u8> {
    let mut entry = vec![uuid; 16];
    entry.extend(tag.raw().to_le_bytes());
    entry.extend((key_data.len() as u16).to_le_bytes());
    entry.extend([0_u8; 4]);
    entry.extend(key_data);
    while entry.len() % 16 != 0 {
        entry.push(0);
    }
    entry
}

fn keybag_bytes(count: u16, entries: &[u8]) -> Vec<u8> {
    let mut data = KEYBAG_VERSION.to_le_bytes().to_vec();
    data.extend(count.to_le_bytes());
    data.extend((entries.len() as u32).to_le_bytes());
    data.extend([0_u8; 8]);
    data.extend(entries);
    data
}

#[test]
fn entries_follow_each_other_at_16_byte_boundaries() {
    let mut entries = keybag_entry(1, KeybagTag::VolumeKey, &[7; 9]);
    entries.extend(keybag_entry(2, KeybagTag::VolumeUnlockRecords, &[8; 8]));
    entries.extend(keybag_entry(1, KeybagTag::VolumeUnlockRecords, &[]));
    let keybag = Keybag::parse(&keybag_bytes(3, &entries)).unwrap();
    let keys: Vec<&[u8]> = keybag
        .entries
        .iter()
        .map(|entry| entry.key_data.as_slice())
        .collect();
    assert_eq!(keys, [&[7; 9][..], &[8; 8][..], &[][..]]);
    let (first, occupied) = KeybagEntry::parse_one(&entries).unwrap();
    assert_eq!(first, keybag.entries[0]);
    assert_eq!(occupied, 48);
}

#[test]
fn find_takes_identifier_and_tag() {
    let mut entries = keybag_entry(1, KeybagTag::VolumeKey, &[1]);
    entries.extend(keybag_entry(2, KeybagTag::VolumeKey, &[2]));
    entries.extend(keybag_entry(2, KeybagTag::VolumeUnlockRecords, &[3]));
    entries.extend(keybag_entry(2, KeybagTag::VolumeKey, &[4]));
    let keybag = Keybag::parse(&keybag_bytes(4, &entries)).unwrap();
    assert_eq!(
        keybag.find(&[2; 16], KeybagTag::VolumeKey).unwrap().key_data,
        [2]
    );
    assert!(keybag.find(&[3; 16], KeybagTag::VolumeKey).is_none());
    assert!(keybag.find(&[1; 16], KeybagTag::UserPayload).is_none());
    let all: Vec<u8> = keybag
        .find_all(KeybagTag::VolumeKey)
        .iter()
        .map(|entry| entry.key_data[0])
        .collect();
    assert_eq!(all, [1, 2, 4]);
    let found = keybag.find(&[2; 16], KeybagTag::VolumeKey).unwrap();
    assert!(keybag
        .find_all(KeybagTag::VolumeKey)
        .iter()
        .any(|entry| *entry == found));
}

#[test]
fn truncated_keybags() {
    let entries = keybag_entry(1, KeybagTag::VolumeKey, &[1; 8]);
    let data = keybag_bytes(1, &entries);
    assert!(Keybag::parse(&data).is_ok());
    assert_eq!(
        Keybag::parse(&data[..data.len() - 1]),
        Err(ApfsError::InputTooSmall)
    );
    assert_eq!(Keybag::parse(&data[..15]), Err(ApfsError::InputTooSmall));
    assert_eq!(
        Keybag::parse(&keybag_bytes(2, &entries)),
        Err(ApfsError::InputTooSmall)
    );
    assert_eq!(
        KeybagEntry::parse_one(&entries[..31]),
        Err(ApfsError::InputTooSmall)
    );
}

#[test]
fn bytes_after_a_keybag_do_not_matter() {
    let entries = keybag_entry(1, KeybagTag::VolumeKey, &[1; 8]);
    let data = keybag_bytes(1, &entries);
    let mut padded = data.clone();
    padded.extend([0xFF; 100]);
    assert_eq!(Keybag::parse(&padded), Keybag::parse(&data));
    // A header may announce fewer entries than there is room for.
    let none = Keybag::parse(&keybag_bytes(0, &entries)).unwrap();
    assert!(none.entries.is_empty());
}

#[test]
fn media_keybag_follows_the_object_header() {
    let mut data = vec![0_u8; 32];
    data[24..28].copy_from_slice(&CONTAINER_KEYBAG_OBJECT_TYPE.to_le_bytes());
    data.extend(keybag_bytes(0, &[]));
    let media = MediaKeybag::parse(&data).unwrap();
    assert_eq!(media.object.object_type, CONTAINER_KEYBAG_OBJECT_TYPE);
    assert_eq!(media.keybag.version, 2);
    assert_eq!(MediaKeybag::parse(&data[..31]), Err(ApfsError::InputTooSmall));
    assert_eq!(MediaKeybag::parse(&data[..40]), Err(ApfsError::InputTooSmall));
}

#[test]
fn tags_and_their_values() {
    for value in 0..6_u16 {
        assert_eq!(KeybagTag::from_raw(value).unwrap().raw(), value);
    }
    assert_eq!(KeybagTag::from_raw(3), Some(KeybagTag::VolumeUnlockRecords));
    assert_eq!(KeybagTag::from_raw(6), None);
    assert_eq!(KeybagTag::from_raw(u16::MAX), None);
}

#[test]
fn physical_ranges() {
    let mut data = 5_u64.to_le_bytes().to_vec();
    data.extend(9_u64.to_le_bytes());
    assert_eq!(
        PhysicalRange::parse(&data),
        Ok(PhysicalRange {
            start_block: 5,
            block_count: 9
        })
    );
    assert_eq!(
        PhysicalRange::parse(&data[..15]),
        Err(ApfsError::InputTooSmall)
    );
}

#[test]
fn object_headers() {
    let mut data = vec![];
    data.extend(1_u64.to_le_bytes());
    data.extend(2_u64.to_le_bytes());
    data.extend(3_u64.to_le_bytes());
    data.extend(0x8000_000d_u32.to_le_bytes());
    data.extend(5_u32.to_le_bytes());
    let header = ObjectHeader::parse(&data).unwrap();
    assert_eq!(header.checksum, 1);
    assert_eq!(header.object_identifier, 2);
    assert_eq!(header.transaction_identifier, 3);
    assert_eq!(header.object_subtype, 5);
    assert_eq!(header.kind(), ObjectType::VolumeSuperblock.raw());
    assert_eq!(ObjectHeader::parse(&data[..31]), Err(ApfsError::InputTooSmall));
}

fn volume_bytes() -> Vec<u8> {
    let mut data = vec![0_u8; 976];
    data[16..24].copy_from_slice(&70_u64.to_le_bytes());
    data[24..28].copy_from_slice(&0x0d_u32.to_le_bytes());
    data[32..36].copy_from_slice(&VOLUME_MAGIC);
    data[36..40].copy_from_slice(&3_u32.to_le_bytes());
    for (offset, value) in [
        (40, 11_u64),
        (48, 12),
        (56, 13),
        (88, 14),
        (128, 15),
        (136, 16),
        (144, 17),
        (152, 18),
        (184, 19),
        (192, 20),
        (200, 21),
        (216, 22),
        (264, 23),
        (968, 24),
    ] {
        data[offset..offset + 8].copy_from_slice(&value.to_le_bytes());
    }
    data[240..256].fill(0xCD);
    data[704..708].copy_from_slice(b"Data");
    data
}

#[test]
fn volume_fields() {
    let volume = VolumeSuperblock::parse(&volume_bytes()).unwrap();
    assert_eq!(volume.object.transaction_identifier, 70);
    assert_eq!(volume.fs_index, 3);
    assert_eq!(volume.optional_features, 11);
    assert_eq!(volume.readonly_compatible_features, 12);
    assert_eq!(volume.incompatible_features, 13);
    assert_eq!(volume.allocated_block_count, 14);
    assert_eq!(volume.object_map_oid, 15);
    assert_eq!(volume.root_tree_oid, 16);
    assert_eq!(volume.extent_reference_tree_oid, 17);
    assert_eq!(volume.snapshot_metadata_tree_oid, 18);
    assert_eq!(volume.number_files, 19);
    assert_eq!(volume.number_directories, 20);
    assert_eq!(volume.number_symlinks, 21);
    assert_eq!(volume.number_snapshots, 22);
    assert_eq!(volume.flags, 23);
    assert_eq!(volume.root_to_xid, 24);
    assert_eq!(volume.volume_id, [0xCD; 16]);
    assert_eq!(volume.name(), Ok("Data"));
}

#[test]
fn volume_errors() {
    let data = volume_bytes();
    assert_eq!(
        VolumeSuperblock::parse(&data[..975]),
        Err(ApfsError::InputTooSmall)
    );
    assert_eq!(
        VolumeSuperblock::parse(&data[..35]),
        Err(ApfsError::InputTooSmall)
    );
    assert_eq!(
        VolumeSuperblock::parse(&data[..31]),
        Err(ApfsError::InputTooSmall)
    );
    let mut other = data.clone();
    other[24] = 1;
    assert_eq!(
        VolumeSuperblock::parse(&other[..33]),
        Err(ApfsError::InvalidValue("volume superblock object type"))
    );
    let mut magic = data;
    magic[35] = b'X';
    assert_eq!(
        VolumeSuperblock::parse(&magic[..40]),
        Err(ApfsError::InvalidMagic {
            expected: *b"APSB",
            actual: *b"APSX"
        })
    );
}

#[test]
fn volume_names() {
    let mut volume = VolumeSuperblock::parse(&volume_bytes()).unwrap();
    volume.volume_name = [b'x'; 256];
    assert_eq!(volume.name().unwrap().len(), 256);
    volume.volume_name[0] = 0;
    assert_eq!(volume.name(), Ok(""));
    volume.volume_name[0] = 0xC3;
    volume.volume_name[1] = 0xA9;
    volume.volume_name[2] = 0;
    assert_eq!(volume.name(), Ok("\u{e9}"));
    volume.volume_name[1] = b'x';
    assert_eq!(
        volume.name(),
        Err(ApfsError::InvalidValue("volume name UTF-8"))
    );
}

#[test]
fn volume_flags_and_transactions() {
    let mut volume = VolumeSuperblock::parse(&volume_bytes()).unwrap();
    assert!(!volume.is_encrypted());
    volume.flags = 22;
    assert!(volume.is_encrypted());
    assert_eq!(volume.default_read_transaction_id(), 24);
    volume.root_to_xid = 0;
    assert_eq!(volume.default_read_transaction_id(), 70);
}

#[test]
fn read_errors() {
    assert_eq!(
        map_read_error(ReadError::InvalidBufferLength),
        ApfsError::InvalidValue("read buffer length")
    );
    assert_eq!(
        map_read_error(ReadError::OutOfBounds),
        ApfsError::InvalidValue("block is outside the device")
    );
    assert_eq!(
        map_read_error(ReadError::AddressOverflow),
        ApfsError::AddressOverflow
    );
    assert_eq!(
        map_read_error(ReadError::InvalidView),
        ApfsError::InvalidValue("partition view")
    );
    assert_eq!(
        map_read_error(ReadError::Io(ErrorKind::TimedOut)),
        ApfsError::from_io(ErrorKind::TimedOut)
    );
}

#[test]
fn error_messages() {
    assert_eq!(ApfsError::InputTooSmall.message(), "APFS input too small");
    assert_eq!(
        ApfsError::InvalidMagic {
            expected: *b"APSB",
            actual: [0, 1, 20, 255]
        }
        .message(),
        format!(
            "invalid APFS magic {:?}, expected {:?}",
            [0, 1, 20, 255],
            b"APSB"
        )
    );
    assert_eq!(
        ApfsError::InvalidValue("device block size").message(),
        "invalid APFS value: device block size"
    );
    assert_eq!(
        ApfsError::ChecksumMismatch {
            expected: 0,
            actual: 0xDEAD_BEEF_0123_4567
        }
        .message(),
        "APFS checksum mismatch: expected 0x0, got 0xdeadbeef01234567"
    );
    assert_eq!(
        ApfsError::AddressOverflow.message(),
        "APFS address calculation overflowed"
    );
    assert_eq!(
        ApfsError::NotBTreeRoot {
            object_identifier: 1026,
            transaction_identifier: 90,
            object_type: 0x4000_0003,
            flags: 2
        }
        .message(),
        "expected B-tree root at object 1026 (oid 0x402), found object_type 0x40000003 flags 0x0002 (root bit false) xid 90"
    );
    assert_eq!(
        ApfsError::NotBTreeRoot {
            object_identifier: u64::MAX,
            transaction_identifier: 0,
            object_type: 0xB,
            flags: 0xABC1
        }
        .message(),
        "expected B-tree root at object 18446744073709551615 (oid 0xffffffffffffffff), found object_type 0x0000000b flags 0xabc1 (root bit true) xid 0"
    );
    assert_eq!(
        ApfsError::Io(ErrorKind::UnexpectedEof).message(),
        "APFS I/O error: UnexpectedEof"
    );
    assert_eq!(
        ApfsError::Crypto("truncated wrapped VEK").message(),
        "APFS decryption failed: truncated wrapped VEK"
    );
}

#[test]
fn error_kind_names_are_their_variants() {
    for kind in [
        ErrorKind::NotFound,
        ErrorKind::PermissionDenied,
        ErrorKind::Interrupted,
        ErrorKind::InvalidInput,
        ErrorKind::InvalidData,
        ErrorKind::TimedOut,
        ErrorKind::UnexpectedEof,
        ErrorKind::Unsupported,
        ErrorKind::Other,
    ] {
        assert_eq!(kind.name(), format!("{:?}", kind));
    }
}
