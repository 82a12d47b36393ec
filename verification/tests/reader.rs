//! Tests of the container walks over small in-memory disks.

use hadris_apfs::error::{ApfsError, ErrorKind, ReadError};
use hadris_apfs::reader::block::{checked, Decoded, Step};
use hadris_apfs::reader::block_list::{join_lists, volume_block, BlockList};
use hadris_apfs::reader::btree::{Addressing, MissingChild, TreeRoot};
use hadris_apfs::reader::container::{Container, OpenStep};
use hadris_apfs::reader::ephemeral::EphemeralStep;
use hadris_apfs::reader::file::{extents_end, required_inode, FileSizeStep};
use hadris_apfs::reader::object_map::resolve;
use hadris_apfs::reader::path::{path_components, PathStep};
use hadris_apfs::reader::snapshot::may_have_snapshots;
use hadris_apfs::reader::sorting::stable_sort;
use hadris_apfs::types::btree::{OwnedBTreeNode, OwnedEntry};
use hadris_apfs::types::container::{CheckpointMapBlock, CheckpointMapping, ContainerSuperblock};
use hadris_apfs::types::filesystem::{
    FileExtentRecord, FileSystemKey, InodeRecord, OwnedDirectoryEntryRecord,
    SnapshotMetadataRecord, FS_TYPE_INODE, INODE_ROOT_DIRECTORY,
};
use hadris_apfs::types::object::ObjectHeader;
use hadris_apfs::types::object_map::{ObjectMapBlock, ObjectMapKey, ObjectMapValue};
use hadris_apfs::types::volume::VolumeSuperblock;

const MISMATCH: ApfsError = ApfsError::ChecksumMismatch {
    expected: 1,
    actual: 2,
};

fn superblock(xid: u64, block_size: u32) -> ContainerSuperblock {
    ContainerSuperblock {
        object: ObjectHeader {
            checksum: 0,
            object_identifier: 1,
            transaction_identifier: xid,
            object_type: 0x8000_0001,
            object_subtype: 0,
        },
        block_size,
        checkpoint_descriptor_area_block: 100,
        checkpoint_descriptor_area_block_count: 4,
        checkpoint_descriptor_area_start_index: 3,
        checkpoint_descriptor_area_length: 2,
        object_map_oid: 50,
        space_manager_oid: 60,
        volumes: vec![],
    }
}

/// The bytes of an object of this type.
fn object(kind: u32) -> Vec<u8> {
    let mut data = vec![0_u8; 64];
    data[24..28].copy_from_slice(&kind.to_le_bytes());
    data
}

fn good<T>(kind: u32, value: T) -> Result<Decoded<T>, ApfsError> {
    Ok(Decoded {
        data: object(kind),
        checksum: Ok(()),
        parsed: Ok(value),
    })
}

/// An open container over a device that is only a number.
fn container(block_size: u32, device_block_size: u32) -> Container<u32> {
    opened(device_block_size, || superblock(9, block_size))
}

fn plain() -> Container<u32> {
    container(4096, 512)
}

fn opened(device_block_size: u32, zero: impl Fn() -> ContainerSuperblock) -> Container<u32> {
    match Container::open(7, device_block_size) {
        OpenStep::Read { length, opening } => {
            assert_eq!(length, 4096);
            let probe = zero();
            let block_size = probe.block_size;
            match opening.resume(Ok(Decoded {
                data: vec![],
                checksum: Ok(()),
                parsed: Ok(probe),
            })) {
                OpenStep::Done(container) => container.unwrap(),
                OpenStep::Read { length, opening } => {
                    assert_eq!(length, block_size as usize);
                    let full = zero();
                    match opening.resume(Ok(Decoded {
                        data: vec![],
                        checksum: Ok(()),
                        parsed: Ok(full),
                    })) {
                        OpenStep::Done(container) => container.unwrap(),
                        OpenStep::Read { .. } => panic!("a third read"),
                    }
                }
            }
        }
        OpenStep::Done(result) => {
            result.unwrap();
            panic!("opened without a read")
        }
    }
}

fn open_error<T>(
    device_block_size: u32,
    replies: Vec<Result<Decoded<ContainerSuperblock>, ReadError>>,
    done: fn(ApfsError) -> T,
) -> T {
    let mut step = Container::open(7_u32, device_block_size);
    for reply in replies {
        step = match step {
            OpenStep::Read { opening, .. } => opening.resume(reply),
            OpenStep::Done(_) => panic!("done too early"),
        };
    }
    match step {
        OpenStep::Done(Err(error)) => done(error),
        _ => panic!("no error"),
    }
}

fn header(block_size: u32) -> Result<Decoded<ContainerSuperblock>, ReadError> {
    Ok(Decoded {
        data: vec![],
        checksum: Ok(()),
        parsed: Ok(superblock(9, block_size)),
    })
}

#[test]
fn opens_small_and_large_blocks() {
    let small = container(4096, 512);
    assert_eq!(small.superblock().block_size, 4096);
    assert_eq!(small.info().superblock.object.transaction_identifier, 9);
    let large = container(65536, 4096);
    assert_eq!(large.superblock().block_size, 65536);
    assert_eq!(large.into_inner(), 7);
}

#[test]
fn open_refuses_device_block_sizes() {
    for size in [0, 3, 513, 8192, 65536] {
        open_error(size, vec![], |error| {
            assert_eq!(error, ApfsError::InvalidValue("device block size"))
        });
    }
}

#[test]
fn open_errors() {
    let read = Err(ReadError::Io(ErrorKind::NotFound));
    open_error(512, vec![read], |error| {
        assert_eq!(error, ApfsError::Io(ErrorKind::NotFound))
    });
    let unparsed = Ok(Decoded {
        data: vec![],
        checksum: Err(MISMATCH),
        parsed: Err(ApfsError::InputTooSmall),
    });
    open_error(512, vec![unparsed], |error| {
        assert_eq!(error, ApfsError::InputTooSmall)
    });
    let unverified = Ok(Decoded {
        data: vec![],
        checksum: Err(MISMATCH),
        parsed: Ok(superblock(9, 4096)),
    });
    open_error(512, vec![unverified], |error| assert_eq!(error, MISMATCH));
    open_error(512, vec![header(4097)], |error| {
        assert_eq!(
            error,
            ApfsError::InvalidValue("APFS block size is not device-block aligned")
        )
    });
    open_error(512, vec![header(131072)], |error| {
        assert_eq!(error, ApfsError::InvalidValue("container block size"))
    });
    let full = Ok(Decoded {
        data: vec![],
        checksum: Err(MISMATCH),
        parsed: Ok(superblock(9, 8192)),
    });
    open_error(512, vec![header(8192), full], |error| {
        assert_eq!(error, MISMATCH)
    });
    open_error(
        512,
        vec![header(8192), Err(ReadError::OutOfBounds)],
        |error| {
            assert_eq!(
                error,
                ApfsError::InvalidValue("block is outside the device")
            )
        },
    );
    open_error(512, vec![header(8192), header(100)], |error| {
        assert_eq!(
            error,
            ApfsError::InvalidValue("APFS block size is not device-block aligned")
        )
    });
}

#[test]
fn an_unverified_probe_of_another_size_is_read_again() {
    // Only the full block has to check out.
    let probe = Ok(Decoded {
        data: vec![],
        checksum: Err(MISMATCH),
        parsed: Ok(superblock(9, 8192)),
    });
    match Container::open(7_u32, 4096) {
        OpenStep::Read { opening, .. } => match opening.resume(probe) {
            OpenStep::Read { length, opening } => {
                assert_eq!(length, 8192);
                assert!(matches!(
                    opening.resume(header(8192)),
                    OpenStep::Done(Ok(_))
                ));
            }
            OpenStep::Done(_) => panic!("no second read"),
        },
        OpenStep::Done(_) => panic!("no read"),
    }
}

#[test]
fn block_addresses() {
    let container = container(4096, 512);
    assert_eq!(container.read_apfs_block(5, 4096), Ok(40));
    assert_eq!(
        container.read_apfs_block(5, 4095),
        Err(ApfsError::InvalidValue("APFS block buffer length"))
    );
    assert_eq!(
        container.read_apfs_block(u64::MAX / 8 + 1, 4096),
        Err(ApfsError::AddressOverflow)
    );
    assert_eq!(
        container.read_apfs_block(u64::MAX / 8, 4096),
        Ok(u64::MAX - 7)
    );
}

#[test]
fn device_stays_reachable() {
    let mut container = container(4096, 512);
    *container.device_mut() += 1;
    assert_eq!(container.into_inner(), 8);
}

fn mapping(oid: u64, xid: u64, address: u64) -> (ObjectMapKey, ObjectMapValue) {
    (ObjectMapKey { oid, xid }, ObjectMapValue { address })
}

#[test]
fn cache_returns_what_was_stored() {
    let mut container = container(4096, 512);
    assert_eq!(container.cached_object_map_values(3), None);
    let values = vec![mapping(1, 2, 3), mapping(4, 5, 6)];
    container.cache_object_map_values(3, &values);
    assert_eq!(container.cached_object_map_values(3), Some(values.clone()));
    assert_eq!(container.cached_object_map_values(4), None);
    container.cache_object_map_values(4, &vec![]);
    assert_eq!(container.cached_object_map_values(3), None);
    assert_eq!(container.cached_object_map_values(4), Some(vec![]));
    container.invalidate_object_map_cache();
    assert_eq!(container.cached_object_map_values(4), None);
}

fn scan_superblocks(
    start: &ContainerSuperblock,
    disk: fn(u64) -> Result<Decoded<ContainerSuperblock>, ApfsError>,
) -> (Vec<u64>, Result<Vec<ContainerSuperblock>, ApfsError>) {
    let mut reads = vec![];
    let mut step = opened(512, || start.clone()).superblocks_sorted();
    loop {
        match step {
            Step::Read { block, state } => {
                reads.push(block);
                step = state.resume(disk(block));
            }
            Step::Done(result) => return (reads, result),
        }
    }
}

#[test]
fn scan_finds_superblocks_newest_first() {
    let (reads, found) = scan_superblocks(&superblock(1, 4096), |block| match block {
        100 => good(0x8000_0001, superblock(5, 4096)),
        101 => Err(ApfsError::Io(ErrorKind::Other)),
        102 => good(0x8000_0001, superblock(8, 512)),
        _ => good(0x8000_0001, superblock(8, 1024)),
    });
    assert_eq!(reads, [100, 101, 102, 103]);
    let found = found.unwrap();
    let order: Vec<(u64, u32)> = found
        .iter()
        .map(|found| (found.object.transaction_identifier, found.block_size))
        .collect();
    // The two newest ones keep the order of their blocks.
    assert_eq!(order, [(8, 512), (8, 1024), (5, 4096)]);
    assert_eq!(plain().latest_superblock(found).block_size, 512);
}

#[test]
fn scan_skips_what_does_not_check_out() {
    let (_, found) = scan_superblocks(&superblock(1, 4096), |block| match block {
        100 => Ok(Decoded {
            data: object(1),
            checksum: Err(MISMATCH),
            parsed: Ok(superblock(5, 4096)),
        }),
        101 => Ok(Decoded {
            data: object(1),
            checksum: Ok(()),
            parsed: Err(ApfsError::InputTooSmall),
        }),
        102 => good(0x0c, superblock(6, 4096)),
        _ => Ok(Decoded {
            data: vec![1, 0, 0],
            checksum: Ok(()),
            parsed: Ok(superblock(7, 4096)),
        }),
    });
    let found = found.unwrap();
    assert!(found.is_empty());
    let mut zero = superblock(1, 4096);
    zero.volumes = vec![1026, 1028];
    let latest = opened(512, || zero.clone()).latest_superblock(found);
    assert_eq!(latest.object.transaction_identifier, 1);
    assert_eq!(latest.volumes, [1026, 1028]);
}

#[test]
fn descriptor_areas_that_cannot_be_scanned() {
    let in_tree = Some(ApfsError::InvalidValue(
        "checkpoint descriptor area is stored as a B-tree",
    ));
    let mut start = superblock(1, 4096);
    start.checkpoint_descriptor_area_block = 1 << 63;
    assert_eq!(scan_superblocks(&start, |_| panic!()).1.err(), in_tree);
    assert_eq!(scan_maps(&start, |_| panic!()).1.err(), in_tree);
    let mut start = superblock(1, 4096);
    start.checkpoint_descriptor_area_block_count = 1 << 31;
    assert_eq!(scan_superblocks(&start, |_| panic!()).1.err(), in_tree);
    let mut start = superblock(1, 4096);
    start.checkpoint_descriptor_area_block_count = 0;
    let zero = Some(ApfsError::InvalidValue(
        "zero checkpoint descriptor area block count",
    ));
    assert_eq!(scan_superblocks(&start, |_| panic!()).1.err(), zero);
    assert_eq!(scan_maps(&start, |_| panic!()).1.err(), zero);
    start.checkpoint_descriptor_area_length = 0;
    assert!(scan_superblocks(&start, |_| panic!()).1.unwrap().is_empty());
    assert!(scan_maps(&start, |_| panic!()).1.unwrap().is_empty());
}

fn scan_maps(
    start: &ContainerSuperblock,
    disk: fn(u64) -> Result<Decoded<CheckpointMapBlock>, ApfsError>,
) -> (Vec<u64>, Result<Vec<CheckpointMapBlock>, ApfsError>) {
    let mut reads = vec![];
    let mut step = plain().checkpoint_map_blocks(start);
    loop {
        match step {
            Step::Read { block, state } => {
                reads.push(block);
                step = state.resume(disk(block));
            }
            Step::Done(result) => return (reads, result),
        }
    }
}

fn map_block(oid: u64, address: u64) -> CheckpointMapBlock {
    CheckpointMapBlock {
        mappings: vec![
            CheckpointMapping {
                container_identifier: oid,
                address,
            },
            CheckpointMapping {
                container_identifier: 60,
                address: address + 1,
            },
        ],
    }
}

#[test]
fn checkpoint_maps_go_round_the_ring() {
    let mut start = superblock(1, 4096);
    start.checkpoint_descriptor_area_length = 3;
    let (reads, maps) = scan_maps(&start, |block| match block {
        103 => good(0x4000_000c, map_block(50, 900)),
        100 => good(1, map_block(0, 0)),
        _ => good(0x0c, map_block(51, 910)),
    });
    assert_eq!(reads, [103, 100, 101]);
    let mappings = plain().checkpoint_mappings(&maps.unwrap());
    let listed: Vec<(u64, u64)> = mappings
        .iter()
        .map(|mapping| (mapping.container_identifier, mapping.address))
        .collect();
    assert_eq!(listed, [(50, 900), (60, 901), (51, 910), (60, 911)]);
    assert_eq!(
        plain()
            .find_ephemeral_object_mapping(&mappings, 60)
            .unwrap()
            .address,
        901
    );
    assert_eq!(plain().find_ephemeral_object_mapping(&mappings, 61), None);
}

#[test]
fn checkpoint_map_errors_are_fatal() {
    let start = superblock(1, 4096);
    let (_, maps) = scan_maps(&start, |_| Err(ApfsError::Io(ErrorKind::Other)));
    assert_eq!(maps.err(), Some(ApfsError::Io(ErrorKind::Other)));
    let (_, maps) = scan_maps(&start, |_| {
        Ok(Decoded {
            data: vec![0; 31],
            checksum: Ok(()),
            parsed: Ok(map_block(1, 1)),
        })
    });
    assert_eq!(maps.err(), Some(ApfsError::InputTooSmall));
    let (_, maps) = scan_maps(&start, |_| {
        Ok(Decoded {
            data: object(0x0c),
            checksum: Err(MISMATCH),
            parsed: Ok(map_block(1, 1)),
        })
    });
    assert_eq!(maps.err(), Some(MISMATCH));
    let mut overflow = superblock(1, 4096);
    overflow.checkpoint_descriptor_area_start_index = u32::MAX;
    let (reads, maps) = scan_maps(&overflow, |_| good(1, map_block(1, 1)));
    assert_eq!(reads, [100 + u64::from(u32::MAX % 4)]);
    assert_eq!(maps.err(), Some(ApfsError::AddressOverflow));
}

/// Reads an ephemeral object, and lists the blocks that were read.
fn ephemeral<T>(
    mut step: EphemeralStep<T>,
    disk: impl Fn(u64) -> Result<Decoded<T>, ApfsError>,
    mapping: Result<Option<u64>, ApfsError>,
) -> (Vec<u64>, Result<T, ApfsError>) {
    let mut reads = vec![];
    loop {
        match step {
            EphemeralStep::Read { block, state } => {
                reads.push(block);
                step = state.resume(disk(block));
            }
            EphemeralStep::FindMapping { oid, state } => {
                step = state.resume(mapping.map(|address| {
                    address.map(|address| CheckpointMapping {
                        container_identifier: oid,
                        address,
                    })
                }));
            }
            EphemeralStep::Done(result) => return (reads, result),
        }
    }
}

#[test]
fn object_map_in_place_or_mapped() {
    let start = || plain().object_map(&superblock(1, 4096));
    let map = |block| good(0x0b, ObjectMapBlock { tree_oid: block + 1 });
    let (reads, found) = ephemeral(start(), map, Err(MISMATCH));
    assert_eq!((reads, found.unwrap().tree_oid), (vec![50], 51));
    let broken = |block| match block {
        50 => Ok(Decoded {
            data: object(0x0b),
            checksum: Err(MISMATCH),
            parsed: Ok(ObjectMapBlock { tree_oid: 0 }),
        }),
        _ => map(block),
    };
    let (reads, found) = ephemeral(start(), broken, Ok(Some(77)));
    assert_eq!((reads, found.unwrap().tree_oid), (vec![50, 77], 78));
    // Without a mapping the block is read once more.
    let (reads, found) = ephemeral(start(), broken, Ok(None));
    assert_eq!((reads, found), (vec![50, 50], Err(MISMATCH)));
    let (reads, found) = ephemeral(start(), broken, Err(ApfsError::AddressOverflow));
    assert_eq!((reads, found), (vec![50], Err(ApfsError::AddressOverflow)));
}

#[test]
fn space_manager_in_place_or_mapped() {
    let start = || plain().space_manager_block_data(&superblock(1, 4096));
    let disk = |block| match block {
        77 => good(5, vec![7_u8]),
        _ => Err(ApfsError::Io(ErrorKind::Other)),
    };
    let (reads, found) = ephemeral(start(), disk, Ok(Some(77)));
    assert_eq!((reads, found), (vec![60, 77], Ok(vec![7])));
    // Without a mapping the first error counts.
    let (reads, found) = ephemeral(start(), disk, Ok(None));
    assert_eq!(
        (reads, found),
        (vec![60], Err(ApfsError::Io(ErrorKind::Other)))
    );
    let (reads, found) = ephemeral(start(), disk, Ok(Some(78)));
    assert_eq!(
        (reads, found),
        (vec![60, 78], Err(ApfsError::Io(ErrorKind::Other)))
    );
}

#[test]
fn checked_blocks() {
    assert_eq!(checked(good(1, 5)), Ok(5));
    assert_eq!(checked::<u8>(Err(MISMATCH)), Err(MISMATCH));
    assert_eq!(
        checked(Ok(Decoded {
            data: vec![1],
            checksum: Err(MISMATCH),
            parsed: Ok(5),
        })),
        Err(MISMATCH)
    );
    assert_eq!(
        checked(Ok(Decoded::<u8> {
            data: vec![1],
            checksum: Ok(()),
            parsed: Err(ApfsError::InputTooSmall),
        })),
        Err(ApfsError::InputTooSmall)
    );
}

fn leaf_entry(key: &[u8], value: &[u8]) -> OwnedEntry {
    OwnedEntry {
        key: key.to_vec(),
        value: value.to_vec(),
    }
}

#[test]
fn object_map_entries_parse() {
    let mut key = 5_u64.to_le_bytes().to_vec();
    key.extend(6_u64.to_le_bytes());
    let value = ObjectMapValue { address: 9 };
    let whole = |value| (leaf_entry(&key, &[]), value);
    let cut = |value| (leaf_entry(&key[..15], &[]), value);
    let parse = |entries| plain().object_map_values(&entries);
    assert_eq!(parse(vec![whole(Ok(value))]), Ok(vec![mapping(5, 6, 9)]));
    assert_eq!(
        parse(vec![whole(Ok(value)), cut(Err(MISMATCH))]),
        Err(ApfsError::InputTooSmall)
    );
    assert_eq!(
        parse(vec![whole(Err(MISMATCH)), cut(Ok(value))]),
        Err(MISMATCH)
    );
    assert_eq!(parse(vec![]), Ok(vec![]));
}

#[test]
fn lookups_are_bounded_by_transaction() {
    let values = vec![
        mapping(5, 10, 100),
        mapping(5, 20, 200),
        mapping(6, 15, 150),
        mapping(5, 15, 151),
        mapping(5, 15, 152),
    ];
    let address = |max| {
        plain()
            .object_map_lookup(&values, 5, max)
            .map(|value| value.address)
    };
    assert_eq!(address(9), None);
    assert_eq!(address(10), Some(100));
    assert_eq!(address(14), Some(100));
    // The last of several with one transaction identifier counts.
    assert_eq!(address(15), Some(152));
    assert_eq!(address(u64::MAX), Some(200));
    assert_eq!(plain().object_map_lookup(&values, 7, u64::MAX), None);
    assert_eq!(resolve(&values, 6, 15), Some(mapping(6, 15, 150)));
    // Later mappings do not matter.
    let mut later = values.clone();
    later.push(mapping(5, 30, 300));
    assert_eq!(
        plain().object_map_lookup(&later, 5, 15),
        plain().object_map_lookup(&values, 5, 15)
    );
}

#[test]
fn volume_objects_resolve_as_of_the_volume() {
    let values = vec![mapping(5, 10, 100), mapping(5, 20, 200)];
    let address = |volume: &VolumeSuperblock| {
        plain()
            .resolve_volume_object(volume, &values, 5)
            .map(|value| value.address)
    };
    let mut rooted = volume(0, 25);
    assert_eq!(address(&rooted), Some(200));
    // The snapshot that the volume is rooted at comes before its own state.
    rooted.root_to_xid = 15;
    assert_eq!(address(&rooted), Some(100));
    rooted.root_to_xid = 9;
    assert_eq!(address(&rooted), None);
}

#[test]
fn lookups_ignore_the_top_bits_of_a_key() {
    let values = vec![mapping(0x1000_0000_0000_0005, 1, 100)];
    assert_eq!(
        plain().object_map_lookup(&values, 5, 1),
        Some(ObjectMapValue { address: 100 })
    );
    assert_eq!(
        plain().object_map_lookup(&values, 0x1000_0000_0000_0005, 1),
        Some(ObjectMapValue { address: 100 })
    );
    assert_eq!(plain().object_map_lookup(&values, 0x2000_0000_0000_0005, 1), None);
}

#[test]
fn volumes_resolve_once_each() {
    let values = vec![
        mapping(1026, 4, 40),
        mapping(1028, 5, 50),
        mapping(1026, 7, 70),
        mapping(1026, 9, 90),
    ];
    let mut start = superblock(8, 4096);
    start.volumes = vec![1026, 1027, 1028];
    let found = plain().volume_object_map_values(&start, &values);
    assert_eq!(found, [mapping(1026, 7, 70), mapping(1028, 5, 50)]);
    match plain().volume_superblocks(&found) {
        Step::Read { block: 70, state } => {
            let volume = volume_block(volume_bytes(0, 1), Ok(()));
            match state.resume(Ok(volume)) {
                Step::Read { block: 50, state } => {
                    let volume = volume_block(volume_bytes(0, 2), Ok(()));
                    match state.resume(Ok(volume)) {
                        Step::Done(Ok(volumes)) => {
                            let xids: Vec<u64> = volumes
                                .iter()
                                .map(|volume| volume.object.transaction_identifier)
                                .collect();
                            assert_eq!(xids, [1, 2]);
                        }
                        _ => panic!("not done"),
                    }
                }
                _ => panic!("no second read"),
            }
        }
        _ => panic!("no read"),
    }
}

#[test]
fn block_lists_keep_their_order() {
    let mut reads = vec![];
    let mut step = BlockList::start(vec![9, 4, 9]);
    let items = loop {
        match step {
            Step::Read { block, state } => {
                reads.push(block);
                step = state.resume(good(1, vec![block, block + 1]));
            }
            Step::Done(result) => break result.unwrap(),
        }
    };
    assert_eq!(reads, [9, 4, 9]);
    assert_eq!(join_lists(items), [9, 10, 4, 5, 9, 10]);
    let stopped = match BlockList::<u8>::start(vec![1, 2]) {
        Step::Read { state, .. } => state.resume(Err(MISMATCH)),
        Step::Done(_) => panic!("no read"),
    };
    assert!(matches!(stopped, Step::Done(Err(ApfsError::ChecksumMismatch { .. }))));
    assert!(matches!(
        BlockList::<u8>::start(vec![]),
        Step::Done(Ok(items)) if items.is_empty()
    ));
}

#[test]
fn volume_blocks_are_parsed() {
    let block = volume_block(object(0x0d), Ok(()));
    assert_eq!(block.data, object(0x0d));
    assert_eq!(
        block.parsed,
        Err(ApfsError::InvalidMagic {
            expected: *b"APSB",
            actual: [0; 4]
        })
    );
    assert_eq!(volume_block(vec![], Err(MISMATCH)).checksum, Err(MISMATCH));
}

fn leaf(names: &[u8]) -> OwnedBTreeNode {
    OwnedBTreeNode {
        tree_info: Ok(()),
        is_leaf: Ok(true),
        entries: Ok(names.iter().map(|name| leaf_entry(&[*name], &[])).collect()),
    }
}

fn inner(children: &[u64]) -> OwnedBTreeNode {
    OwnedBTreeNode {
        tree_info: Ok(()),
        is_leaf: Ok(false),
        entries: Ok(children
            .iter()
            .map(|child| leaf_entry(&[], &child.to_le_bytes()))
            .collect()),
    }
}

fn walk(
    addressing: Addressing,
    root: u64,
    disk: fn(u64) -> OwnedBTreeNode,
) -> (Vec<u64>, Result<Vec<u8>, ApfsError>) {
    let mut reads = vec![root];
    let tree = TreeRoot {
        block: root,
        addressing,
    };
    let mut step = tree.resume(good(2, disk(root)));
    loop {
        match step {
            Step::Read { block, state } => {
                reads.push(block);
                step = state.resume(good(2, disk(block)));
            }
            Step::Done(result) => {
                let names = result.map(|leaves| leaves.iter().map(|leaf| leaf.key[0]).collect());
                return (reads, names);
            }
        }
    }
}

fn tree(block: u64) -> OwnedBTreeNode {
    match block {
        1 => inner(&[2, 3, 4]),
        2 => inner(&[5, 6]),
        3 => leaf(b"cd"),
        4 => inner(&[7]),
        5 => leaf(b"a"),
        6 => leaf(b"b"),
        _ => leaf(b"e"),
    }
}

#[test]
fn physical_walk_collects_leaves_in_order() {
    let root = plain().btree_leaf_entries(1);
    assert_eq!(root.block, 1);
    let (reads, names) = walk(root.addressing, 1, tree);
    assert_eq!(names.unwrap(), b"abcde");
    // The children of a node are read from the last to the first.
    assert_eq!(reads, [1, 4, 3, 2, 6, 5, 7]);
    assert_eq!(walk(Addressing::Physical, 3, tree).1.unwrap(), b"cd");
}

#[test]
fn virtual_walk_resolves_children() {
    let values: Vec<(ObjectMapKey, ObjectMapValue)> =
        (1..8_u64).map(|block| mapping(block, 5, block)).collect();
    let mut shifted = values.clone();
    shifted.push(mapping(3, 6, 5));
    let root = |oid, values, max| plain().virtual_btree_leaf_entries(oid, values, max);
    let old = root(1, shifted.clone(), 5).unwrap();
    assert_eq!(old.block, 1);
    assert_eq!(walk(old.addressing, 1, tree).1.unwrap(), b"abcde");
    // A newer mapping of one child replaces it.
    let new = root(1, shifted, 6).unwrap();
    assert_eq!(walk(new.addressing, 1, tree).1.unwrap(), b"abae");
    assert_eq!(root(4, values.clone(), 5).unwrap().block, 4);
    assert_eq!(
        root(4, values, 4).err(),
        Some(ApfsError::InvalidValue(
            "virtual B-tree root object not found"
        ))
    );
}

#[test]
fn missing_children_fail_or_are_left_out() {
    let values = vec![mapping(2, 1, 3), mapping(4, 1, 7)];
    let addressing = |missing| Addressing::Virtual {
        values: values.clone(),
        max_transaction_id: 1,
        missing,
    };
    assert_eq!(
        walk(addressing(MissingChild::Fail), 1, tree).1,
        Err(ApfsError::InvalidValue(
            "virtual B-tree child object not found"
        ))
    );
    assert_eq!(
        walk(addressing(MissingChild::Skip), 1, tree).1.unwrap(),
        b"cde"
    );
}

#[test]
fn walk_errors() {
    let root = || plain().btree_leaf_entries(1);
    let start = |node| match root().resume(good(2, node)) {
        Step::Done(result) => result.err(),
        Step::Read { .. } => panic!("a read"),
    };
    let mut node = leaf(b"a");
    node.tree_info = Err(ApfsError::NotBTreeRoot {
        object_identifier: 1,
        transaction_identifier: 2,
        object_type: 3,
        flags: 4,
    });
    assert!(matches!(
        start(node),
        Some(ApfsError::NotBTreeRoot { flags: 4, .. })
    ));
    let mut node = leaf(b"a");
    node.is_leaf = Err(MISMATCH);
    node.entries = Err(ApfsError::InputTooSmall);
    assert_eq!(start(node), Some(MISMATCH));
    let mut node = leaf(b"a");
    node.entries = Err(ApfsError::InputTooSmall);
    assert_eq!(start(node), Some(ApfsError::InputTooSmall));
    let mut node = inner(&[]);
    node.entries = Ok(vec![leaf_entry(&[], &[1; 7])]);
    assert_eq!(start(node), Some(ApfsError::InputTooSmall));
    match root().resume(good(2, inner(&[3]))) {
        Step::Read { block: 3, state } => assert!(matches!(
            state.resume(Err(ApfsError::AddressOverflow)),
            Step::Done(Err(ApfsError::AddressOverflow))
        )),
        _ => panic!("no read"),
    }
    assert!(matches!(
        root().resume(Err(MISMATCH)),
        Step::Done(Err(ApfsError::ChecksumMismatch { .. }))
    ));
}

fn volume(snapshot_tree: u64, xid: u64) -> VolumeSuperblock {
    VolumeSuperblock::parse(&volume_bytes(snapshot_tree, xid)).unwrap()
}

fn volume_bytes(snapshot_tree: u64, xid: u64) -> Vec<u8> {
    let mut data = vec![0_u8; 976];
    data[16..24].copy_from_slice(&xid.to_le_bytes());
    data[24] = 0x0d;
    data[32..36].copy_from_slice(b"APSB");
    data[152..160].copy_from_slice(&snapshot_tree.to_le_bytes());
    data
}

#[test]
fn snapshot_trees() {
    let values = vec![mapping(8, 5, 80), mapping(8, 9, 90)];
    let root = |volume: VolumeSuperblock| {
        plain()
            .volume_snapshots(&volume, values.clone())
            .map(|root| root.block)
    };
    assert!(!may_have_snapshots(&volume(0, 7)));
    assert_eq!(root(volume(0, 7)), None);
    assert!(may_have_snapshots(&volume(8, 7)));
    assert_eq!(root(volume(8, 7)), Some(80));
    assert_eq!(root(volume(8, 4)), None);
    // Children that are missing or too new are left out.
    let few = vec![mapping(8, 1, 1), mapping(2, 1, 3), mapping(4, 9, 7)];
    let root = plain().volume_snapshots(&volume(8, 7), few).unwrap();
    let (_, names) = walk(root.addressing, root.block, tree);
    assert_eq!(names.unwrap(), b"cd");
}

#[test]
fn names_are_found_in_order() {
    let entry = |name: &str, file_id| OwnedDirectoryEntryRecord {
        name: name.to_string(),
        file_id,
    };
    let entries = || vec![entry("a", 1), entry("b", 2), entry("b", 3), entry("c", 4)];
    let find = |name| plain().directory_owned_entry(entries(), name);
    assert_eq!(find("b").unwrap().file_id, 2);
    assert!(find("B").is_none());
    let snapshots = vec![SnapshotMetadataRecord {
        name: "daily".to_string(),
        transaction_id: 12,
    }];
    let found = plain().find_volume_snapshot(snapshots, "daily");
    assert_eq!(found.unwrap().transaction_id, 12);
    assert!(plain().find_volume_snapshot(vec![], "daily").is_none());
}

#[test]
fn path_names() {
    assert_eq!(path_components("Users/me/notes.txt"), ["Users", "me", "notes.txt"]);
    assert_eq!(path_components("//Users///me/"), ["Users", "me"]);
    assert_eq!(path_components("\u{e9}t\u{e9}/\u{1f600}"), ["\u{e9}t\u{e9}", "\u{1f600}"]);
    assert!(path_components("").is_empty());
    assert!(path_components("///").is_empty());
}

fn resolve_path(path: &str) -> Result<Option<u64>, ApfsError> {
    let mut step = plain().resolve_path(path);
    loop {
        match step {
            PathStep::Find {
                directory,
                name,
                walk,
            } => {
                let file_id = match (directory, name.as_str()) {
                    (INODE_ROOT_DIRECTORY, "Users") => Some(20),
                    (20, "me") => Some(30),
                    (30, "notes.txt") => Some(40),
                    (20, "broken") => {
                        step = walk.resume(Err(MISMATCH));
                        continue;
                    }
                    _ => None,
                };
                step = walk.resume(Ok(file_id.map(|file_id| OwnedDirectoryEntryRecord {
                    name,
                    file_id,
                })));
            }
            PathStep::Done(result) => return result.map(|found| found.map(|entry| entry.file_id)),
        }
    }
}

#[test]
fn paths_descend_from_the_root() {
    assert_eq!(resolve_path("/Users/me/notes.txt"), Ok(Some(40)));
    assert_eq!(resolve_path("Users//me/"), Ok(Some(30)));
    assert_eq!(resolve_path("me"), Ok(None));
    assert_eq!(resolve_path("Users/you/notes.txt"), Ok(None));
    assert_eq!(resolve_path("/"), Ok(None));
    assert_eq!(resolve_path("Users/broken/x"), Err(MISMATCH));
}

fn inode(data_stream_size: Option<u64>, uncompressed_size: u64) -> InodeRecord {
    InodeRecord {
        private_id: 70,
        data_stream_size,
        uncompressed_size,
    }
}

#[test]
fn inode_records() {
    let key = |id, record_type| Ok(FileSystemKey { id, record_type });
    let wanted = inode(Some(3), 0);
    let entries = vec![
        (Err(MISMATCH), Ok(inode(None, 1))),
        (key(5, 8), Ok(inode(None, 2))),
        (key(4, FS_TYPE_INODE), Ok(inode(None, 3))),
        (key(5, FS_TYPE_INODE), Err(ApfsError::InputTooSmall)),
        (key(5, FS_TYPE_INODE), Ok(wanted)),
        (key(5, FS_TYPE_INODE), Ok(inode(None, 4))),
    ];
    assert_eq!(plain().inode_record(&entries, 5), Some(wanted));
    assert_eq!(plain().inode_record(&entries, 6), None);
    assert_eq!(required_inode(Some(wanted)), Ok(wanted));
    assert_eq!(
        required_inode(None),
        Err(ApfsError::InvalidValue("inode record not found"))
    );
}

fn extent(logical_address: u64, length: u64, physical_block: u64) -> FileExtentRecord {
    FileExtentRecord {
        id: 70,
        logical_address,
        length,
        physical_block,
    }
}

#[test]
fn extents_are_filtered_and_sorted() {
    let mut other = extent(1, 1, 1);
    other.id = 71;
    let entries = vec![
        Ok(extent(16, 4, 1)),
        Err(MISMATCH),
        Ok(other),
        Ok(extent(0, 4, 2)),
        Ok(extent(16, 8, 3)),
    ];
    let found = plain().file_extents(&entries, 70);
    assert_eq!(found, [extent(0, 4, 2), extent(16, 4, 1), extent(16, 8, 3)]);
    assert_eq!(extents_end(&found), 24);
    assert_eq!(extents_end(&vec![]), 0);
    assert_eq!(extents_end(&vec![extent(u64::MAX, 2, 1)]), u64::MAX);
}

#[test]
fn sorting_is_stable() {
    let items = vec![extent(2, 0, 1), extent(1, 0, 2), extent(2, 0, 3), extent(1, 0, 4)];
    let order: Vec<u64> = stable_sort(items)
        .iter()
        .map(|extent| extent.physical_block)
        .collect();
    assert_eq!(order, [2, 4, 1, 3]);
}

#[test]
fn file_sizes() {
    assert!(matches!(
        plain().file_size(&inode(Some(0), 5)),
        FileSizeStep::Known(0)
    ));
    assert!(matches!(
        plain().file_size(&inode(Some(9), 5)),
        FileSizeStep::Known(9)
    ));
    assert!(matches!(
        plain().file_size(&inode(None, 5)),
        FileSizeStep::Known(5)
    ));
    assert!(matches!(
        plain().file_size(&inode(None, 0)),
        FileSizeStep::Extents { private_id: 70 }
    ));
}

/// Reads a file on a disk of four-byte blocks whose bytes are all the number
/// of their block.
fn read(
    inode: InodeRecord,
    extents: Vec<FileExtentRecord>,
    max: usize,
) -> (Vec<u64>, Result<Vec<u8>, ApfsError>) {
    let mut reads = vec![];
    let mut step = plain().read_file(&inode, extents, max);
    loop {
        match step {
            Step::Read { block, state } => {
                reads.push(block);
                step = state.resume(Ok(vec![block as u8; 4]));
            }
            Step::Done(result) => return (reads, result),
        }
    }
}

#[test]
fn holes_are_zero_and_extents_lie_at_their_addresses() {
    let extents = vec![extent(2, 6, 10), extent(12, 4, 20)];
    let (reads, output) = read(inode(None, 0), extents, 100);
    assert_eq!(reads, [10, 11, 20]);
    assert_eq!(
        output.unwrap(),
        [0, 0, 10, 10, 10, 10, 11, 11, 0, 0, 0, 0, 20, 20, 20, 20]
    );
}

#[test]
fn recorded_sizes_bound_a_read() {
    let extents = || vec![extent(0, 12, 10)];
    let (reads, output) = read(inode(Some(5), 0), extents(), 100);
    assert_eq!(reads, [10, 11]);
    assert_eq!(output.unwrap(), [10, 10, 10, 10, 11]);
    let (_, output) = read(inode(None, 14), extents(), 100);
    assert_eq!(output.unwrap().len(), 14);
    let (reads, output) = read(inode(Some(5), 0), extents(), 3);
    assert_eq!(reads, [10]);
    assert_eq!(output.unwrap(), [10, 10, 10]);
    // A recorded data stream of size 0 is taken for none.
    let (_, output) = read(inode(Some(0), 0), extents(), 100);
    assert_eq!(output.unwrap().len(), 12);
    let (reads, output) = read(inode(Some(5), 0), extents(), 0);
    assert!(reads.is_empty());
    assert!(output.unwrap().is_empty());
}

#[test]
fn smaller_reads_are_prefixes() {
    let extents = || vec![extent(2, 6, 10), extent(12, 4, 20)];
    let whole = read(inode(None, 14), extents(), 100).1.unwrap();
    assert_eq!(whole.len(), 14);
    for max in 0..20 {
        let part = read(inode(None, 14), extents(), max).1.unwrap();
        assert_eq!(part, whole[..max.min(14)]);
    }
}

#[test]
fn blocks_past_the_limit_need_not_be_readable() {
    let run = |max| {
        let mut step = plain().read_file(&inode(Some(0), 12), vec![extent(0, 12, 10)], max);
        loop {
            match step {
                Step::Read { block: 12, state } => step = state.resume(Err(MISMATCH)),
                Step::Read { block, state } => step = state.resume(Ok(vec![block as u8; 4])),
                Step::Done(result) => return result,
            }
        }
    };
    assert_eq!(run(6), Ok(vec![10, 10, 10, 10, 11, 11]));
    assert_eq!(run(8), Ok(vec![10, 10, 10, 10, 11, 11, 11, 11]));
    assert_eq!(run(9), Err(MISMATCH));
}

#[test]
fn later_extents_win_and_far_ones_are_passed_over() {
    let extents = vec![extent(0, 8, 10), extent(2, 3, 30), extent(50, 4, 40)];
    let (reads, output) = read(inode(Some(8), 0), extents, 100);
    assert_eq!(reads, [10, 11, 30]);
    assert_eq!(output.unwrap(), [10, 10, 30, 30, 30, 11, 11, 11]);
}

#[test]
fn read_failures() {
    let (_, output) = read(inode(None, 0), vec![extent(0, 4, u64::MAX)], 100);
    assert_eq!(output, Err(ApfsError::AddressOverflow));
    match plain().read_file(&inode(None, 0), vec![extent(0, 4, 5)], 100) {
        Step::Read { block: 5, state } => assert!(matches!(
            state.resume(Err(MISMATCH)),
            Step::Done(Err(ApfsError::ChecksumMismatch { .. }))
        )),
        _ => panic!("no read"),
    }
}
