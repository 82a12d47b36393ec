//! Scanning the checkpoint descriptor area.

use crate::error::ApfsError;
use crate::reader::block::{checked, Decoded, Step};
use crate::reader::container::Container;
use crate::reader::sorting::{stable_sort, Ranked};
use crate::types::container::{CheckpointMapBlock, CheckpointMapping, ContainerSuperblock};
use crate::types::object::{ObjectHeader, ObjectType, OBJECT_HEADER_SIZE};
use vstd::prelude::*;

verus! {

/// What keeps the descriptor area of `superblock` from being scanned.
pub open spec fn area_error(superblock: ContainerSuperblock) -> Option<ApfsError> {
    if superblock.checkpoint_descriptor_area_block >= 0x8000_0000_0000_0000
        || superblock.checkpoint_descriptor_area_block_count >= 0x8000_0000 {
        Some(ApfsError::InvalidValue("checkpoint descriptor area is stored as a B-tree"))
    } else if superblock.checkpoint_descriptor_area_block_count == 0
        && superblock.checkpoint_descriptor_area_length != 0 {
        Some(ApfsError::InvalidValue("zero checkpoint descriptor area block count"))
    } else {
        None
    }
}

/// Refuses a superblock whose descriptor area cannot be scanned. The highest
/// bit of its address or of its block count marks an area that is kept in a
/// B-tree.
fn check_area(superblock: &ContainerSuperblock) -> (r: Result<(), ApfsError>)
    ensures
        match area_error(*superblock) {
            Some(error) => r == Err::<(), ApfsError>(error),
            None => r == Ok::<(), ApfsError>(()),
        },
{
    if superblock.checkpoint_descriptor_area_block >= 0x8000_0000_0000_0000
        || superblock.checkpoint_descriptor_area_block_count >= 0x8000_0000 {
        return Err(ApfsError::InvalidValue("checkpoint descriptor area is stored as a B-tree"));
    }
    if superblock.checkpoint_descriptor_area_block_count == 0
        && superblock.checkpoint_descriptor_area_length != 0 {
        return Err(ApfsError::InvalidValue("zero checkpoint descriptor area block count"));
    }
    Ok(())
}

/// Superblocks are sorted newest first.
impl Ranked for ContainerSuperblock {
    open spec fn spec_rank(&self) -> u64 {
        (u64::MAX - self.object.transaction_identifier) as u64
    }

    fn rank(&self) -> (rank: u64) {
        u64::MAX - self.object.transaction_identifier
    }
}

/// A scan of the checkpoint descriptor area for container superblocks.
pub struct SuperblockScan {
    base: u64,
    count: u32,
    next: u32,
    found: Vec<ContainerSuperblock>,
}

/// What a [`SuperblockScan`] holds.
#[verifier::ext_equal]
pub struct SuperblockScanView {
    /// First block of the area.
    pub base: u64,
    /// Number of blocks in the area.
    pub count: u32,
    /// Number of blocks that were looked at.
    pub next: int,
    /// The superblocks that were found in them.
    pub found: Seq<ContainerSuperblock>,
}

impl View for SuperblockScan {
    type V = SuperblockScanView;

    closed spec fn view(&self) -> SuperblockScanView {
        SuperblockScanView {
            base: self.base,
            count: self.count,
            next: self.next as int,
            found: self.found@,
        }
    }
}

/// What a scan does next.
pub open spec fn superblock_scan_step(scan: SuperblockScanView) -> crate::reader::block::StepView<
    SuperblockScanView,
    Seq<ContainerSuperblock>,
> {
    if scan.next >= scan.count {
        crate::reader::block::StepView::Done(
            Ok(crate::reader::sorting::stable_sorted(scan.found)),
        )
    } else if scan.base + scan.next > u64::MAX {
        crate::reader::block::StepView::Done(Err(ApfsError::AddressOverflow))
    } else {
        crate::reader::block::StepView::Read {
            block: (scan.base + scan.next) as u64,
            state: scan,
        }
    }
}

/// How a scan of the descriptor area of `superblock` starts.
pub open spec fn superblock_scan_start(
    superblock: ContainerSuperblock,
) -> crate::reader::block::StepView<SuperblockScanView, Seq<ContainerSuperblock>> {
    match area_error(superblock) {
        Some(error) => crate::reader::block::StepView::Done(Err(error)),
        None => superblock_scan_step(
            SuperblockScanView {
                base: superblock.checkpoint_descriptor_area_block,
                count: superblock.checkpoint_descriptor_area_block_count,
                next: 0,
                found: Seq::empty(),
            },
        ),
    }
}

/// Whether `data` starts with the header of an object of this type.
pub open spec fn has_object_type(data: Seq<u8>, object_type: ObjectType) -> bool {
    &&& data.len() >= OBJECT_HEADER_SIZE
    &&& crate::types::object::object_header(data).spec_kind() == object_type.spec_raw()
}

/// The superblock in a block of the descriptor area. A block that cannot be
/// read, that is of another type or that does not check out holds none.
pub open spec fn superblock_in(
    reply: Result<Decoded<ContainerSuperblock>, ApfsError>,
) -> Option<ContainerSuperblock> {
    match reply {
        Err(_) => None,
        Ok(block) => if has_object_type(block.data@, ObjectType::ContainerSuperblock)
            && block.checksum is Ok {
            match block.parsed {
                Ok(superblock) => Some(superblock),
                Err(_) => None,
            }
        } else {
            None
        },
    }
}

/// What a scan does when it is handed what was read.
pub open spec fn superblock_scan_resume(
    scan: SuperblockScanView,
    reply: Result<Decoded<ContainerSuperblock>, ApfsError>,
) -> crate::reader::block::StepView<SuperblockScanView, Seq<ContainerSuperblock>> {
    superblock_scan_step(
        SuperblockScanView {
            next: scan.next + 1,
            found: match superblock_in(reply) {
                Some(superblock) => scan.found.push(superblock),
                None => scan.found,
            },
            ..scan
        },
    )
}

impl SuperblockScan {
    /// Whether the scan waits for a block.
    pub open spec fn wf(&self) -> bool {
        self@.next < self@.count
    }

    fn step(self) -> (step: Step<SuperblockScan, Vec<ContainerSuperblock>>)
        requires
            self@.next <= self@.count,
        ensures
            step@ == superblock_scan_step(self@),
            step matches Step::Read { state, .. } ==> state.wf(),
    {
        if self.next >= self.count {
            return Step::Done(Ok(stable_sort(self.found)));
        }
        match self.base.checked_add(self.next as u64) {
            None => Step::Done(Err(ApfsError::AddressOverflow)),
            Some(block) => Step::Read { block, state: self },
        }
    }

    /// Goes on with what was read.
    pub fn resume(self, reply: Result<Decoded<ContainerSuperblock>, ApfsError>) -> (step: Step<
        SuperblockScan,
        Vec<ContainerSuperblock>,
    >)
        requires
            self.wf(),
        ensures
            step@ == superblock_scan_resume(self@, reply),
            step matches Step::Read { state, .. } ==> state.wf(),
    {
        let mut scan = self;
        scan.next = scan.next + 1;
        if let Ok(block) = reply {
            if let Ok(object) = ObjectHeader::parse(block.data.as_slice()) {
                if object.kind() == ObjectType::ContainerSuperblock.raw() {
                    if let Ok(_) = block.checksum {
                        if let Ok(superblock) = block.parsed {
                            scan.found.push(superblock);
                        }
                    }
                }
            }
        }
        scan.step()
    }
}

impl<D> Container<D> {
    /// Scans the checkpoint descriptor area for container superblocks, newest
    /// first.
    ///
    /// The block-zero superblock's own
    /// `checkpoint_descriptor_area_start_index` and
    /// `checkpoint_descriptor_area_length` describe the checkpoint that was
    /// active when block zero was last written, which for a container that
    /// wasn't cleanly unmounted (e.g. a live, mounted volume) is stale: macOS
    /// only rewrites block zero on clean unmount. Using that stale window to
    /// bound the ring scan can miss the current checkpoint entirely and fall
    /// back to a block-zero superblock whose `object_map_oid` and other object
    /// identifiers point at blocks a later transaction has since freed and
    /// reused, producing spurious "invalid object type" errors downstream.
    /// Instead, every block in the descriptor ring
    /// (`0..checkpoint_descriptor_area_block_count`) is scanned for valid,
    /// checksummed superblocks. Blocks in the ring that aren't currently in
    /// use hold stale data from a previous checkpoint, so parse/checksum
    /// failures there are expected and simply skipped rather than treated as
    /// fatal.
    pub fn superblocks_sorted(&self) -> (step: Step<SuperblockScan, Vec<ContainerSuperblock>>)
        ensures
            step@ == superblock_scan_start(self.spec_info().superblock),
            step matches Step::Read { state, .. } ==> state.wf(),
    {
        let superblock = self.superblock();
        if let Err(error) = check_area(superblock) {
            return Step::Done(Err(error));
        }
        SuperblockScan {
            base: superblock.checkpoint_descriptor_area_block,
            count: superblock.checkpoint_descriptor_area_block_count,
            next: 0,
            found: Vec::new(),
        }.step()
    }

    /// Returns the newest checkpoint superblock, falling back to block zero
    /// when no checkpoint is present.
    pub fn latest_superblock(&self, sorted: Vec<ContainerSuperblock>) -> (latest:
        ContainerSuperblock)
        ensures
            sorted@.len() > 0 ==> latest@ == sorted@[0]@,
            sorted@.len() == 0 ==> latest@ == self.spec_info().superblock@,
    {
        if sorted.len() > 0 {
            sorted[0].clone()
        } else {
            self.superblock().clone()
        }
    }
}

/// [`superblock_scan_resume`] as a value.
pub open spec fn superblock_scan_resumption() -> spec_fn(
    SuperblockScanView,
    Result<Decoded<ContainerSuperblock>, ApfsError>,
) -> crate::reader::block::StepView<SuperblockScanView, Seq<ContainerSuperblock>> {
    |scan: SuperblockScanView, reply: Result<Decoded<ContainerSuperblock>, ApfsError>|
        superblock_scan_resume(scan, reply)
}

/// The blocks of a descriptor area.
pub open spec fn area_blocks(superblock: ContainerSuperblock) -> Seq<u64> {
    Seq::new(
        superblock.checkpoint_descriptor_area_block_count as nat,
        |i: int| (superblock.checkpoint_descriptor_area_block + i) as u64,
    )
}

/// The superblock in each block of a disk.
pub open spec fn superblock_on(
    disk: spec_fn(u64) -> Result<Decoded<ContainerSuperblock>, ApfsError>,
) -> spec_fn(u64) -> Option<ContainerSuperblock> {
    |block: u64| superblock_in(disk(block))
}

/// How a scan ends from its middle.
proof fn lemma_superblock_scan(
    superblock: ContainerSuperblock,
    disk: spec_fn(u64) -> Result<Decoded<ContainerSuperblock>, ApfsError>,
    next: int,
)
    requires
        area_error(superblock) is None,
        0 <= next <= superblock.checkpoint_descriptor_area_block_count,
    ensures
        crate::reader::block::run(
            superblock_scan_step(
                SuperblockScanView {
                    base: superblock.checkpoint_descriptor_area_block,
                    count: superblock.checkpoint_descriptor_area_block_count,
                    next,
                    found: area_blocks(superblock).take(next).filter_map(superblock_on(disk)),
                },
            ),
            superblock_scan_resumption(),
            disk,
            (superblock.checkpoint_descriptor_area_block_count - next) as nat,
        ) == crate::reader::block::StepView::<SuperblockScanView, _>::Done(
            Ok(
                crate::reader::sorting::stable_sorted(
                    area_blocks(superblock).filter_map(superblock_on(disk)),
                ),
            ),
        ),
    decreases superblock.checkpoint_descriptor_area_block_count - next,
{
    let blocks = area_blocks(superblock);
    if next == superblock.checkpoint_descriptor_area_block_count {
        assert(blocks.take(next) =~= blocks);
    } else {
        lemma_superblock_scan(superblock, disk, next + 1);
        let found = blocks.take(next).filter_map(superblock_on(disk));
        let reply = disk(blocks[next]);
        blocks.lemma_filter_map_take_succ(superblock_on(disk), next);
        assert((match superblock_in(reply) {
            Some(superblock) => found.push(superblock),
            None => found,
        }) =~= blocks.take(next + 1).filter_map(superblock_on(disk)));
    }
}

/// On a disk that does not change, a scan finds every superblock in the
/// descriptor area that is intact, and the blocks that hold none make no
/// difference. The result is sorted newest first.
pub proof fn law_superblock_scan_finds_all(
    superblock: ContainerSuperblock,
    disk: spec_fn(u64) -> Result<Decoded<ContainerSuperblock>, ApfsError>,
)
    requires
        area_error(superblock) is None,
    ensures
        crate::reader::block::run(
            superblock_scan_start(superblock),
            superblock_scan_resumption(),
            disk,
            superblock.checkpoint_descriptor_area_block_count as nat,
        ) == crate::reader::block::StepView::<SuperblockScanView, _>::Done(
            Ok(
                crate::reader::sorting::stable_sorted(
                    area_blocks(superblock).filter_map(superblock_on(disk)),
                ),
            ),
        ),
{
    lemma_superblock_scan(superblock, disk, 0);
    let none = area_blocks(superblock).take(0);
    assert(none.filter_map(superblock_on(disk)) =~= Seq::empty());
}

/// The first of the sorted superblocks has the highest transaction identifier
/// of all that were found.
pub proof fn law_newest_superblock_comes_first(found: Seq<ContainerSuperblock>, i: int)
    requires
        0 <= i < found.len(),
    ensures
        crate::reader::sorting::stable_sorted(found).len() == found.len(),
        crate::reader::sorting::stable_sorted(found)[0].object.transaction_identifier
            >= found[i].object.transaction_identifier,
{
    let sorted = crate::reader::sorting::stable_sorted(found);
    let rank = found[i].spec_rank();
    let keep = |item: ContainerSuperblock| item.spec_rank() == rank;
    crate::reader::sorting::law_sorted_ascends(found);
    crate::reader::sorting::law_sorting_keeps_equal_ranks_in_order(found, rank);
    found.lemma_filter_contains(keep, i);
    sorted.lemma_filter_contains_rev(keep, found[i]);
    let j = sorted.index_of(found[i]);
    assert(sorted[0].spec_rank() <= sorted[j].spec_rank());
}

/// A scan of the blocks of one checkpoint for checkpoint maps.
pub struct CheckpointMapScan {
    base: u64,
    count: u32,
    start_index: u32,
    length: u32,
    next: u32,
    maps: Vec<CheckpointMapBlock>,
}

/// What a [`CheckpointMapScan`] holds.
#[verifier::ext_equal]
pub struct CheckpointMapScanView {
    /// First block of the descriptor area.
    pub base: u64,
    /// Number of blocks in the descriptor area.
    pub count: u32,
    /// Index of the checkpoint's first block in the area.
    pub start_index: u32,
    /// Number of blocks of the checkpoint.
    pub length: u32,
    /// Number of blocks that were looked at.
    pub next: int,
    /// The maps that were found in them.
    pub maps: Seq<CheckpointMapBlock>,
}

impl View for CheckpointMapScan {
    type V = CheckpointMapScanView;

    closed spec fn view(&self) -> CheckpointMapScanView {
        CheckpointMapScanView {
            base: self.base,
            count: self.count,
            start_index: self.start_index,
            length: self.length,
            next: self.next as int,
            maps: self.maps@,
        }
    }
}

/// What a scan does next. The area is a ring: past its last block comes its
/// first.
pub open spec fn map_scan_step(scan: CheckpointMapScanView) -> crate::reader::block::StepView<
    CheckpointMapScanView,
    Seq<CheckpointMapBlock>,
> {
    if scan.next >= scan.length {
        crate::reader::block::StepView::Done(Ok(scan.maps))
    } else if scan.start_index + scan.next > u32::MAX || scan.base + (scan.start_index + scan.next)
        % (scan.count as int) > u64::MAX {
        crate::reader::block::StepView::Done(Err(ApfsError::AddressOverflow))
    } else {
        crate::reader::block::StepView::Read {
            block: (scan.base + (scan.start_index + scan.next) % (scan.count as int)) as u64,
            state: scan,
        }
    }
}

/// How a scan for the checkpoint maps of `superblock` starts.
pub open spec fn map_scan_start(
    superblock: ContainerSuperblock,
) -> crate::reader::block::StepView<CheckpointMapScanView, Seq<CheckpointMapBlock>> {
    match area_error(superblock) {
        Some(error) => crate::reader::block::StepView::Done(Err(error)),
        None => map_scan_step(
            CheckpointMapScanView {
                base: superblock.checkpoint_descriptor_area_block,
                count: superblock.checkpoint_descriptor_area_block_count,
                start_index: superblock.checkpoint_descriptor_area_start_index,
                length: superblock.checkpoint_descriptor_area_length,
                next: 0,
                maps: Seq::empty(),
            },
        ),
    }
}

/// The map in a block of a checkpoint, if the block is one. A block that
/// cannot be read or a map that does not check out is an error.
pub open spec fn map_in(
    reply: Result<Decoded<CheckpointMapBlock>, ApfsError>,
) -> Result<Option<CheckpointMapBlock>, ApfsError> {
    match reply {
        Err(error) => Err(error),
        Ok(block) => if block.data@.len() < OBJECT_HEADER_SIZE {
            Err(ApfsError::InputTooSmall)
        } else if has_object_type(block.data@, ObjectType::CheckpointMap) {
            match crate::reader::block::checked_outcome(reply) {
                Err(error) => Err(error),
                Ok(map) => Ok(Some(map)),
            }
        } else {
            Ok(None)
        },
    }
}

/// What a scan does when it is handed what was read.
pub open spec fn map_scan_resume(
    scan: CheckpointMapScanView,
    reply: Result<Decoded<CheckpointMapBlock>, ApfsError>,
) -> crate::reader::block::StepView<CheckpointMapScanView, Seq<CheckpointMapBlock>> {
    match map_in(reply) {
        Err(error) => crate::reader::block::StepView::Done(Err(error)),
        Ok(found) => map_scan_step(
            CheckpointMapScanView {
                next: scan.next + 1,
                maps: match found {
                    Some(map) => scan.maps.push(map),
                    None => scan.maps,
                },
                ..scan
            },
        ),
    }
}

impl CheckpointMapScan {
    /// Whether the scan waits for a block.
    pub open spec fn wf(&self) -> bool {
        self@.next < self@.length && self@.count > 0
    }

    fn step(self) -> (step: Step<CheckpointMapScan, Vec<CheckpointMapBlock>>)
        requires
            self@.next <= self@.length,
            self@.length > 0 ==> self@.count > 0,
        ensures
            step@ == map_scan_step(self@),
            step matches Step::Read { state, .. } ==> state.wf(),
    {
        if self.next >= self.length {
            return Step::Done(Ok(self.maps));
        }
        let index: u32 = match self.start_index.checked_add(self.next) {
            None => return Step::Done(Err(ApfsError::AddressOverflow)),
            Some(index) => index % self.count,
        };
        match self.base.checked_add(index as u64) {
            None => Step::Done(Err(ApfsError::AddressOverflow)),
            Some(block) => Step::Read { block, state: self },
        }
    }

    /// Goes on with what was read.
    pub fn resume(self, reply: Result<Decoded<CheckpointMapBlock>, ApfsError>) -> (step: Step<
        CheckpointMapScan,
        Vec<CheckpointMapBlock>,
    >)
        requires
            self.wf(),
        ensures
            step@ == map_scan_resume(self@, reply),
            step matches Step::Read { state, .. } ==> state.wf(),
    {
        let mut scan = self;
        scan.next = scan.next + 1;
        let block = match reply {
            Err(error) => return Step::Done(Err(error)),
            Ok(block) => block,
        };
        let object = match ObjectHeader::parse(block.data.as_slice()) {
            Err(error) => return Step::Done(Err(error)),
            Ok(object) => object,
        };
        if object.kind() == ObjectType::CheckpointMap.raw() {
            match checked(Ok(block)) {
                Err(error) => return Step::Done(Err(error)),
                Ok(map) => scan.maps.push(map),
            }
        }
        scan.step()
    }
}

/// The mappings of several checkpoint maps, one map after the other.
pub open spec fn flattened_mappings(maps: Seq<CheckpointMapBlock>) -> Seq<CheckpointMapping>
    decreases maps.len(),
{
    if maps.len() == 0 {
        Seq::empty()
    } else {
        flattened_mappings(maps.drop_last()) + maps.last().mappings@
    }
}

/// The first mapping of the ephemeral object `oid`.
pub open spec fn mapping_of(mappings: Seq<CheckpointMapping>, oid: u64) -> Option<
    CheckpointMapping,
> {
    crate::search::first_where(
        mappings,
        |mapping: CheckpointMapping| mapping.container_identifier == oid,
    )
}

impl<D> Container<D> {
    /// Reads checkpoint map blocks referenced by a superblock.
    pub fn checkpoint_map_blocks(&self, superblock: &ContainerSuperblock) -> (step: Step<
        CheckpointMapScan,
        Vec<CheckpointMapBlock>,
    >)
        ensures
            step@ == map_scan_start(*superblock),
            step matches Step::Read { state, .. } ==> state.wf(),
    {
        if let Err(error) = check_area(superblock) {
            return Step::Done(Err(error));
        }
        CheckpointMapScan {
            base: superblock.checkpoint_descriptor_area_block,
            count: superblock.checkpoint_descriptor_area_block_count,
            start_index: superblock.checkpoint_descriptor_area_start_index,
            length: superblock.checkpoint_descriptor_area_length,
            next: 0,
            maps: Vec::new(),
        }.step()
    }

    /// Returns flattened checkpoint mappings.
    pub fn checkpoint_mappings(&self, maps: &Vec<CheckpointMapBlock>) -> (mappings: Vec<
        CheckpointMapping,
    >)
        ensures
            mappings@ == flattened_mappings(maps@),
    {
        let mut mappings: Vec<CheckpointMapping> = Vec::new();
        let mut i: usize = 0;
        while i < maps.len()
            invariant
                i <= maps@.len(),
                mappings@ == flattened_mappings(maps@.take(i as int)),
            decreases maps@.len() - i,
        {
            let map = &maps[i].mappings;
            let ghost before = mappings@;
            let mut j: usize = 0;
            while j < map.len()
                invariant
                    j <= map@.len(),
                    mappings@ == before + map@.take(j as int),
                decreases map@.len() - j,
            {
                mappings.push(map[j]);
                j = j + 1;
                assert(before + map@.take(j as int) =~= (before + map@.take(j - 1)).push(
                    map@[j - 1],
                ));
            }
            assert(map@.take(j as int) =~= map@);
            i = i + 1;
            assert(maps@.take(i as int).drop_last() =~= maps@.take(i - 1));
        }
        assert(maps@.take(i as int) =~= maps@);
        mappings
    }

    /// Finds the checkpoint mapping for an ephemeral object identifier.
    pub fn find_ephemeral_object_mapping(
        &self,
        mappings: &Vec<CheckpointMapping>,
        oid: u64,
    ) -> (found: Option<CheckpointMapping>)
        ensures
            found == mapping_of(mappings@, oid),
    {
        let ghost wanted = |mapping: CheckpointMapping| mapping.container_identifier == oid;
        let mut i: usize = 0;
        while i < mappings.len()
            invariant
                i <= mappings@.len(),
                wanted == (|mapping: CheckpointMapping| mapping.container_identifier == oid),
                forall|j: int| 0 <= j < i ==> !wanted(#[trigger] mappings@[j]),
            decreases mappings@.len() - i,
        {
            if mappings[i].container_identifier == oid {
                proof {
                    crate::search::lemma_first_where(mappings@, wanted, i as int);
                }
                return Some(mappings[i]);
            }
            i = i + 1;
        }
        proof {
            crate::search::lemma_first_where(mappings@, wanted, i as int);
        }
        None
    }
}

/// [`map_scan_resume`] as a value.
pub open spec fn map_scan_resumption() -> spec_fn(
    CheckpointMapScanView,
    Result<Decoded<CheckpointMapBlock>, ApfsError>,
) -> crate::reader::block::StepView<CheckpointMapScanView, Seq<CheckpointMapBlock>> {
    |scan: CheckpointMapScanView, reply: Result<Decoded<CheckpointMapBlock>, ApfsError>|
        map_scan_resume(scan, reply)
}

/// The blocks of the checkpoint of `superblock`, round the ring.
pub open spec fn checkpoint_blocks(superblock: ContainerSuperblock) -> Seq<u64> {
    Seq::new(
        superblock.checkpoint_descriptor_area_length as nat,
        |i: int|
            (superblock.checkpoint_descriptor_area_block + (
            superblock.checkpoint_descriptor_area_start_index + i) % (
            superblock.checkpoint_descriptor_area_block_count as int)) as u64,
    )
}

/// The map in each block of a disk.
pub open spec fn map_on(
    disk: spec_fn(u64) -> Result<Decoded<CheckpointMapBlock>, ApfsError>,
) -> spec_fn(u64) -> Option<CheckpointMapBlock> {
    |block: u64|
        match map_in(disk(block)) {
            Ok(found) => found,
            Err(_) => None,
        }
}

/// How a scan for checkpoint maps ends from its middle.
proof fn lemma_map_scan(
    superblock: ContainerSuperblock,
    disk: spec_fn(u64) -> Result<Decoded<CheckpointMapBlock>, ApfsError>,
    next: int,
)
    requires
        area_error(superblock) is None,
        superblock.checkpoint_descriptor_area_start_index
            + superblock.checkpoint_descriptor_area_length <= u32::MAX + 1,
        forall|i: int|
            0 <= i < checkpoint_blocks(superblock).len() ==> map_in(
                disk(#[trigger] checkpoint_blocks(superblock)[i]),
            ) is Ok,
        0 <= next <= superblock.checkpoint_descriptor_area_length,
    ensures
        crate::reader::block::run(
            map_scan_step(
                CheckpointMapScanView {
                    base: superblock.checkpoint_descriptor_area_block,
                    count: superblock.checkpoint_descriptor_area_block_count,
                    start_index: superblock.checkpoint_descriptor_area_start_index,
                    length: superblock.checkpoint_descriptor_area_length,
                    next,
                    maps: checkpoint_blocks(superblock).take(next).filter_map(map_on(disk)),
                },
            ),
            map_scan_resumption(),
            disk,
            (superblock.checkpoint_descriptor_area_length - next) as nat,
        ) == crate::reader::block::StepView::<CheckpointMapScanView, _>::Done(
            Ok(checkpoint_blocks(superblock).filter_map(map_on(disk))),
        ),
    decreases superblock.checkpoint_descriptor_area_length - next,
{
    let blocks = checkpoint_blocks(superblock);
    if next == superblock.checkpoint_descriptor_area_length {
        assert(blocks.take(next) =~= blocks);
    } else {
        lemma_map_scan(superblock, disk, next + 1);
        let count = superblock.checkpoint_descriptor_area_block_count as int;
        let index = (superblock.checkpoint_descriptor_area_start_index + next) % count;
        assert(0 <= index < count) by {
            vstd::arithmetic::div_mod::lemma_mod_bound(
                superblock.checkpoint_descriptor_area_start_index + next,
                count,
            );
        }
        let maps = blocks.take(next).filter_map(map_on(disk));
        let reply = disk(blocks[next]);
        blocks.lemma_filter_map_take_succ(map_on(disk), next);
        assert((match map_on(disk)(blocks[next]) {
            Some(map) => maps.push(map),
            None => maps,
        }) =~= blocks.take(next + 1).filter_map(map_on(disk)));
    }
}

/// On a disk that does not change and on which every block of the checkpoint
/// checks out, a scan gives the checkpoint maps in the order of the ring.
pub proof fn law_map_scan_goes_round_the_ring(
    superblock: ContainerSuperblock,
    disk: spec_fn(u64) -> Result<Decoded<CheckpointMapBlock>, ApfsError>,
)
    requires
        area_error(superblock) is None,
        superblock.checkpoint_descriptor_area_start_index
            + superblock.checkpoint_descriptor_area_length <= u32::MAX + 1,
        forall|i: int|
            0 <= i < checkpoint_blocks(superblock).len() ==> map_in(
                disk(#[trigger] checkpoint_blocks(superblock)[i]),
            ) is Ok,
    ensures
        crate::reader::block::run(
            map_scan_start(superblock),
            map_scan_resumption(),
            disk,
            superblock.checkpoint_descriptor_area_length as nat,
        ) == crate::reader::block::StepView::<CheckpointMapScanView, _>::Done(
            Ok(checkpoint_blocks(superblock).filter_map(map_on(disk))),
        ),
{
    lemma_map_scan(superblock, disk, 0);
    let none = checkpoint_blocks(superblock).take(0);
    assert(none.filter_map(map_on(disk)) =~= Seq::empty());
}

/// The superblock in a block that was read: the block has to hold a whole
/// object header, be of type 1, be intact and be well formed.
pub proof fn law_what_counts_as_a_superblock(
    reply: Result<Decoded<ContainerSuperblock>, ApfsError>,
)
    ensures
        superblock_in(reply) is Some <==> (reply matches Ok(block) && block.data@.len() >= 32
            && block.data@[24] == 1 && block.data@[25] == 0 && block.checksum is Ok
            && block.parsed is Ok),
        superblock_in(reply) matches Some(superblock) ==> reply->Ok_0.parsed == Ok::<
            ContainerSuperblock,
            ApfsError,
        >(superblock),
{
    if let Ok(block) = reply {
        if block.data@.len() >= 32 {
            crate::types::object::law_header_fields_lie_at_their_offsets(block.data@);
        }
    }
}

/// A descriptor area is refused if and only if a high bit marks it as kept in
/// a B-tree, or it has no blocks while the checkpoint claims some. A refused
/// area is not read at all.
pub proof fn law_what_areas_are_refused(superblock: ContainerSuperblock)
    ensures
        superblock.checkpoint_descriptor_area_block >= 0x8000_0000_0000_0000
            || superblock.checkpoint_descriptor_area_block_count >= 0x8000_0000 ==> {
            let error = ApfsError::InvalidValue(
                "checkpoint descriptor area is stored as a B-tree",
            );
            &&& area_error(superblock) == Some(error)
            &&& superblock_scan_start(superblock) == crate::reader::block::StepView::<
                SuperblockScanView,
                Seq<ContainerSuperblock>,
            >::Done(Err(error))
            &&& map_scan_start(superblock) == crate::reader::block::StepView::<
                CheckpointMapScanView,
                Seq<CheckpointMapBlock>,
            >::Done(Err(error))
        },
        superblock.checkpoint_descriptor_area_block < 0x8000_0000_0000_0000
            && superblock.checkpoint_descriptor_area_block_count == 0
            && superblock.checkpoint_descriptor_area_length != 0 ==> {
            let error = ApfsError::InvalidValue("zero checkpoint descriptor area block count");
            &&& area_error(superblock) == Some(error)
            &&& superblock_scan_start(superblock) == crate::reader::block::StepView::<
                SuperblockScanView,
                Seq<ContainerSuperblock>,
            >::Done(Err(error))
            &&& map_scan_start(superblock) == crate::reader::block::StepView::<
                CheckpointMapScanView,
                Seq<CheckpointMapBlock>,
            >::Done(Err(error))
        },
        superblock.checkpoint_descriptor_area_block < 0x8000_0000_0000_0000
            && superblock.checkpoint_descriptor_area_block_count < 0x8000_0000 && (
        superblock.checkpoint_descriptor_area_block_count != 0
            || superblock.checkpoint_descriptor_area_length == 0) ==> area_error(
            superblock,
        ) is None,
{
}

/// A scan of a descriptor area reads as many blocks as the area has and ends
/// well, whatever the blocks hold.
pub proof fn law_scans_end_well(
    superblock: ContainerSuperblock,
    disk: spec_fn(u64) -> Result<Decoded<ContainerSuperblock>, ApfsError>,
)
    requires
        superblock.checkpoint_descriptor_area_block < 0x8000_0000_0000_0000,
        superblock.checkpoint_descriptor_area_block_count < 0x8000_0000,
        superblock.checkpoint_descriptor_area_block_count != 0
            || superblock.checkpoint_descriptor_area_length == 0,
    ensures
        exists|found: Seq<ContainerSuperblock>| #[trigger]
            scan_gives(superblock, disk, found),
{
    law_what_areas_are_refused(superblock);
    law_superblock_scan_finds_all(superblock, disk);
    assert(scan_gives(
        superblock,
        disk,
        crate::reader::sorting::stable_sorted(
            area_blocks(superblock).filter_map(superblock_on(disk)),
        ),
    ));
}

/// Whether a scan of the whole descriptor area ends with `found`.
pub open spec fn scan_gives(
    superblock: ContainerSuperblock,
    disk: spec_fn(u64) -> Result<Decoded<ContainerSuperblock>, ApfsError>,
    found: Seq<ContainerSuperblock>,
) -> bool {
    crate::reader::block::run(
        superblock_scan_start(superblock),
        superblock_scan_resumption(),
        disk,
        superblock.checkpoint_descriptor_area_block_count as nat,
    ) == crate::reader::block::StepView::<SuperblockScanView, Seq<ContainerSuperblock>>::Done(
        Ok(found),
    )
}

/// What a scan of the whole descriptor area gives, on a disk that does not
/// change: every intact superblock that any block of the area holds, nothing
/// that no block holds, and higher transaction identifiers first.
pub proof fn law_scan_gives_just_the_superblocks_of_the_area(
    superblock: ContainerSuperblock,
    disk: spec_fn(u64) -> Result<Decoded<ContainerSuperblock>, ApfsError>,
    found: Seq<ContainerSuperblock>,
)
    requires
        superblock.checkpoint_descriptor_area_block < 0x8000_0000_0000_0000,
        superblock.checkpoint_descriptor_area_block_count < 0x8000_0000,
        superblock.checkpoint_descriptor_area_block_count != 0
            || superblock.checkpoint_descriptor_area_length == 0,
        scan_gives(superblock, disk, found),
    ensures
        forall|n: u64|
            superblock.checkpoint_descriptor_area_block <= n
                < superblock.checkpoint_descriptor_area_block
                + superblock.checkpoint_descriptor_area_block_count ==> (
            #[trigger] disk(n) matches Ok(block) ==> (block.data@.len() >= 32
                && block.data@[24] == 1 && block.data@[25] == 0 && block.checksum is Ok
                && block.parsed is Ok ==> found.contains(block.parsed->Ok_0))),
        forall|one: ContainerSuperblock| #[trigger]
            found.contains(one) ==> exists|n: u64|
                {
                    &&& superblock.checkpoint_descriptor_area_block <= n
                        < superblock.checkpoint_descriptor_area_block
                        + superblock.checkpoint_descriptor_area_block_count
                    &&& (#[trigger] disk(n)) is Ok
                    &&& disk(n)->Ok_0.data@.len() >= 32
                    &&& disk(n)->Ok_0.data@[24] == 1 && disk(n)->Ok_0.data@[25] == 0
                    &&& disk(n)->Ok_0.checksum is Ok
                    &&& disk(n)->Ok_0.parsed == Ok::<ContainerSuperblock, ApfsError>(one)
                },
        found.len() == Seq::new(
            superblock.checkpoint_descriptor_area_block_count as nat,
            |i: int| disk((superblock.checkpoint_descriptor_area_block + i) as u64),
        ).filter(
            |reply: Result<Decoded<ContainerSuperblock>, ApfsError>|
                reply matches Ok(block) && block.data@.len() >= 32 && block.data@[24] == 1
                    && block.data@[25] == 0 && block.checksum is Ok && block.parsed is Ok,
        ).len(),
        forall|j: int, k: int|
            0 <= j <= k < found.len() ==> (#[trigger] found[j]).object.transaction_identifier >= (
            #[trigger] found[k]).object.transaction_identifier,
{
    law_what_areas_are_refused(superblock);
    law_superblock_scan_finds_all(superblock, disk);
    let base = superblock.checkpoint_descriptor_area_block;
    let count = superblock.checkpoint_descriptor_area_block_count as nat;
    let blocks = area_blocks(superblock);
    let collected = blocks.filter_map(superblock_on(disk));
    assert(found == crate::reader::sorting::stable_sorted(collected));
    crate::reader::sorting::law_sorted_ascends(collected);
    assert forall|n: u64| base <= n < base + count implies (
    #[trigger] disk(n) matches Ok(block) ==> (block.data@.len() >= 32 && block.data@[24] == 1
        && block.data@[25] == 0 && block.checksum is Ok && block.parsed is Ok ==> found.contains(
        block.parsed->Ok_0,
    ))) by {
        law_what_counts_as_a_superblock(disk(n));
        if let Some(one) = superblock_in(disk(n)) {
            assert(blocks[n - base] == n);
            lemma_filter_map_keeps(blocks, superblock_on(disk), n - base);
            crate::reader::sorting::law_sorting_loses_and_adds_nothing(collected, one);
        }
    }
    assert forall|one: ContainerSuperblock| #[trigger] found.contains(one) implies exists|n: u64|
        {
            &&& base <= n < base + count
            &&& (#[trigger] disk(n)) is Ok
            &&& disk(n)->Ok_0.data@.len() >= 32
            &&& disk(n)->Ok_0.data@[24] == 1 && disk(n)->Ok_0.data@[25] == 0
            &&& disk(n)->Ok_0.checksum is Ok
            &&& disk(n)->Ok_0.parsed == Ok::<ContainerSuperblock, ApfsError>(one)
        } by {
        crate::reader::sorting::law_sorting_loses_and_adds_nothing(collected, one);
        blocks.lemma_filter_map_contains(superblock_on(disk), one);
        let n = choose|n: u64| #[trigger]
            blocks.contains(n) && superblock_on(disk)(n) == Some(one);
        law_what_counts_as_a_superblock(disk(n));
        assert(disk(n) is Ok);
    }
    let replies = Seq::new(
        superblock.checkpoint_descriptor_area_block_count as nat,
        |i: int| disk((superblock.checkpoint_descriptor_area_block + i) as u64),
    );
    let good = |reply: Result<Decoded<ContainerSuperblock>, ApfsError>|
        reply matches Ok(block) && block.data@.len() >= 32 && block.data@[24] == 1
            && block.data@[25] == 0 && block.checksum is Ok && block.parsed is Ok;
    assert forall|i: int| 0 <= i < blocks.len() implies (superblock_on(disk)(
        #[trigger] blocks[i],
    ) is Some <==> good(replies[i])) by {
        law_what_counts_as_a_superblock(replies[i]);
    }
    lemma_filter_map_count(blocks, superblock_on(disk), replies, good);
    assert forall|j: int, k: int| 0 <= j <= k < found.len() implies (
    #[trigger] found[j]).object.transaction_identifier >= (
    #[trigger] found[k]).object.transaction_identifier by {
        assert(found[j].spec_rank() <= found[k].spec_rank());
    }
}

/// What a value maps to is among what all values map to.
proof fn lemma_filter_map_keeps<A, B>(items: Seq<A>, map: spec_fn(A) -> Option<B>, i: int)
    requires
        0 <= i < items.len(),
        map(items[i]) is Some,
    ensures
        items.filter_map(map).contains(map(items[i])->0),
    decreases items.len(),
{
    let rest = items.drop_last();
    let found = items.filter_map(map);
    if i < rest.len() {
        lemma_filter_map_keeps(rest, map, i);
        let before = rest.filter_map(map);
        let k = choose|k: int| 0 <= k < before.len() && before[k] == map(items[i])->0;
        assert(found[k] == before[k]);
    } else {
        assert(found[found.len() - 1] == map(items[i])->0);
    }
}

/// As many values are mapped as pass the test that says whether one is.
proof fn lemma_filter_map_count<A, B, C>(
    items: Seq<A>,
    map: spec_fn(A) -> Option<B>,
    others: Seq<C>,
    keep: spec_fn(C) -> bool,
)
    requires
        items.len() == others.len(),
        forall|i: int|
            0 <= i < items.len() ==> (map(#[trigger] items[i]) is Some <==> keep(others[i])),
    ensures
        items.filter_map(map).len() == others.filter(keep).len(),
    decreases items.len(),
{
    reveal(Seq::filter);
    if items.len() > 0 {
        let last = items.len() - 1;
        assert forall|i: int| 0 <= i < items.len() - 1 implies (map(
            #[trigger] items.drop_last()[i],
        ) is Some <==> keep(others.drop_last()[i])) by {
            assert(items.drop_last()[i] == items[i]);
        }
        lemma_filter_map_count(items.drop_last(), map, others.drop_last(), keep);
        assert(map(items[last]) is Some <==> keep(others[last]));
    }
}

/// What a scan for checkpoint maps does with a block: it ends with the error of
/// a block that cannot be read, is too short for an object header, or is of
/// type 12 and does not check out; it keeps a sound block of type 12; and it
/// passes over a block of any other type.
pub proof fn law_what_counts_as_a_checkpoint_map(
    reply: Result<Decoded<CheckpointMapBlock>, ApfsError>,
)
    ensures
        match reply {
            Err(error) => map_in(reply) == Err::<Option<CheckpointMapBlock>, ApfsError>(error),
            Ok(block) => if block.data@.len() < 32 {
                map_in(reply) == Err::<Option<CheckpointMapBlock>, ApfsError>(
                    ApfsError::InputTooSmall,
                )
            } else if block.data@[24] == 12 && block.data@[25] == 0 {
                match (block.checksum, block.parsed) {
                    (Err(error), _) => map_in(reply) == Err::<
                        Option<CheckpointMapBlock>,
                        ApfsError,
                    >(error),
                    (Ok(_), Err(error)) => map_in(reply) == Err::<
                        Option<CheckpointMapBlock>,
                        ApfsError,
                    >(error),
                    (Ok(_), Ok(map)) => map_in(reply) == Ok::<
                        Option<CheckpointMapBlock>,
                        ApfsError,
                    >(Some(map)),
                }
            } else {
                map_in(reply) == Ok::<Option<CheckpointMapBlock>, ApfsError>(None)
            },
        },
{
    if let Ok(block) = reply {
        if block.data@.len() >= 32 {
            crate::types::object::law_header_fields_lie_at_their_offsets(block.data@);
        }
    }
}

/// What a scan for checkpoint maps gives, on a disk that does not change and on
/// which every block of the checkpoint checks out: as many blocks as the
/// checkpoint has are looked at, from its first one on and round the ring, and
/// the maps among them come in that order.
pub proof fn law_map_scan_gives_just_the_maps_of_the_checkpoint(
    superblock: ContainerSuperblock,
    disk: spec_fn(u64) -> Result<Decoded<CheckpointMapBlock>, ApfsError>,
)
    requires
        superblock.checkpoint_descriptor_area_block < 0x8000_0000_0000_0000,
        0 < superblock.checkpoint_descriptor_area_block_count < 0x8000_0000,
        superblock.checkpoint_descriptor_area_start_index
            + superblock.checkpoint_descriptor_area_length <= 0x1_0000_0000,
        forall|i: int|
            #![trigger disk(
                (superblock.checkpoint_descriptor_area_block + (
                superblock.checkpoint_descriptor_area_start_index + i) % (
                superblock.checkpoint_descriptor_area_block_count as int)) as u64,
            )]
            0 <= i < superblock.checkpoint_descriptor_area_length ==> (disk(
                (superblock.checkpoint_descriptor_area_block + (
                superblock.checkpoint_descriptor_area_start_index + i) % (
                superblock.checkpoint_descriptor_area_block_count as int)) as u64,
            ) matches Ok(block) && block.data@.len() >= 32 && (block.data@[24] == 12
                && block.data@[25] == 0 ==> block.checksum is Ok && block.parsed is Ok)),
    ensures
        crate::reader::block::run(
            map_scan_start(superblock),
            |scan: CheckpointMapScanView, reply: Result<Decoded<CheckpointMapBlock>, ApfsError>|
                map_scan_resume(scan, reply),
            disk,
            superblock.checkpoint_descriptor_area_length as nat,
        ) == crate::reader::block::StepView::<CheckpointMapScanView, _>::Done(
            Ok(
                Seq::new(
                    superblock.checkpoint_descriptor_area_length as nat,
                    |i: int|
                        (superblock.checkpoint_descriptor_area_block + (
                        superblock.checkpoint_descriptor_area_start_index + i) % (
                        superblock.checkpoint_descriptor_area_block_count as int)) as u64,
                ).filter_map(
                    |block: u64|
                        if disk(block)->Ok_0.data@[24] == 12 && disk(block)->Ok_0.data@[25]
                            == 0 {
                            Some(disk(block)->Ok_0.parsed->Ok_0)
                        } else {
                            None
                        },
                ),
            ),
        ),
{
    law_what_areas_are_refused(superblock);
    assert(map_scan_resumption() =~= (|
        scan: CheckpointMapScanView,
        reply: Result<Decoded<CheckpointMapBlock>, ApfsError>,
    | map_scan_resume(scan, reply)));
    let blocks = Seq::new(
        superblock.checkpoint_descriptor_area_length as nat,
        |i: int|
            (superblock.checkpoint_descriptor_area_block + (
            superblock.checkpoint_descriptor_area_start_index + i) % (
            superblock.checkpoint_descriptor_area_block_count as int)) as u64,
    );
    let found = |block: u64|
        if disk(block)->Ok_0.data@[24] == 12 && disk(block)->Ok_0.data@[25] == 0 {
            Some(disk(block)->Ok_0.parsed->Ok_0)
        } else {
            None
        };
    assert(blocks =~= checkpoint_blocks(superblock));
    assert forall|i: int| 0 <= i < blocks.len() implies map_in(disk(#[trigger] blocks[i])) is Ok
        && map_on(disk)(blocks[i]) == found(blocks[i]) by {
        assert(disk(
            (superblock.checkpoint_descriptor_area_block + (
            superblock.checkpoint_descriptor_area_start_index + i) % (
            superblock.checkpoint_descriptor_area_block_count as int)) as u64,
        ) is Ok);
        law_what_counts_as_a_checkpoint_map(disk(blocks[i]));
    }
    law_map_scan_goes_round_the_ring(superblock, disk);
    lemma_filter_map_alike(blocks, map_on(disk), found);
}

/// Two maps that agree on the values give the same.
proof fn lemma_filter_map_alike<A, B>(
    items: Seq<A>,
    left: spec_fn(A) -> Option<B>,
    right: spec_fn(A) -> Option<B>,
)
    requires
        forall|i: int| 0 <= i < items.len() ==> left(#[trigger] items[i]) == right(items[i]),
    ensures
        items.filter_map(left) == items.filter_map(right),
    decreases items.len(),
{
    if items.len() > 0 {
        let rest = items.drop_last();
        assert forall|i: int| 0 <= i < rest.len() implies left(#[trigger] rest[i]) == right(
            rest[i],
        ) by {
            assert(rest[i] == items[i]);
        }
        lemma_filter_map_alike(rest, left, right);
        assert(left(items[items.len() - 1]) == right(items[items.len() - 1]));
    }
}

/// Flattening checkpoint maps keeps every mapping and the order.
pub proof fn law_mappings_are_flattened(maps: Seq<CheckpointMapBlock>)
    ensures
        flattened_mappings(maps) == maps.map_values(
            |map: CheckpointMapBlock| map.mappings@,
        ).flatten(),
    decreases maps.len(),
{
    let views = maps.map_values(|map: CheckpointMapBlock| map.mappings@);
    views.lemma_flatten_and_flatten_alt_are_equivalent();
    if maps.len() > 0 {
        law_mappings_are_flattened(maps.drop_last());
        let before = maps.drop_last().map_values(|map: CheckpointMapBlock| map.mappings@);
        before.lemma_flatten_and_flatten_alt_are_equivalent();
        assert(views.drop_last() =~= before);
        assert(views.last() == maps.last().mappings@);
    }
}

/// The mapping that is found is one of the object that was asked for, and no
/// mapping before it is; none is found only when there is none.
pub proof fn law_mappings_are_found_exactly(mappings: Seq<CheckpointMapping>, oid: u64)
    ensures
        match mapping_of(mappings, oid) {
            Some(mapping) => exists|i: int|
                {
                    &&& 0 <= i < mappings.len()
                    &&& #[trigger] mappings[i] == mapping
                    &&& mapping.container_identifier == oid
                    &&& forall|j: int|
                        0 <= j < i ==> (#[trigger] mappings[j]).container_identifier != oid
                },
            None => forall|j: int|
                0 <= j < mappings.len() ==> (#[trigger] mappings[j]).container_identifier != oid,
        },
    decreases mappings.len(),
{
    if mappings.len() > 0 && mappings[0].container_identifier != oid {
        let rest = mappings.drop_first();
        law_mappings_are_found_exactly(rest, oid);
        if let Some(mapping) = mapping_of(rest, oid) {
            let i = choose|i: int|
                {
                    &&& 0 <= i < rest.len()
                    &&& #[trigger] rest[i] == mapping
                    &&& mapping.container_identifier == oid
                    &&& forall|j: int|
                        0 <= j < i ==> (#[trigger] rest[j]).container_identifier != oid
                };
            assert(mappings[i + 1] == mapping);
            assert forall|j: int| 0 <= j < i + 1 implies (
            #[trigger] mappings[j]).container_identifier != oid by {
                if j > 0 {
                    assert(mappings[j] == rest[j - 1]);
                }
            }
        } else {
            assert forall|j: int| 0 <= j < mappings.len() implies (
            #[trigger] mappings[j]).container_identifier != oid by {
                if j > 0 {
                    assert(mappings[j] == rest[j - 1]);
                }
            }
        }
    } else if mappings.len() > 0 {
        assert(mapping_of(mappings, oid) == Some(mappings[0]));
    }
}

/// A checkpoint without blocks has no maps, and none of its blocks is read.
pub proof fn law_empty_checkpoints_have_no_maps(superblock: ContainerSuperblock)
    requires
        superblock.checkpoint_descriptor_area_block < 0x8000_0000_0000_0000,
        superblock.checkpoint_descriptor_area_block_count < 0x8000_0000,
        superblock.checkpoint_descriptor_area_length == 0,
    ensures
        map_scan_start(superblock) == crate::reader::block::StepView::<
            CheckpointMapScanView,
            Seq<CheckpointMapBlock>,
        >::Done(Ok(Seq::empty())),
{
}

/// A scan for checkpoint maps ends with the error of the first block that is
/// wrong, and with an overflow where the number of the next block of the
/// checkpoint does not fit 32 bits.
pub proof fn law_what_ends_a_map_scan(
    scan: CheckpointMapScanView,
    reply: Result<Decoded<CheckpointMapBlock>, ApfsError>,
    wrong: ApfsError,
)
    ensures
        map_in(reply) == Err::<Option<CheckpointMapBlock>, ApfsError>(wrong) ==> map_scan_resume(
            scan,
            reply,
        ) == crate::reader::block::StepView::<
            CheckpointMapScanView,
            Seq<CheckpointMapBlock>,
        >::Done(Err(wrong)),
        scan.next < scan.length && scan.start_index + scan.next > 0xffff_ffff ==> map_scan_step(
            scan,
        ) == crate::reader::block::StepView::<
            CheckpointMapScanView,
            Seq<CheckpointMapBlock>,
        >::Done(Err(ApfsError::AddressOverflow)),
{
}

} // verus!
