//! Inodes, extents and file contents.

use crate::error::ApfsError;
use crate::reader::block::Step;
use crate::reader::container::Container;
use crate::reader::sorting::{stable_sort, Ranked};
use crate::types::filesystem::{FileExtentRecord, FileSystemKey, InodeRecord, FS_TYPE_INODE};
use vstd::prelude::*;

verus! {

/// What an entry of the filesystem tree decodes to as an inode: its key, and
/// its record.
pub type InodeEntry = (Result<FileSystemKey, ApfsError>, Result<InodeRecord, ApfsError>);

/// Whether an entry is a sound record of the inode `inode`.
pub open spec fn is_inode(entry: InodeEntry, inode: u64) -> bool {
    &&& entry.0 matches Ok(key) && key.id == inode && key.record_type == FS_TYPE_INODE
    &&& entry.1 is Ok
}

/// The first sound record of the inode `inode`.
pub open spec fn inode_in(entries: Seq<InodeEntry>, inode: u64) -> Option<InodeRecord> {
    match crate::search::first_where(entries, |entry: InodeEntry| is_inode(entry, inode)) {
        Some(entry) => Some(entry.1->Ok_0),
        None => None,
    }
}

impl<D> Container<D> {
    /// Finds an inode record by inode identifier among the entries of the
    /// filesystem tree.
    pub fn inode_record(&self, entries: &Vec<InodeEntry>, inode: u64) -> (found: Option<InodeRecord>)
        ensures
            found == inode_in(entries@, inode),
    {
        let ghost wanted = |entry: InodeEntry| is_inode(entry, inode);
        let mut i: usize = 0;
        while i < entries.len()
            invariant
                i <= entries@.len(),
                wanted == (|entry: InodeEntry| is_inode(entry, inode)),
                forall|j: int| 0 <= j < i ==> !wanted(#[trigger] entries@[j]),
            decreases entries@.len() - i,
        {
            if let (Ok(key), Ok(record)) = entries[i] {
                if key.id == inode && key.record_type == FS_TYPE_INODE {
                    proof {
                        crate::search::lemma_first_where(entries@, wanted, i as int);
                    }
                    return Some(record);
                }
            }
            i = i + 1;
        }
        proof {
            crate::search::lemma_first_where(entries@, wanted, i as int);
        }
        None
    }
}

/// Refuses to go on without an inode.
pub fn required_inode(found: Option<InodeRecord>) -> (r: Result<InodeRecord, ApfsError>)
    ensures
        r == match found {
            Some(inode) => Ok::<InodeRecord, ApfsError>(inode),
            None => Err::<InodeRecord, ApfsError>(
                ApfsError::InvalidValue("inode record not found"),
            ),
        },
{
    match found {
        Some(inode) => Ok(inode),
        None => Err(ApfsError::InvalidValue("inode record not found")),
    }
}

/// Extents are sorted by their place in the data stream.
impl Ranked for FileExtentRecord {
    open spec fn spec_rank(&self) -> u64 {
        self.logical_address
    }

    fn rank(&self) -> (rank: u64) {
        self.logical_address
    }
}

/// The extent in an entry of the filesystem tree, if it is one of the data
/// stream `id`.
pub open spec fn extent_of(id: u64) -> spec_fn(
    Result<FileExtentRecord, ApfsError>,
) -> Option<FileExtentRecord> {
    |entry: Result<FileExtentRecord, ApfsError>|
        match entry {
            Ok(extent) => if extent.id == id {
                Some(extent)
            } else {
                None
            },
            Err(_) => None,
        }
}

impl<D> Container<D> {
    /// Finds the file extents of a data stream among the entries of the
    /// filesystem tree, in the order of their place in the stream.
    pub fn file_extents(&self, entries: &Vec<Result<FileExtentRecord, ApfsError>>, id: u64) -> (extents: Vec<
        FileExtentRecord,
    >)
        ensures
            extents@ == crate::reader::sorting::stable_sorted(entries@.filter_map(extent_of(id))),
    {
        let mut extents: Vec<FileExtentRecord> = Vec::new();
        let mut i: usize = 0;
        assert(entries@.take(0).filter_map(extent_of(id)) =~= Seq::empty());
        while i < entries.len()
            invariant
                i <= entries@.len(),
                extents@ == entries@.take(i as int).filter_map(extent_of(id)),
            decreases entries@.len() - i,
        {
            let ghost before = extents@;
            proof {
                entries@.lemma_filter_map_take_succ(extent_of(id), i as int);
            }
            if let Ok(extent) = entries[i] {
                if extent.id == id {
                    extents.push(extent);
                    assert(extents@ =~= before + seq![extent]);
                }
            }
            i = i + 1;
        }
        assert(entries@.take(i as int) =~= entries@);
        stable_sort(extents)
    }
}

/// The end of an extent in its data stream.
pub open spec fn extent_end(extent: FileExtentRecord) -> u64 {
    if extent.logical_address + extent.length > u64::MAX {
        u64::MAX
    } else {
        (extent.logical_address + extent.length) as u64
    }
}

/// The highest end of any extent, or 0.
pub open spec fn highest_end(extents: Seq<FileExtentRecord>) -> u64
    decreases extents.len(),
{
    if extents.len() == 0 {
        0
    } else {
        let before = highest_end(extents.drop_last());
        let last = extent_end(extents.last());
        if before >= last {
            before
        } else {
            last
        }
    }
}

/// Returns the highest end of any extent, or 0.
///
/// Summing extent lengths, not their end offsets, would undercount a
/// sparse file (one with unallocated holes not covered by any
/// extent record): the logical byte range still includes the holes,
/// but no extent bytes exist for them. The highest logical end
/// offset among all extents is the correct size.
pub fn extents_end(extents: &Vec<FileExtentRecord>) -> (end: u64)
    ensures
        end == highest_end(extents@),
{
    let mut end: u64 = 0;
    let mut i: usize = 0;
    while i < extents.len()
        invariant
            i <= extents@.len(),
            end == highest_end(extents@.take(i as int)),
        decreases extents@.len() - i,
    {
        assert(extents@.take(i + 1).drop_last() =~= extents@.take(i as int));
        let last: u64 = extents[i].logical_address.saturating_add(extents[i].length);
        if last > end {
            end = last;
        }
        i = i + 1;
    }
    assert(extents@.take(i as int) =~= extents@);
    end
}

/// The size of a file that its inode records.
pub open spec fn recorded_size(inode: InodeRecord) -> Option<u64> {
    match inode.data_stream_size {
        Some(size) => Some(size),
        None => if inode.uncompressed_size != 0 {
            Some(inode.uncompressed_size)
        } else {
            None
        },
    }
}

/// The effective size of a file.
pub open spec fn effective_size(inode: InodeRecord, extents: Seq<FileExtentRecord>) -> u64 {
    match recorded_size(inode) {
        Some(size) => size,
        None => highest_end(extents),
    }
}

/// Where finding the size of a file stands.
pub enum FileSizeStep {
    /// The size is known.
    Known(u64),
    /// The extents of the data stream are wanted; [`extents_end`] of them is
    /// the size.
    Extents {
        /// Identifier of the data stream.
        private_id: u64,
    },
}

impl<D> Container<D> {
    /// Returns the effective file size: the inode's exact data-stream size
    /// when present, then the inode's uncompressed size when set, otherwise the
    /// highest end of the data stream's extents.
    pub fn file_size(&self, inode: &InodeRecord) -> (step: FileSizeStep)
        ensures
            match step {
                FileSizeStep::Known(size) => recorded_size(*inode) == Some(size),
                FileSizeStep::Extents { private_id } => {
                    &&& recorded_size(*inode) is None
                    &&& private_id == inode.private_id
                },
            },
    {
        if let Some(size) = inode.data_stream_size {
            return FileSizeStep::Known(size);
        }
        if inode.uncompressed_size != 0 {
            return FileSizeStep::Known(inode.uncompressed_size);
        }
        FileSizeStep::Extents { private_id: inode.private_id }
    }
}

/// The size that a read goes by: a recorded size of 0 is taken for none.
pub open spec fn known_size(inode: InodeRecord) -> Option<u64> {
    if inode.data_stream_size matches Some(size) && size != 0 {
        inode.data_stream_size
    } else if inode.uncompressed_size != 0 {
        Some(inode.uncompressed_size)
    } else {
        None
    }
}

/// The smaller of two numbers.
pub open spec fn smaller(a: usize, b: usize) -> usize {
    if a <= b {
        a
    } else {
        b
    }
}

/// How many bytes a read gives.
pub open spec fn read_limit(
    inode: InodeRecord,
    extents: Seq<FileExtentRecord>,
    max_bytes: usize,
) -> usize {
    match known_size(inode) {
        Some(size) => smaller(max_bytes, size as usize),
        None => smaller(max_bytes, highest_end(extents) as usize),
    }
}

/// A read of the contents of a file.
pub struct FileRead {
    extents: Vec<FileExtentRecord>,
    next: usize,
    output: Vec<u8>,
    position: usize,
    remaining: usize,
    block: u64,
}

/// What a [`FileRead`] holds.
#[verifier::ext_equal]
pub struct FileReadView {
    /// The extents of the file.
    pub extents: Seq<FileExtentRecord>,
    /// How many of them were begun.
    pub next: int,
    /// The bytes of the file, as far as they were read.
    pub output: Seq<u8>,
    /// Where the next bytes of the current extent go.
    pub position: int,
    /// How many bytes of the current extent are left.
    pub remaining: int,
    /// The next block of the current extent.
    pub block: u64,
}

impl View for FileRead {
    type V = FileReadView;

    closed spec fn view(&self) -> FileReadView {
        FileReadView {
            extents: self.extents@,
            next: self.next as int,
            output: self.output@,
            position: self.position as int,
            remaining: self.remaining as int,
            block: self.block,
        }
    }
}

/// The state of a read that has begun its next extent. An extent that starts
/// past the end of the output is passed over.
pub open spec fn next_extent(read: FileReadView) -> FileReadView {
    let extent = read.extents[read.next];
    let start = extent.logical_address as usize;
    if start >= read.output.len() {
        FileReadView { next: read.next + 1, remaining: 0, ..read }
    } else {
        FileReadView {
            next: read.next + 1,
            position: start as int,
            remaining: (extent.length as usize) as int,
            block: extent.physical_block,
            ..read
        }
    }
}

/// What a read does next.
pub open spec fn file_read_step(read: FileReadView) -> crate::reader::block::StepView<
    FileReadView,
    Seq<u8>,
>
    decreases read.extents.len() - read.next,
{
    if read.remaining > 0 && read.position < read.output.len() {
        crate::reader::block::StepView::Read { block: read.block, state: read }
    } else if 0 <= read.next < read.extents.len() {
        file_read_step(next_extent(read))
    } else {
        crate::reader::block::StepView::Done(Ok(read.output))
    }
}

/// How a read starts.
pub open spec fn file_read_start(
    inode: InodeRecord,
    extents: Seq<FileExtentRecord>,
    max_bytes: usize,
) -> crate::reader::block::StepView<FileReadView, Seq<u8>> {
    file_read_step(
        FileReadView {
            extents,
            next: 0,
            output: Seq::new(read_limit(inode, extents, max_bytes) as nat, |i: int| 0u8),
            position: 0,
            remaining: 0,
            block: 0,
        },
    )
}

/// How many bytes of a block go into the output.
pub open spec fn taken(read: FileReadView, data: Seq<u8>) -> int {
    let room = read.output.len() - read.position;
    let wanted = if read.remaining <= room {
        read.remaining
    } else {
        room
    };
    if wanted <= data.len() {
        wanted
    } else {
        data.len() as int
    }
}

/// `output` with the first bytes of `data` at `position`.
pub open spec fn placed(output: Seq<u8>, position: int, data: Seq<u8>, length: int) -> Seq<u8> {
    Seq::new(
        output.len(),
        |i: int|
            if position <= i < position + length {
                data[i - position]
            } else {
                output[i]
            },
    )
}

/// What a read does when it is handed what was read.
pub open spec fn file_read_resume(
    read: FileReadView,
    reply: Result<Seq<u8>, ApfsError>,
) -> crate::reader::block::StepView<FileReadView, Seq<u8>> {
    match reply {
        Err(error) => crate::reader::block::StepView::Done(Err(error)),
        Ok(data) => if read.block == u64::MAX {
            crate::reader::block::StepView::Done(Err(ApfsError::AddressOverflow))
        } else {
            let length = taken(read, data);
            file_read_step(
                FileReadView {
                    output: placed(read.output, read.position, data, length),
                    position: read.position + length,
                    remaining: read.remaining - length,
                    block: (read.block + 1) as u64,
                    ..read
                },
            )
        },
    }
}

/// The bytes that a block gave, or the error.
pub open spec fn bytes_in(reply: Result<Vec<u8>, ApfsError>) -> Result<Seq<u8>, ApfsError> {
    match reply {
        Ok(data) => Ok(data@),
        Err(error) => Err(error),
    }
}

impl FileRead {
    /// Whether the read waits for a block.
    pub open spec fn wf(&self) -> bool {
        &&& 0 <= self@.next <= self@.extents.len()
        &&& 0 <= self@.position < self@.output.len()
        &&& self@.remaining > 0
    }

    fn step(self) -> (step: Step<FileRead, Vec<u8>>)
        requires
            self@.next <= self@.extents.len(),
        ensures
            step@ == file_read_step(self@),
            step matches Step::Read { state, .. } ==> state.wf(),
    {
        let mut read = self;
        while !(read.remaining > 0 && read.position < read.output.len()) && read.next
            < read.extents.len()
            invariant
                read@.next <= read@.extents.len(),
                file_read_step(read@) == file_read_step(self@),
            decreases read.extents@.len() - read.next,
        {
            let extent: FileExtentRecord = read.extents[read.next];
            let start: usize = extent.logical_address as usize;
            read.next = read.next + 1;
            if start >= read.output.len() {
                read.remaining = 0;
            } else {
                read.position = start;
                read.remaining = extent.length as usize;
                read.block = extent.physical_block;
            }
        }
        if read.remaining > 0 && read.position < read.output.len() {
            Step::Read { block: read.block, state: read }
        } else {
            Step::Done(Ok(read.output))
        }
    }

    /// Goes on with what was read.
    pub fn resume(self, reply: Result<Vec<u8>, ApfsError>) -> (step: Step<FileRead, Vec<u8>>)
        requires
            self.wf(),
        ensures
            step@ == file_read_resume(self@, bytes_in(reply)),
            step matches Step::Read { state, .. } ==> state.wf(),
    {
        let data = match reply {
            Err(error) => return Step::Done(Err(error)),
            Ok(data) => data,
        };
        let mut read = self;
        let limit: usize = read.output.len();
        let room: usize = limit - read.position;
        let mut length: usize = read.remaining;
        if length > room {
            length = room;
        }
        if length > data.len() {
            length = data.len();
        }
        let ghost before = read.output@;
        let mut i: usize = 0;
        while i < length
            invariant
                i <= length <= data@.len(),
                length <= limit - read.position,
                limit == before.len(),
                read.output@ == placed(before, read.position as int, data@, i as int),
                read.output@.len() == before.len(),
                read.extents == self.extents,
                read.next == self.next,
                read.position == self.position,
                read.remaining == self.remaining,
                read.block == self.block,
            decreases length - i,
        {
            read.output[read.position + i] = data[i];
            i = i + 1;
            assert(read.output@ =~= placed(before, read.position as int, data@, i as int));
        }
        read.remaining = read.remaining - length;
        read.position = read.position + length;
        read.block = match read.block.checked_add(1) {
            None => return Step::Done(Err(ApfsError::AddressOverflow)),
            Some(block) => block,
        };
        read.step()
    }
}

impl<D> Container<D> {
    /// Reads file bytes for a small uncompressed file described by filesystem
    /// extents.
    ///
    /// Extents are placed at their recorded `logical_address` rather than
    /// concatenated in extent order: a sparse file can have logical byte
    /// ranges ("holes") not covered by any extent record, and simply
    /// concatenating extent data shifts all bytes after a hole down by the
    /// hole's size instead of leaving it zero-filled.
    ///
    /// With no recorded size, the output is capped at the data actually
    /// covered by extents rather than eagerly allocated up to `max_bytes`
    /// (which callers may pass as a large ceiling, e.g. 1 GiB).
    pub fn read_file(&self, inode: &InodeRecord, extents: Vec<FileExtentRecord>, max_bytes: usize) -> (step:
        Step<FileRead, Vec<u8>>)
        ensures
            step@ == file_read_start(*inode, extents@, max_bytes),
            step matches Step::Read { state, .. } ==> state.wf(),
    {
        let size: u64 = match inode.data_stream_size {
            Some(size) if size != 0 => size,
            _ => if inode.uncompressed_size != 0 {
                inode.uncompressed_size
            } else {
                extents_end(&extents)
            },
        };
        let whole: usize = size as usize;
        let limit: usize = if max_bytes <= whole {
            max_bytes
        } else {
            whole
        };
        let output: Vec<u8> = vec![0; limit];
        assert(output@ =~= Seq::new(
            read_limit(*inode, extents@, max_bytes) as nat,
            |i: int| 0u8,
        ));
        FileRead { extents, next: 0, output, position: 0, remaining: 0, block: 0 }.step()
    }
}

} // verus!
