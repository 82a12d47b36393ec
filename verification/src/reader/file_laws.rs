//! What a read of a file gives.

use crate::error::ApfsError;
use crate::reader::file::{FileReadView, InodeEntry};
use crate::reader::sorting::Ranked;
use crate::types::filesystem::{FileExtentRecord, InodeRecord};
use vstd::prelude::*;

verus! {

/// [`file_read_resume`](crate::reader::file::file_read_resume) as a value.
pub open spec fn file_read_resumption() -> spec_fn(
    FileReadView,
    Result<Seq<u8>, ApfsError>,
) -> crate::reader::block::StepView<FileReadView, Seq<u8>> {
    |read: FileReadView, reply: Result<Seq<u8>, ApfsError>|
        crate::reader::file::file_read_resume(read, reply)
}

/// Where an extent starts in the data stream: at its logical address, as an
/// offset in memory.
pub open spec fn extent_start(extent: FileExtentRecord) -> int {
    (extent.logical_address as usize) as int
}

/// How many bytes an extent has, as a length in memory.
pub open spec fn extent_length(extent: FileExtentRecord) -> int {
    (extent.length as usize) as int
}

/// Whether the byte `at` of the data stream lies in `extent`.
pub open spec fn covers(extent: FileExtentRecord, at: int) -> bool {
    extent_start(extent) <= at < extent_start(extent) + extent_length(extent)
}

/// An extent lies where its record says, wherever an offset in memory can
/// hold that.
pub proof fn law_extents_lie_where_they_say(extent: FileExtentRecord, at: int)
    requires
        extent.logical_address <= usize::MAX,
        extent.length <= usize::MAX,
    ensures
        covers(extent, at) <==> extent.logical_address <= at < extent.logical_address
            + extent.length,
{
}

/// The byte `offset` of the blocks from `block` on.
pub open spec fn stored_byte(
    disk: spec_fn(u64) -> Result<Seq<u8>, ApfsError>,
    block_size: int,
    block: u64,
    offset: int,
) -> u8 {
    disk((block + offset / block_size) as u64)->Ok_0[offset % block_size]
}

/// The byte `at` of the data stream that `extents` describe: the stored byte
/// of the last extent that covers it, or zero in a hole.
pub open spec fn stream_byte(
    extents: Seq<FileExtentRecord>,
    disk: spec_fn(u64) -> Result<Seq<u8>, ApfsError>,
    block_size: int,
    at: int,
) -> u8
    decreases extents.len(),
{
    if extents.len() == 0 {
        0
    } else if covers(extents.last(), at) {
        stored_byte(
            disk,
            block_size,
            extents.last().physical_block,
            at - extent_start(extents.last()),
        )
    } else {
        stream_byte(extents.drop_last(), disk, block_size, at)
    }
}

/// How many blocks it takes to hold `length` bytes.
pub open spec fn blocks_for(length: int, block_size: int) -> int {
    (length + block_size - 1) / block_size
}

/// Whether `count` blocks from `block` on can be read, and the block after
/// them has an address.
pub open spec fn blocks_readable(
    disk: spec_fn(u64) -> Result<Seq<u8>, ApfsError>,
    block_size: int,
    block: u64,
    count: int,
) -> bool {
    &&& block + count <= u64::MAX
    &&& forall|i: int|
        0 <= i < count ==> {
            &&& #[trigger] disk((block + i) as u64) is Ok
            &&& disk((block + i) as u64)->Ok_0.len() == block_size
        }
}

/// How many bytes of an extent lie within the first `limit` bytes of the data
/// stream.
pub open spec fn length_within(extent: FileExtentRecord, limit: int) -> int {
    if extent_start(extent) >= limit {
        0
    } else if extent_start(extent) + extent_length(extent) <= limit {
        extent_length(extent)
    } else {
        limit - extent_start(extent)
    }
}

/// Whether the part of `extent` that lies within the first `limit` bytes can
/// be read.
pub open spec fn extent_readable(
    extent: FileExtentRecord,
    disk: spec_fn(u64) -> Result<Seq<u8>, ApfsError>,
    block_size: int,
    limit: int,
) -> bool {
    blocks_readable(
        disk,
        block_size,
        extent.physical_block,
        blocks_for(length_within(extent, limit), block_size),
    )
}

/// How many bytes of the current extent a read still places.
spec fn left(read: FileReadView) -> int {
    if read.remaining <= 0 || read.position >= read.output.len() {
        0
    } else if read.remaining <= read.output.len() - read.position {
        read.remaining
    } else {
        read.output.len() - read.position
    }
}

/// Some arithmetic on blocks.
proof fn lemma_blocks(length: int, block_size: int)
    requires
        block_size > 0,
        length > 0,
    ensures
        blocks_for(length, block_size) >= 1,
        blocks_for(length - block_size, block_size) == blocks_for(length, block_size) - 1,
{
    vstd::arithmetic::div_mod::lemma_div_plus_one(length - 1, block_size);
    vstd::arithmetic::div_mod::lemma_div_pos_is_pos(length - 1, block_size);
}

/// Reading the rest of an extent places its bytes and nothing else. Returns
/// the number of reads that it takes, and the state after them.
proof fn lemma_read_extent(
    read: FileReadView,
    disk: spec_fn(u64) -> Result<Seq<u8>, ApfsError>,
    block_size: int,
) -> (r: (nat, FileReadView))
    requires
        block_size > 0,
        0 <= read.position,
        blocks_readable(disk, block_size, read.block, blocks_for(left(read), block_size)),
    ensures
        crate::reader::block::run(
            crate::reader::file::file_read_step(read),
            file_read_resumption(),
            disk,
            r.0,
        ) == crate::reader::file::file_read_step(r.1),
        r.1.extents == read.extents,
        r.1.next == read.next,
        r.1.output.len() == read.output.len(),
        r.1.position >= read.position,
        left(r.1) == 0,
        forall|p: int|
            #![trigger r.1.output[p]]
            0 <= p < read.output.len() ==> r.1.output[p] == (if read.position <= p < read.position
                + left(read) {
                stored_byte(disk, block_size, read.block, p - read.position)
            } else {
                read.output[p]
            }),
    decreases left(read),
{
    let wanted = left(read);
    if wanted == 0 {
        (0, read)
    } else {
        lemma_blocks(wanted, block_size);
        assert((read.block + 0) as u64 == read.block);
        let data = disk((read.block + 0) as u64)->Ok_0;
        let length = crate::reader::file::taken(read, data);
        let after = FileReadView {
            output: crate::reader::file::placed(read.output, read.position, data, length),
            position: read.position + length,
            remaining: read.remaining - length,
            block: (read.block + 1) as u64,
            ..read
        };
        assert forall|p: int|
            read.position <= p < read.position + length implies #[trigger] after.output[p]
            == stored_byte(disk, block_size, read.block, p - read.position) by {
            vstd::arithmetic::div_mod::lemma_basic_div(p - read.position, block_size);
            vstd::arithmetic::div_mod::lemma_small_mod(
                (p - read.position) as nat,
                block_size as nat,
            );
        }
        if wanted <= block_size {
            reveal_with_fuel(crate::reader::block::run, 2);
            (1, after)
        } else {
            assert forall|i: int|
                0 <= i < blocks_for(wanted - block_size, block_size) implies {
                &&& #[trigger] disk((after.block + i) as u64) is Ok
                &&& disk((after.block + i) as u64)->Ok_0.len() == block_size
            } by {
                assert(disk((read.block + (i + 1)) as u64) is Ok);
            }
            let (reads, end) = lemma_read_extent(after, disk, block_size);
            assert forall|p: int| 0 <= p < read.output.len() implies #[trigger] end.output[p] == (
            if read.position <= p < read.position + wanted {
                stored_byte(disk, block_size, read.block, p - read.position)
            } else {
                read.output[p]
            }) by {
                if after.position <= p < read.position + wanted {
                    let offset = p - read.position;
                    vstd::arithmetic::div_mod::lemma_div_minus_one(offset, block_size);
                    vstd::arithmetic::div_mod::lemma_mod_sub_multiples_vanish(offset, block_size);
                    assert(p - after.position == -block_size + offset);
                }
            }
            (reads + 1, end)
        }
    }
}

/// Reading the extents from some point on completes the data stream. Returns
/// the number of reads that it takes.
proof fn lemma_read_extents(
    read: FileReadView,
    disk: spec_fn(u64) -> Result<Seq<u8>, ApfsError>,
    block_size: int,
) -> (reads: nat)
    requires
        block_size > 0,
        left(read) == 0,
        0 <= read.next <= read.extents.len(),
        forall|i: int|
            0 <= i < read.extents.len() ==> extent_readable(
                #[trigger] read.extents[i],
                disk,
                block_size,
                read.output.len() as int,
            ),
        forall|p: int|
            #![trigger read.output[p]]
            0 <= p < read.output.len() ==> read.output[p] == stream_byte(
                read.extents.take(read.next),
                disk,
                block_size,
                p,
            ),
    ensures
        crate::reader::block::run(
            crate::reader::file::file_read_step(read),
            file_read_resumption(),
            disk,
            reads,
        ) == crate::reader::block::StepView::<FileReadView, _>::Done(
            Ok(
                Seq::new(
                    read.output.len(),
                    |p: int| stream_byte(read.extents, disk, block_size, p),
                ),
            ),
        ),
    decreases read.extents.len() - read.next,
{
    let limit = read.output.len() as int;
    if read.next == read.extents.len() {
        assert(read.extents.take(read.next) =~= read.extents);
        assert(read.output =~= Seq::new(
            read.output.len(),
            |p: int| stream_byte(read.extents, disk, block_size, p),
        ));
        0
    } else {
        let extent = read.extents[read.next];
        assert(extent_readable(extent, disk, block_size, limit));
        let begun = crate::reader::file::next_extent(read);
        assert(left(begun) == length_within(extent, limit));
        assert(read.extents.take(read.next + 1).drop_last() =~= read.extents.take(read.next));
        if extent_start(extent) >= limit {
            lemma_read_extents(begun, disk, block_size)
        } else {
            let (first, after) = lemma_read_extent(begun, disk, block_size);
            let second = lemma_read_extents(after, disk, block_size);
            crate::reader::block::lemma_run_on(
                crate::reader::file::file_read_step(read),
                file_read_resumption(),
                disk,
                first,
                second,
            );
            first + second
        }
    }
}

/// On a disk that does not change, a read whose blocks can be read ends, and
/// gives as many bytes as the limit says, each of them the byte of the data
/// stream that its extents describe: extents lie where their logical addresses
/// put them, and holes are zero. Returns the number of blocks that are read.
pub proof fn law_read_gives_the_data_stream(
    inode: InodeRecord,
    extents: Seq<FileExtentRecord>,
    max_bytes: usize,
    disk: spec_fn(u64) -> Result<Seq<u8>, ApfsError>,
    block_size: int,
) -> (reads: nat)
    requires
        block_size > 0,
        forall|i: int|
            0 <= i < extents.len() ==> extent_readable(
                #[trigger] extents[i],
                disk,
                block_size,
                crate::reader::file::read_limit(inode, extents, max_bytes) as int,
            ),
    ensures
        crate::reader::block::run(
            crate::reader::file::file_read_start(inode, extents, max_bytes),
            file_read_resumption(),
            disk,
            reads,
        ) == crate::reader::block::StepView::<FileReadView, _>::Done(
            Ok(
                Seq::new(
                    crate::reader::file::read_limit(inode, extents, max_bytes) as nat,
                    |p: int| stream_byte(extents, disk, block_size, p),
                ),
            ),
        ),
{
    let limit = crate::reader::file::read_limit(inode, extents, max_bytes) as nat;
    let read = FileReadView {
        extents,
        next: 0,
        output: Seq::new(limit, |i: int| 0u8),
        position: 0,
        remaining: 0,
        block: 0,
    };
    assert(extents.take(0).len() == 0);
    lemma_read_extents(read, disk, block_size)
}

/// A byte that no extent covers is zero.
pub proof fn law_holes_are_zero(
    extents: Seq<FileExtentRecord>,
    disk: spec_fn(u64) -> Result<Seq<u8>, ApfsError>,
    block_size: int,
    at: int,
)
    requires
        forall|i: int| 0 <= i < extents.len() ==> !covers(#[trigger] extents[i], at),
    ensures
        stream_byte(extents, disk, block_size, at) == 0,
    decreases extents.len(),
{
    if extents.len() > 0 {
        assert(!covers(extents[extents.len() - 1], at));
        law_holes_are_zero(extents.drop_last(), disk, block_size, at);
    }
}

/// Whether every block that can be read has `block_size` bytes, as every block
/// of a container has.
pub open spec fn has_block_size(
    disk: spec_fn(u64) -> Result<Seq<u8>, ApfsError>,
    block_size: nat,
) -> bool {
    forall|block: u64| (#[trigger] disk(block)) matches Ok(data) ==> data.len() == block_size
}

/// Whether a read is over after so many reads, and gave `output`.
pub open spec fn ended_with(
    step: crate::reader::block::StepView<FileReadView, Seq<u8>>,
    disk: spec_fn(u64) -> Result<Seq<u8>, ApfsError>,
    reads: nat,
    output: Seq<u8>,
) -> bool {
    crate::reader::block::run(step, file_read_resumption(), disk, reads)
        == crate::reader::block::StepView::<FileReadView, _>::Done(Ok(output))
}

/// A read that ended and went on from some step ended from that step too.
proof fn lemma_ended_after(
    step: crate::reader::block::StepView<FileReadView, Seq<u8>>,
    later: crate::reader::block::StepView<FileReadView, Seq<u8>>,
    disk: spec_fn(u64) -> Result<Seq<u8>, ApfsError>,
    reads: nat,
    some: nat,
    output: Seq<u8>,
)
    requires
        ended_with(step, disk, reads, output),
        crate::reader::block::run(step, file_read_resumption(), disk, some) == later,
    ensures
        ended_with(later, disk, reads, output),
{
    let resume = file_read_resumption();
    crate::reader::block::lemma_run_on(step, resume, disk, some, reads);
    crate::reader::block::lemma_run_on(step, resume, disk, reads, some);
}

/// What a read that waits for a block came to, when it ended well: the block
/// was read, the next one has an address, and the read went on.
proof fn lemma_ended_block(
    read: FileReadView,
    disk: spec_fn(u64) -> Result<Seq<u8>, ApfsError>,
    reads: nat,
    output: Seq<u8>,
)
    requires
        left(read) > 0,
        ended_with(crate::reader::file::file_read_step(read), disk, reads, output),
    ensures
        reads > 0,
        disk(read.block) is Ok,
        read.block < u64::MAX,
        ended_with(
            crate::reader::file::file_read_resume(read, disk(read.block)),
            disk,
            (reads - 1) as nat,
            output,
        ),
{
    reveal_with_fuel(crate::reader::block::run, 2);
}

/// A read that ended well had every block of its current extent.
proof fn lemma_ended_extent(
    read: FileReadView,
    disk: spec_fn(u64) -> Result<Seq<u8>, ApfsError>,
    block_size: nat,
    reads: nat,
    output: Seq<u8>,
)
    requires
        block_size > 0,
        has_block_size(disk, block_size),
        0 <= read.position,
        ended_with(crate::reader::file::file_read_step(read), disk, reads, output),
    ensures
        blocks_readable(
            disk,
            block_size as int,
            read.block,
            blocks_for(left(read), block_size as int),
        ),
    decreases left(read),
{
    let wanted = left(read);
    let size = block_size as int;
    if wanted == 0 {
        vstd::arithmetic::div_mod::lemma_basic_div(size - 1, size);
    } else {
        lemma_blocks(wanted, size);
        lemma_ended_block(read, disk, reads, output);
        let data = disk(read.block)->Ok_0;
        let length = crate::reader::file::taken(read, data);
        let after = FileReadView {
            output: crate::reader::file::placed(read.output, read.position, data, length),
            position: read.position + length,
            remaining: read.remaining - length,
            block: (read.block + 1) as u64,
            ..read
        };
        let count = blocks_for(wanted, size);
        if wanted <= size {
            vstd::arithmetic::div_mod::lemma_basic_div(wanted - 1, size);
            vstd::arithmetic::div_mod::lemma_div_plus_one(wanted - 1, size);
            assert(count == 1);
        } else {
            lemma_ended_extent(after, disk, block_size, (reads - 1) as nat, output);
        }
        assert forall|i: int| 0 <= i < count implies {
            &&& #[trigger] disk((read.block + i) as u64) is Ok
            &&& disk((read.block + i) as u64)->Ok_0.len() == size
        } by {
            if i > 0 {
                assert((after.block + (i - 1)) as u64 == (read.block + i) as u64);
                assert(disk((after.block + (i - 1)) as u64) is Ok);
            }
        }
    }
}

/// A read that ended well had every block of its extents from some point on.
proof fn lemma_ended_extents(
    read: FileReadView,
    disk: spec_fn(u64) -> Result<Seq<u8>, ApfsError>,
    block_size: nat,
    reads: nat,
    output: Seq<u8>,
)
    requires
        block_size > 0,
        has_block_size(disk, block_size),
        left(read) == 0,
        0 <= read.position,
        0 <= read.next <= read.extents.len(),
        ended_with(crate::reader::file::file_read_step(read), disk, reads, output),
    ensures
        forall|i: int|
            read.next <= i < read.extents.len() ==> extent_readable(
                #[trigger] read.extents[i],
                disk,
                block_size as int,
                read.output.len() as int,
            ),
    decreases read.extents.len() - read.next,
{
    let limit = read.output.len() as int;
    let size = block_size as int;
    if read.next < read.extents.len() {
        let extent = read.extents[read.next];
        let begun = crate::reader::file::next_extent(read);
        assert(left(begun) == length_within(extent, limit));
        lemma_ended_extent(begun, disk, block_size, reads, output);
        if left(begun) == 0 {
            vstd::arithmetic::div_mod::lemma_basic_div(size - 1, size);
            lemma_ended_extents(begun, disk, block_size, reads, output);
        } else {
            let (some, after) = lemma_read_extent(begun, disk, size);
            lemma_ended_after(
                crate::reader::file::file_read_step(begun),
                crate::reader::file::file_read_step(after),
                disk,
                reads,
                some,
                output,
            );
            lemma_ended_extents(after, disk, block_size, reads, output);
        }
    }
}

/// A read of empty blocks never ends well while it waits for one.
proof fn lemma_empty_blocks_never_end(
    read: FileReadView,
    disk: spec_fn(u64) -> Result<Seq<u8>, ApfsError>,
    reads: nat,
    output: Seq<u8>,
)
    requires
        has_block_size(disk, 0),
        left(read) > 0,
    ensures
        !ended_with(crate::reader::file::file_read_step(read), disk, reads, output),
    decreases reads,
{
    if ended_with(crate::reader::file::file_read_step(read), disk, reads, output) {
        lemma_ended_block(read, disk, reads, output);
        let data = disk(read.block)->Ok_0;
        let after = FileReadView {
            output: crate::reader::file::placed(read.output, read.position, data, 0),
            position: read.position + 0,
            remaining: read.remaining - 0,
            block: (read.block + 1) as u64,
            ..read
        };
        lemma_empty_blocks_never_end(after, disk, (reads - 1) as nat, output);
    }
}

/// A read of empty blocks that ended well had nothing to read.
proof fn lemma_empty_blocks(
    read: FileReadView,
    disk: spec_fn(u64) -> Result<Seq<u8>, ApfsError>,
    reads: nat,
    output: Seq<u8>,
)
    requires
        has_block_size(disk, 0),
        left(read) == 0,
        0 <= read.next <= read.extents.len(),
        ended_with(crate::reader::file::file_read_step(read), disk, reads, output),
    ensures
        output == read.output,
        forall|i: int|
            read.next <= i < read.extents.len() ==> length_within(
                #[trigger] read.extents[i],
                read.output.len() as int,
            ) == 0,
    decreases read.extents.len() - read.next,
{
    if read.next < read.extents.len() {
        let begun = crate::reader::file::next_extent(read);
        assert(left(begun) == length_within(
            read.extents[read.next],
            read.output.len() as int,
        ));
        if left(begun) > 0 {
            lemma_empty_blocks_never_end(begun, disk, reads, output);
        }
        lemma_empty_blocks(begun, disk, reads, output);
    }
}

/// Every read that ends well gives the data stream up to its limit: on a disk
/// that does not change and whose blocks have one size, whatever else on the
/// disk cannot be read, and however many reads it took.
pub proof fn law_ended_reads_give_the_data_stream(
    inode: InodeRecord,
    extents: Seq<FileExtentRecord>,
    max_bytes: usize,
    disk: spec_fn(u64) -> Result<Seq<u8>, ApfsError>,
    block_size: nat,
    reads: nat,
    output: Seq<u8>,
)
    requires
        has_block_size(disk, block_size),
        ended_with(
            crate::reader::file::file_read_start(inode, extents, max_bytes),
            disk,
            reads,
            output,
        ),
    ensures
        output == Seq::new(
            crate::reader::file::read_limit(inode, extents, max_bytes) as nat,
            |p: int| stream_byte(extents, disk, block_size as int, p),
        ),
{
    let limit = crate::reader::file::read_limit(inode, extents, max_bytes) as nat;
    let start = crate::reader::file::file_read_start(inode, extents, max_bytes);
    let read = FileReadView {
        extents,
        next: 0,
        output: Seq::new(limit, |i: int| 0u8),
        position: 0,
        remaining: 0,
        block: 0,
    };
    let stream = Seq::new(limit, |p: int| stream_byte(extents, disk, block_size as int, p));
    if block_size == 0 {
        lemma_empty_blocks(read, disk, reads, output);
        assert forall|p: int| 0 <= p < limit implies stream[p] == 0 by {
            assert forall|i: int| 0 <= i < extents.len() implies !covers(
                #[trigger] extents[i],
                p,
            ) by {
                assert(length_within(extents[i], limit as int) == 0);
            }
            law_holes_are_zero(extents, disk, block_size as int, p);
        }
        assert(output =~= stream);
    } else {
        lemma_ended_extents(read, disk, block_size, reads, output);
        let some = law_read_gives_the_data_stream(
            inode,
            extents,
            max_bytes,
            disk,
            block_size as int,
        );
        lemma_ended_after(
            start,
            crate::reader::block::StepView::Done(Ok(stream)),
            disk,
            reads,
            some,
            output,
        );
    }
}

/// The size that a read goes by.
pub open spec fn size_to_read(inode: InodeRecord, extents: Seq<FileExtentRecord>) -> u64 {
    match crate::reader::file::known_size(inode) {
        Some(size) => size,
        None => crate::reader::file::highest_end(extents),
    }
}

/// A read gives no more than it is asked for, and the whole file when that is
/// enough. The size that it goes by is the effective size of the file, but for
/// one that records a data stream of size 0: that is read by its uncompressed
/// size or by its extents.
pub proof fn law_read_length(inode: InodeRecord, extents: Seq<FileExtentRecord>, max_bytes: usize)
    requires
        size_to_read(inode, extents) <= usize::MAX,
    ensures
        crate::reader::file::read_limit(inode, extents, max_bytes) == (if max_bytes
            <= size_to_read(inode, extents) {
            max_bytes as int
        } else {
            size_to_read(inode, extents) as int
        }),
        inode.data_stream_size != Some(0u64) ==> size_to_read(inode, extents)
            == crate::reader::file::effective_size(inode, extents),
{
}

/// Two reads of a file that both end well, on a disk that does not change,
/// give as many bytes as they are asked for or the file has, and the one with
/// the smaller limit gives the start of what the other gives.
pub proof fn law_smaller_reads_are_prefixes(
    inode: InodeRecord,
    extents: Seq<FileExtentRecord>,
    smaller: usize,
    larger: usize,
    disk: spec_fn(u64) -> Result<Seq<u8>, ApfsError>,
    block_size: nat,
    reads: (nat, nat),
    outputs: (Seq<u8>, Seq<u8>),
)
    requires
        smaller <= larger,
        has_block_size(disk, block_size),
        ended_with(
            crate::reader::file::file_read_start(inode, extents, smaller),
            disk,
            reads.0,
            outputs.0,
        ),
        ended_with(
            crate::reader::file::file_read_start(inode, extents, larger),
            disk,
            reads.1,
            outputs.1,
        ),
    ensures
        outputs.0.len() <= outputs.1.len(),
        outputs.0 == outputs.1.take(outputs.0.len() as int),
        outputs.0.len() <= smaller,
        outputs.1.len() <= larger,
        size_to_read(inode, extents) <= usize::MAX ==> {
            &&& outputs.0.len() == vstd::math::min(
                smaller as int,
                size_to_read(inode, extents) as int,
            )
            &&& outputs.1.len() == vstd::math::min(
                larger as int,
                size_to_read(inode, extents) as int,
            )
        },
{
    law_ended_reads_give_the_data_stream(
        inode,
        extents,
        smaller,
        disk,
        block_size,
        reads.0,
        outputs.0,
    );
    law_ended_reads_give_the_data_stream(
        inode,
        extents,
        larger,
        disk,
        block_size,
        reads.1,
        outputs.1,
    );
    assert(outputs.0 =~= outputs.1.take(outputs.0.len() as int));
}

/// No extent ends past the size that the extents give, and some extent ends
/// there unless the size is 0.
pub proof fn law_highest_end(extents: Seq<FileExtentRecord>)
    ensures
        forall|i: int|
            0 <= i < extents.len() ==> crate::reader::file::extent_end(#[trigger] extents[i])
                <= crate::reader::file::highest_end(extents),
        crate::reader::file::highest_end(extents) == 0 || exists|i: int|
            0 <= i < extents.len() && crate::reader::file::extent_end(#[trigger] extents[i])
                == crate::reader::file::highest_end(extents),
    decreases extents.len(),
{
    if extents.len() > 0 {
        let rest = extents.drop_last();
        law_highest_end(rest);
        let end = crate::reader::file::highest_end(extents);
        assert forall|i: int| 0 <= i < extents.len() implies crate::reader::file::extent_end(
            #[trigger] extents[i],
        ) <= end by {
            if i < rest.len() {
                assert(rest[i] == extents[i]);
            }
        }
        if end != 0 {
            if end == crate::reader::file::extent_end(extents.last()) {
                assert(extents[extents.len() - 1] == extents.last());
            } else {
                let i = choose|i: int|
                    0 <= i < rest.len() && crate::reader::file::extent_end(#[trigger] rest[i])
                        == crate::reader::file::highest_end(rest);
                assert(extents[i] == rest[i]);
            }
        }
    }
}

/// Adding an entry to those of the filesystem tree adds its extent to a data
/// stream if and only if it is a sound extent of that stream.
proof fn lemma_extents_push(
    entries: Seq<Result<FileExtentRecord, ApfsError>>,
    entry: Result<FileExtentRecord, ApfsError>,
    id: u64,
)
    ensures
        entries.push(entry).filter_map(crate::reader::file::extent_of(id)) == (match entry {
            Ok(extent) => if extent.id == id {
                entries.filter_map(crate::reader::file::extent_of(id)).push(extent)
            } else {
                entries.filter_map(crate::reader::file::extent_of(id))
            },
            Err(_) => entries.filter_map(crate::reader::file::extent_of(id)),
        }),
{
    assert(entries.push(entry).drop_last() =~= entries);
}

/// The extents of a data stream are just those of it: each of them has its
/// identifier and is in the filesystem tree, and each sound extent in the tree
/// that has its identifier is among them.
pub proof fn law_extents_are_those_of_the_stream(
    entries: Seq<Result<FileExtentRecord, ApfsError>>,
    id: u64,
)
    ensures
        forall|extent: FileExtentRecord|
            #![trigger entries.filter_map(crate::reader::file::extent_of(id)).contains(extent)]
            entries.filter_map(crate::reader::file::extent_of(id)).contains(extent)
                <==> extent.id == id && entries.contains(
                Ok::<FileExtentRecord, ApfsError>(extent),
            ),
        forall|extent: FileExtentRecord|
            #![trigger crate::reader::sorting::stable_sorted(
                entries.filter_map(crate::reader::file::extent_of(id)),
            ).contains(extent)]
            crate::reader::sorting::stable_sorted(
                entries.filter_map(crate::reader::file::extent_of(id)),
            ).contains(extent) <==> extent.id == id && entries.contains(
                Ok::<FileExtentRecord, ApfsError>(extent),
            ),
        forall|i: int|
            0 <= i < crate::reader::sorting::stable_sorted(
                entries.filter_map(crate::reader::file::extent_of(id)),
            ).len() ==> (#[trigger] crate::reader::sorting::stable_sorted(
                entries.filter_map(crate::reader::file::extent_of(id)),
            )[i]).id == id,
    decreases entries.len(),
{
    let found = entries.filter_map(crate::reader::file::extent_of(id));
    let sorted = crate::reader::sorting::stable_sorted(found);
    if entries.len() > 0 {
        let rest = entries.drop_last();
        let last = entries.last();
        let before = rest.filter_map(crate::reader::file::extent_of(id));
        law_extents_are_those_of_the_stream(rest, id);
        lemma_extents_push(rest, last, id);
        assert(rest.push(last) =~= entries);
        assert forall|extent: FileExtentRecord|
            #![trigger found.contains(extent)]
            found.contains(extent) <==> extent.id == id && entries.contains(
                Ok::<FileExtentRecord, ApfsError>(extent),
            ) by {
            let wanted = Ok::<FileExtentRecord, ApfsError>(extent);
            if found.contains(extent) {
                let k = choose|k: int| 0 <= k < found.len() && found[k] == extent;
                if k < before.len() {
                    assert(before[k] == extent);
                    assert(before.contains(extent));
                    let j = choose|j: int| 0 <= j < rest.len() && rest[j] == wanted;
                    assert(entries[j] == wanted);
                } else {
                    assert(entries[entries.len() - 1] == wanted);
                }
            }
            if extent.id == id && entries.contains(wanted) {
                let j = choose|j: int| 0 <= j < entries.len() && entries[j] == wanted;
                if j < rest.len() {
                    assert(rest[j] == wanted);
                    assert(before.contains(extent));
                    let k = choose|k: int| 0 <= k < before.len() && before[k] == extent;
                    assert(found[k] == extent);
                } else {
                    assert(found[found.len() - 1] == extent);
                }
            }
        }
    }
    assert forall|extent: FileExtentRecord|
        #![trigger sorted.contains(extent)]
        sorted.contains(extent) <==> extent.id == id && entries.contains(
            Ok::<FileExtentRecord, ApfsError>(extent),
        ) by {
        crate::reader::sorting::law_sorting_loses_and_adds_nothing(found, extent);
        assert(found.contains(extent) <==> extent.id == id && entries.contains(
            Ok::<FileExtentRecord, ApfsError>(extent),
        ));
    }
    assert forall|i: int| 0 <= i < sorted.len() implies (#[trigger] sorted[i]).id == id by {
        assert(sorted.contains(sorted[i]));
    }
}

/// The extents of a data stream come in the order of their logical addresses,
/// and there are as many of them as the tree holds: one more sound extent of
/// the stream is one more, and any other entry is none.
pub proof fn law_extents_are_in_order_and_counted(
    entries: Seq<Result<FileExtentRecord, ApfsError>>,
    entry: Result<FileExtentRecord, ApfsError>,
    id: u64,
)
    ensures
        forall|i: int, j: int|
            0 <= i <= j < crate::reader::sorting::stable_sorted(
                entries.filter_map(crate::reader::file::extent_of(id)),
            ).len() ==> (#[trigger] crate::reader::sorting::stable_sorted(
                entries.filter_map(crate::reader::file::extent_of(id)),
            )[i]).logical_address <= (#[trigger] crate::reader::sorting::stable_sorted(
                entries.filter_map(crate::reader::file::extent_of(id)),
            )[j]).logical_address,
        crate::reader::sorting::stable_sorted(
            entries.push(entry).filter_map(crate::reader::file::extent_of(id)),
        ).len() == crate::reader::sorting::stable_sorted(
            entries.filter_map(crate::reader::file::extent_of(id)),
        ).len() + (if entry matches Ok(extent) && extent.id == id {
            1int
        } else {
            0
        }),
{
    let found = entries.filter_map(crate::reader::file::extent_of(id));
    let more = entries.push(entry).filter_map(crate::reader::file::extent_of(id));
    lemma_extents_push(entries, entry, id);
    crate::reader::sorting::law_sorted_ascends(found);
    crate::reader::sorting::law_sorted_ascends(more);
    let sorted = crate::reader::sorting::stable_sorted(found);
    assert forall|i: int, j: int| 0 <= i <= j < sorted.len() implies (
    #[trigger] sorted[i]).logical_address <= (#[trigger] sorted[j]).logical_address by {
        assert(sorted[i].spec_rank() <= sorted[j].spec_rank());
    }
}

/// An inode is found if and only if the tree holds a sound record of type 3
/// under its identifier, and then it is the first of them.
pub proof fn law_inode_is_the_first_sound_record(entries: Seq<InodeEntry>, inode: u64)
    ensures
        match crate::reader::file::inode_in(entries, inode) {
            Some(record) => exists|i: int|
                {
                    &&& 0 <= i < entries.len()
                    &&& (#[trigger] entries[i]).1 == Ok::<InodeRecord, ApfsError>(record)
                    &&& entries[i].0 matches Ok(key) && key.id == inode && key.record_type == 3
                    &&& forall|j: int|
                        0 <= j < i ==> !((#[trigger] entries[j]).1 is Ok && entries[j].0 is Ok
                            && entries[j].0->Ok_0.id == inode && entries[j].0->Ok_0.record_type
                            == 3)
                },
            None => forall|j: int|
                0 <= j < entries.len() ==> !((#[trigger] entries[j]).1 is Ok && entries[j].0 is Ok
                    && entries[j].0->Ok_0.id == inode && entries[j].0->Ok_0.record_type == 3),
        },
    decreases entries.len(),
{
    let wanted = |entry: InodeEntry| crate::reader::file::is_inode(entry, inode);
    if entries.len() > 0 {
        let rest = entries.drop_first();
        if wanted(entries[0]) {
            assert(crate::reader::file::inode_in(entries, inode) == Some(entries[0].1->Ok_0));
        } else {
            law_inode_is_the_first_sound_record(rest, inode);
            assert forall|j: int| 0 < j < entries.len() implies #[trigger] entries[j] == rest[j
                - 1] by {
            }
            if let Some(record) = crate::reader::file::inode_in(rest, inode) {
                let i = choose|i: int|
                    {
                        &&& 0 <= i < rest.len()
                        &&& (#[trigger] rest[i]).1 == Ok::<InodeRecord, ApfsError>(record)
                        &&& rest[i].0 matches Ok(key) && key.id == inode && key.record_type == 3
                        &&& forall|j: int|
                            0 <= j < i ==> !((#[trigger] rest[j]).1 is Ok && rest[j].0 is Ok
                                && rest[j].0->Ok_0.id == inode && rest[j].0->Ok_0.record_type
                                == 3)
                    };
                assert(entries[i + 1] == rest[i]);
                assert forall|j: int| 0 <= j < i + 1 implies !((#[trigger] entries[j]).1 is Ok
                    && entries[j].0 is Ok && entries[j].0->Ok_0.id == inode
                    && entries[j].0->Ok_0.record_type == 3) by {
                    if j > 0 {
                        assert(entries[j] == rest[j - 1]);
                    }
                }
            } else {
                assert forall|j: int| 0 <= j < entries.len() implies !((
                #[trigger] entries[j]).1 is Ok && entries[j].0 is Ok && entries[j].0->Ok_0.id
                    == inode && entries[j].0->Ok_0.record_type == 3) by {
                    if j > 0 {
                        assert(entries[j] == rest[j - 1]);
                    }
                }
            }
        }
    }
}

/// The size of a file is what its data stream records, even 0; without that
/// its uncompressed size; and without both the end of the extent that ends
/// last. A read takes a recorded 0 for nothing recorded.
pub proof fn law_file_sizes(inode: InodeRecord, extents: Seq<FileExtentRecord>)
    ensures
        inode.data_stream_size matches Some(size) ==> crate::reader::file::effective_size(
            inode,
            extents,
        ) == size && crate::reader::file::recorded_size(inode) == Some(size),
        inode.data_stream_size is None && inode.uncompressed_size != 0
            ==> crate::reader::file::effective_size(inode, extents) == inode.uncompressed_size
            && crate::reader::file::recorded_size(inode) == Some(inode.uncompressed_size),
        inode.data_stream_size is None && inode.uncompressed_size == 0 ==> {
            &&& crate::reader::file::recorded_size(inode) is None
            &&& forall|i: int|
                0 <= i < extents.len() ==> crate::reader::file::effective_size(inode, extents)
                    == u64::MAX || (#[trigger] extents[i]).logical_address + extents[i].length
                    <= crate::reader::file::effective_size(inode, extents)
            &&& crate::reader::file::effective_size(inode, extents) == 0 || exists|i: int|
                0 <= i < extents.len() && ((#[trigger] extents[i]).logical_address
                    + extents[i].length == crate::reader::file::effective_size(inode, extents)
                    || crate::reader::file::effective_size(inode, extents) == u64::MAX
                    <= extents[i].logical_address + extents[i].length)
        },
        match inode.data_stream_size {
            Some(size) => size != 0 ==> size_to_read(inode, extents) == size,
            None => size_to_read(inode, extents) == crate::reader::file::effective_size(
                inode,
                extents,
            ),
        },
        inode.data_stream_size == Some(0u64) && inode.uncompressed_size != 0 ==> size_to_read(
            inode,
            extents,
        ) == inode.uncompressed_size,
        inode.data_stream_size == Some(0u64) && inode.uncompressed_size == 0 ==> size_to_read(
            inode,
            extents,
        ) == crate::reader::file::effective_size(
            InodeRecord { data_stream_size: None, ..inode },
            extents,
        ),
{
    law_highest_end(extents);
    let end = crate::reader::file::highest_end(extents);
    assert forall|i: int| 0 <= i < extents.len() implies end == u64::MAX || (
    #[trigger] extents[i]).logical_address + extents[i].length <= end by {
        assert(crate::reader::file::extent_end(extents[i]) <= end);
    }
    if end != 0 {
        let i = choose|i: int|
            0 <= i < extents.len() && crate::reader::file::extent_end(#[trigger] extents[i])
                == end;
        assert(extents[i].logical_address + extents[i].length == end || end == u64::MAX
            <= extents[i].logical_address + extents[i].length);
    }
}

/// The byte of the data stream in an extent that no later one covers.
proof fn lemma_stream_byte(
    extents: Seq<FileExtentRecord>,
    disk: spec_fn(u64) -> Result<Seq<u8>, ApfsError>,
    block_size: int,
    at: int,
    i: int,
)
    requires
        0 <= i < extents.len(),
        covers(extents[i], at),
        forall|j: int| i < j < extents.len() ==> !covers(#[trigger] extents[j], at),
    ensures
        stream_byte(extents, disk, block_size, at) == stored_byte(
            disk,
            block_size,
            extents[i].physical_block,
            at - extent_start(extents[i]),
        ),
    decreases extents.len(),
{
    if i < extents.len() - 1 {
        assert(!covers(extents[extents.len() - 1], at));
        lemma_stream_byte(extents.drop_last(), disk, block_size, at, i);
    }
}

/// What every byte of a read is that ends well, on a disk that does not change
/// and whose blocks have one size. A byte that an extent covers, and no later
/// one, is the byte of the extent's blocks at the same distance from their
/// start as it has from the extent's logical address. A byte that no extent
/// covers is zero. There are as many bytes as were asked for, or as the file
/// has when that is less.
pub proof fn law_every_byte_of_a_read(
    inode: InodeRecord,
    extents: Seq<FileExtentRecord>,
    max_bytes: usize,
    disk: spec_fn(u64) -> Result<Seq<u8>, ApfsError>,
    block_size: nat,
    reads: nat,
    output: Seq<u8>,
)
    requires
        forall|block: u64|
            (#[trigger] disk(block)) matches Ok(data) ==> data.len() == block_size,
        crate::reader::block::run(
            crate::reader::file::file_read_start(inode, extents, max_bytes),
            |read: FileReadView, reply: Result<Seq<u8>, ApfsError>|
                crate::reader::file::file_read_resume(read, reply),
            disk,
            reads,
        ) == crate::reader::block::StepView::<FileReadView, _>::Done(Ok(output)),
        forall|i: int|
            0 <= i < extents.len() ==> (#[trigger] extents[i]).logical_address <= usize::MAX
                && extents[i].length <= usize::MAX,
        inode.data_stream_size matches Some(size) ==> size <= usize::MAX,
        inode.uncompressed_size <= usize::MAX,
    ensures
        output.len() <= max_bytes,
        inode.data_stream_size matches Some(size) ==> (size != 0 ==> output.len()
            == vstd::math::min(max_bytes as int, size as int)),
        inode.data_stream_size is None || inode.data_stream_size == Some(0u64) ==> (
        inode.uncompressed_size != 0 ==> output.len() == vstd::math::min(
            max_bytes as int,
            inode.uncompressed_size as int,
        )),
        forall|p: int, i: int|
            #![trigger output[p], extents[i]]
            0 <= p < output.len() && 0 <= i < extents.len() && extents[i].logical_address <= p
                < extents[i].logical_address + extents[i].length && (forall|j: int|
                i < j < extents.len() ==> !((#[trigger] extents[j]).logical_address <= p
                    < extents[j].logical_address + extents[j].length)) ==> output[p] == disk(
                (extents[i].physical_block + (p - extents[i].logical_address) / (
                block_size as int)) as u64,
            )->Ok_0[(p - extents[i].logical_address) % (block_size as int)],
        forall|p: int|
            #![trigger output[p]]
            0 <= p < output.len() && (forall|j: int|
                0 <= j < extents.len() ==> !((#[trigger] extents[j]).logical_address <= p
                    < extents[j].logical_address + extents[j].length)) ==> output[p] == 0,
{
    assert(file_read_resumption() =~= (|read: FileReadView, reply: Result<Seq<u8>, ApfsError>|
        crate::reader::file::file_read_resume(read, reply)));
    law_ended_reads_give_the_data_stream(
        inode,
        extents,
        max_bytes,
        disk,
        block_size,
        reads,
        output,
    );
    assert forall|p: int, i: int|
        #![trigger output[p], extents[i]]
        0 <= p < output.len() && 0 <= i < extents.len() && extents[i].logical_address <= p
            < extents[i].logical_address + extents[i].length && (forall|j: int|
            i < j < extents.len() ==> !((#[trigger] extents[j]).logical_address <= p
                < extents[j].logical_address + extents[j].length)) implies output[p] == disk(
        (extents[i].physical_block + (p - extents[i].logical_address) / (
        block_size as int)) as u64,
    )->Ok_0[(p - extents[i].logical_address) % (block_size as int)] by {
        assert forall|j: int| i < j < extents.len() implies !covers(#[trigger] extents[j], p) by {
            law_extents_lie_where_they_say(extents[j], p);
        }
        law_extents_lie_where_they_say(extents[i], p);
        lemma_stream_byte(extents, disk, block_size as int, p, i);
    }
    assert forall|p: int|
        #![trigger output[p]]
        0 <= p < output.len() && (forall|j: int|
            0 <= j < extents.len() ==> !((#[trigger] extents[j]).logical_address <= p
                < extents[j].logical_address + extents[j].length)) implies output[p] == 0 by {
        assert forall|j: int| 0 <= j < extents.len() implies !covers(
            #[trigger] extents[j],
            p,
        ) by {
            law_extents_lie_where_they_say(extents[j], p);
        }
        law_holes_are_zero(extents, disk, block_size as int, p);
    }
}

/// A read that a block fails ends with the error of that block.
pub proof fn law_failed_blocks_end_a_read(read: FileReadView, error: ApfsError)
    ensures
        crate::reader::file::file_read_resume(read, Err(error))
            == crate::reader::block::StepView::<FileReadView, Seq<u8>>::Done(Err(error)),
{
}

} // verus!
