//! Reading a list of blocks.

use crate::error::ApfsError;
use crate::reader::block::{checked, Decoded, Step};
use crate::reader::container::Container;
use crate::reader::object_map::addresses;
use crate::types::object_map::{ObjectMapKey, ObjectMapValue};
use crate::types::volume::VolumeSuperblock;
use vstd::prelude::*;

verus! {

/// A walk along a list of blocks, each of which has to be readable, intact
/// and well formed.
pub struct BlockList<T> {
    blocks: Vec<u64>,
    items: Vec<T>,
}

/// What a [`BlockList`] holds.
#[verifier::ext_equal]
pub struct BlockListView<T> {
    /// The blocks.
    pub blocks: Seq<u64>,
    /// What was in the first of them.
    pub items: Seq<T>,
}

impl<T> View for BlockList<T> {
    type V = BlockListView<T>;

    closed spec fn view(&self) -> BlockListView<T> {
        BlockListView { blocks: self.blocks@, items: self.items@ }
    }
}

/// What a walk does next.
pub open spec fn block_list_step<T>(list: BlockListView<T>) -> crate::reader::block::StepView<
    BlockListView<T>,
    Seq<T>,
> {
    if list.items.len() < list.blocks.len() {
        crate::reader::block::StepView::Read {
            block: list.blocks[list.items.len() as int],
            state: list,
        }
    } else {
        crate::reader::block::StepView::Done(Ok(list.items))
    }
}

/// What a walk does when it is handed what was read.
pub open spec fn block_list_resume<T>(
    list: BlockListView<T>,
    reply: Result<Decoded<T>, ApfsError>,
) -> crate::reader::block::StepView<BlockListView<T>, Seq<T>> {
    match crate::reader::block::checked_outcome(reply) {
        Err(error) => crate::reader::block::StepView::Done(Err(error)),
        Ok(item) => block_list_step(BlockListView { items: list.items.push(item), ..list }),
    }
}

impl<T> BlockList<T> {
    /// Starts a walk along `blocks`.
    pub fn start(blocks: Vec<u64>) -> (step: Step<BlockList<T>, Vec<T>>)
        ensures
            step@ == block_list_step(
                BlockListView { blocks: blocks@, items: Seq::<T>::empty() },
            ),
    {
        BlockList { blocks, items: Vec::new() }.step()
    }

    fn step(self) -> (step: Step<BlockList<T>, Vec<T>>)
        ensures
            step@ == block_list_step(self@),
    {
        let next: usize = self.items.len();
        if next < self.blocks.len() {
            Step::Read { block: self.blocks[next], state: self }
        } else {
            Step::Done(Ok(self.items))
        }
    }

    /// Goes on with what was read.
    pub fn resume(self, reply: Result<Decoded<T>, ApfsError>) -> (step: Step<BlockList<T>, Vec<T>>)
        ensures
            step@ == block_list_resume(self@, reply),
    {
        match checked(reply) {
            Err(error) => Step::Done(Err(error)),
            Ok(item) => {
                let mut list = self;
                list.items.push(item);
                list.step()
            },
        }
    }
}

/// Decodes a block that is to hold a volume superblock.
pub fn volume_block(data: Vec<u8>, checksum: Result<(), ApfsError>) -> (block: Decoded<
    VolumeSuperblock,
>)
    ensures
        block.data == data,
        block.checksum == checksum,
        crate::types::volume::is_volume_outcome(data@, block.parsed),
{
    let parsed = VolumeSuperblock::parse(data.as_slice());
    Decoded { data, checksum, parsed }
}

impl<D> Container<D> {
    /// Reads volume superblocks referenced by the container superblock, from
    /// what its volumes resolve to.
    pub fn volume_superblocks(&self, values: &Vec<(ObjectMapKey, ObjectMapValue)>) -> (step: Step<
        BlockList<VolumeSuperblock>,
        Vec<VolumeSuperblock>,
    >)
        ensures
            step@ == block_list_step(
                BlockListView {
                    blocks: values@.map_values(
                        |entry: (ObjectMapKey, ObjectMapValue)| entry.1.address,
                    ),
                    items: Seq::<VolumeSuperblock>::empty(),
                },
            ),
    {
        BlockList::start(addresses(values))
    }
}

/// The values of several lists, one list after the other.
pub open spec fn concatenated<T>(lists: Seq<Vec<T>>) -> Seq<T>
    decreases lists.len(),
{
    if lists.len() == 0 {
        Seq::empty()
    } else {
        concatenated(lists.drop_last()) + lists.last()@
    }
}

/// Joins several lists into one.
pub fn join_lists<T>(lists: Vec<Vec<T>>) -> (joined: Vec<T>)
    ensures
        joined@ == concatenated(lists@),
{
    let ghost all = lists@;
    let mut lists = lists;
    let mut joined: Vec<T> = Vec::new();
    assert(concatenated(all) + joined@ =~= concatenated(all));
    while lists.len() > 0
        invariant
            concatenated(lists@) + joined@ == concatenated(all),
        decreases lists@.len(),
    {
        let ghost before = lists@;
        if let Some(mut last) = lists.pop() {
            assert(lists@ =~= before.drop_last());
            assert(concatenated(lists@) + (last@ + joined@) =~= (concatenated(lists@) + last@)
                + joined@);
            last.append(&mut joined);
            joined = last;
        }
    }
    assert(concatenated(lists@) + joined@ =~= joined@);
    joined
}

/// [`block_list_resume`] as a value.
pub open spec fn block_list_resumption<T>() -> spec_fn(
    BlockListView<T>,
    Result<Decoded<T>, ApfsError>,
) -> crate::reader::block::StepView<BlockListView<T>, Seq<T>> {
    |list: BlockListView<T>, reply: Result<Decoded<T>, ApfsError>| block_list_resume(list, reply)
}

/// How a walk along a list ends from its middle.
proof fn lemma_block_list<T>(
    blocks: Seq<u64>,
    disk: spec_fn(u64) -> Result<Decoded<T>, ApfsError>,
    next: int,
)
    requires
        forall|i: int|
            0 <= i < blocks.len() ==> crate::reader::block::checked_outcome(
                disk(#[trigger] blocks[i]),
            ) is Ok,
        0 <= next <= blocks.len(),
    ensures
        crate::reader::block::run(
            block_list_step(
                BlockListView { blocks, items: contents(blocks, disk).take(next) },
            ),
            block_list_resumption::<T>(),
            disk,
            (blocks.len() - next) as nat,
        ) == crate::reader::block::StepView::<BlockListView<T>, _>::Done(
            Ok(contents(blocks, disk)),
        ),
    decreases blocks.len() - next,
{
    let all = contents(blocks, disk);
    if next == blocks.len() {
        assert(all.take(next) =~= all);
    } else {
        lemma_block_list(blocks, disk, next + 1);
        assert(all.take(next).push(all[next]) =~= all.take(next + 1));
        assert(crate::reader::block::checked_outcome(disk(blocks[next])) is Ok);
    }
}

/// What the blocks of a list hold.
pub open spec fn contents<T>(
    blocks: Seq<u64>,
    disk: spec_fn(u64) -> Result<Decoded<T>, ApfsError>,
) -> Seq<T> {
    Seq::new(
        blocks.len(),
        |i: int| crate::reader::block::checked_outcome(disk(blocks[i]))->Ok_0,
    )
}

/// On a disk that does not change and on which every block of the list checks
/// out, a walk gives what each block holds, in the order of the list.
pub proof fn law_block_list_keeps_order<T>(
    blocks: Seq<u64>,
    disk: spec_fn(u64) -> Result<Decoded<T>, ApfsError>,
)
    requires
        forall|i: int|
            0 <= i < blocks.len() ==> crate::reader::block::checked_outcome(
                disk(#[trigger] blocks[i]),
            ) is Ok,
    ensures
        crate::reader::block::run(
            block_list_step(BlockListView { blocks, items: Seq::<T>::empty() }),
            block_list_resumption::<T>(),
            disk,
            blocks.len(),
        ) == crate::reader::block::StepView::<BlockListView<T>, _>::Done(
            Ok(contents(blocks, disk)),
        ),
{
    lemma_block_list(blocks, disk, 0);
    assert(contents(blocks, disk).take(0) =~= Seq::<T>::empty());
}

/// A walk along a list gives one value for each block of the list, in the
/// order of the list, and each is what its block holds: on a disk that does not
/// change and on which every block of the list can be read, is intact and is
/// well formed.
pub proof fn law_each_block_gives_its_value<T>(
    blocks: Seq<u64>,
    disk: spec_fn(u64) -> Result<Decoded<T>, ApfsError>,
)
    requires
        forall|i: int|
            0 <= i < blocks.len() ==> (disk(#[trigger] blocks[i]) matches Ok(block)
                && block.checksum is Ok && block.parsed is Ok),
    ensures
        match crate::reader::block::run(
            block_list_step(BlockListView { blocks, items: Seq::<T>::empty() }),
            |list: BlockListView<T>, reply: Result<Decoded<T>, ApfsError>|
                block_list_resume(list, reply),
            disk,
            blocks.len(),
        ) {
            crate::reader::block::StepView::Done(Ok(items)) => {
                &&& items.len() == blocks.len()
                &&& forall|i: int|
                    0 <= i < blocks.len() ==> disk(#[trigger] blocks[i])->Ok_0.parsed == Ok::<
                        T,
                        ApfsError,
                    >(items[i])
            },
            _ => false,
        },
{
    assert(block_list_resumption::<T>() =~= (|
        list: BlockListView<T>,
        reply: Result<Decoded<T>, ApfsError>,
    | block_list_resume(list, reply)));
    law_block_list_keeps_order(blocks, disk);
}

/// A walk along a list ends with the error of a block that cannot be read or
/// does not check out.
pub proof fn law_bad_blocks_end_a_list<T>(
    list: BlockListView<T>,
    block: Decoded<T>,
    error: ApfsError,
)
    ensures
        block_list_resume(list, Err(error)) == crate::reader::block::StepView::<
            BlockListView<T>,
            Seq<T>,
        >::Done(Err(error)),
        block.checksum == Err::<(), ApfsError>(error) ==> block_list_resume(list, Ok(block))
            == crate::reader::block::StepView::<BlockListView<T>, Seq<T>>::Done(Err(error)),
        block.checksum is Ok && block.parsed == Err::<T, ApfsError>(error) ==> block_list_resume(
            list,
            Ok(block),
        ) == crate::reader::block::StepView::<BlockListView<T>, Seq<T>>::Done(Err(error)),
{
}

/// Joining lists keeps every value and the order.
pub proof fn law_joined_lists_are_flattened<T>(lists: Seq<Vec<T>>)
    ensures
        concatenated(lists) == lists.map_values(|list: Vec<T>| list@).flatten(),
    decreases lists.len(),
{
    let views = lists.map_values(|list: Vec<T>| list@);
    views.lemma_flatten_and_flatten_alt_are_equivalent();
    if lists.len() > 0 {
        law_joined_lists_are_flattened(lists.drop_last());
        let before = lists.drop_last().map_values(|list: Vec<T>| list@);
        before.lemma_flatten_and_flatten_alt_are_equivalent();
        assert(views.drop_last() =~= before);
        assert(views.last() == lists.last()@);
    }
}

} // verus!
