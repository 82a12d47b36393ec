//! What a B-tree walk collects.

use crate::error::ApfsError;
use crate::reader::block::Decoded;
use crate::reader::btree::{Addressing, AddressingView, MissingChild, TreeWalkView};
use crate::types::btree::{OwnedBTreeNode, OwnedEntry};
use crate::types::object_map::{ObjectMapKey, ObjectMapValue};
use vstd::prelude::*;

verus! {

/// [`tree_walk_resume`](crate::reader::btree::tree_walk_resume) as a value.
pub open spec fn tree_walk_resumption() -> spec_fn(
    TreeWalkView,
    Result<Decoded<OwnedBTreeNode>, ApfsError>,
) -> crate::reader::block::StepView<TreeWalkView, Seq<OwnedEntry>> {
    |walk: TreeWalkView, reply: Result<Decoded<OwnedBTreeNode>, ApfsError>|
        crate::reader::btree::tree_walk_resume(walk, reply)
}

/// The children of a node, in the order of its entries, or nothing when one of
/// them cannot be had.
pub open spec fn child_nodes(
    addressing: AddressingView,
    disk: spec_fn(u64) -> Result<Decoded<OwnedBTreeNode>, ApfsError>,
    entries: Seq<OwnedEntry>,
) -> Option<Seq<OwnedBTreeNode>>
    decreases entries.len(),
{
    if entries.len() == 0 {
        Some(Seq::empty())
    } else {
        match (
            child_nodes(addressing, disk, entries.drop_last()),
            crate::reader::btree::child_block(addressing, entries.last().value@),
        ) {
            (Some(before), Ok(None)) => Some(before),
            (Some(before), Ok(Some(block))) => match crate::reader::block::checked_outcome(
                disk(block),
            ) {
                Ok(child) => Some(before.push(child)),
                Err(_) => None,
            },
            _ => None,
        }
    }
}

/// The leaf entries below a node, from left to right, or nothing when the tree
/// below it is deeper than `depth` levels or cannot be read.
pub open spec fn leaves_below(
    addressing: AddressingView,
    disk: spec_fn(u64) -> Result<Decoded<OwnedBTreeNode>, ApfsError>,
    node: OwnedBTreeNode,
    depth: nat,
) -> Option<Seq<OwnedEntry>>
    decreases depth, 0nat,
{
    match (node.is_leaf, node.entries) {
        (Ok(true), Ok(entries)) => Some(entries@),
        (Ok(false), Ok(entries)) => if depth == 0 {
            None
        } else {
            match child_nodes(addressing, disk, entries@) {
                Some(children) => leaves_below_all(
                    addressing,
                    disk,
                    children,
                    (depth - 1) as nat,
                ),
                None => None,
            }
        },
        _ => None,
    }
}

/// The leaf entries below several nodes, from left to right.
pub open spec fn leaves_below_all(
    addressing: AddressingView,
    disk: spec_fn(u64) -> Result<Decoded<OwnedBTreeNode>, ApfsError>,
    nodes: Seq<OwnedBTreeNode>,
    depth: nat,
) -> Option<Seq<OwnedEntry>>
    decreases depth, nodes.len() + 1,
{
    if nodes.len() == 0 {
        Some(Seq::empty())
    } else {
        match (
            leaves_below(addressing, disk, nodes[0], depth),
            leaves_below_all(addressing, disk, nodes.drop_first(), depth),
        ) {
            (Some(first), Some(rest)) => Some(first + rest),
            _ => None,
        }
    }
}

/// Reading the children of a node puts them on the stack, the first one on
/// top. Returns the number of reads that it takes.
proof fn lemma_read_children(
    walk: TreeWalkView,
    disk: spec_fn(u64) -> Result<Decoded<OwnedBTreeNode>, ApfsError>,
) -> (reads: nat)
    requires
        child_nodes(walk.addressing, disk, walk.pending) is Some,
    ensures
        crate::reader::block::run(
            crate::reader::btree::tree_walk_step(walk),
            tree_walk_resumption(),
            disk,
            reads,
        ) == crate::reader::btree::tree_walk_step(
            TreeWalkView {
                stack: walk.stack + child_nodes(walk.addressing, disk, walk.pending)->0.reverse(),
                pending: Seq::empty(),
                ..walk
            },
        ),
    decreases walk.pending.len(),
{
    let children = child_nodes(walk.addressing, disk, walk.pending)->0;
    if walk.pending.len() == 0 {
        assert(walk.stack + children.reverse() =~= walk.stack);
        assert(walk.pending =~= Seq::empty());
        0
    } else {
        let rest = TreeWalkView { pending: walk.pending.drop_last(), ..walk };
        let before = child_nodes(walk.addressing, disk, rest.pending)->0;
        match crate::reader::btree::child_block(walk.addressing, walk.pending.last().value@) {
            Ok(Some(block)) => {
                let child = crate::reader::block::checked_outcome(disk(block))->Ok_0;
                let pushed = TreeWalkView { stack: walk.stack.push(child), ..rest };
                let reads = lemma_read_children(pushed, disk);
                assert(walk.stack + children.reverse() =~= pushed.stack + before.reverse());
                reads + 1
            },
            _ => lemma_read_children(rest, disk),
        }
    }
}

/// Looking into the node on top of the stack collects what is below it.
/// Returns the number of reads that it takes.
proof fn lemma_walk_node(
    walk: TreeWalkView,
    disk: spec_fn(u64) -> Result<Decoded<OwnedBTreeNode>, ApfsError>,
    depth: nat,
) -> (reads: nat)
    requires
        walk.pending.len() == 0,
        walk.stack.len() > 0,
        leaves_below(walk.addressing, disk, walk.stack.last(), depth) is Some,
    ensures
        crate::reader::block::run(
            crate::reader::btree::tree_walk_step(walk),
            tree_walk_resumption(),
            disk,
            reads,
        ) == crate::reader::btree::tree_walk_step(
            TreeWalkView {
                stack: walk.stack.drop_last(),
                leaves: walk.leaves + leaves_below(
                    walk.addressing,
                    disk,
                    walk.stack.last(),
                    depth,
                )->0,
                ..walk
            },
        ),
    decreases depth, 0nat,
{
    let node = walk.stack.last();
    let rest = TreeWalkView { stack: walk.stack.drop_last(), ..walk };
    assert(walk.pending =~= Seq::empty());
    if node.is_leaf->Ok_0 {
        0
    } else {
        let entries = node.entries->Ok_0@;
        let children = child_nodes(walk.addressing, disk, entries)->0;
        let inside = TreeWalkView { pending: entries, ..rest };
        let first = lemma_read_children(inside, disk);
        let spread = TreeWalkView {
            stack: rest.stack + children.reverse(),
            pending: Seq::empty(),
            ..rest
        };
        let second = lemma_walk_nodes(spread, disk, rest.stack, children, (depth - 1) as nat);
        crate::reader::block::lemma_run_on(
            crate::reader::btree::tree_walk_step(walk),
            tree_walk_resumption(),
            disk,
            first,
            second,
        );
        first + second
    }
}

/// Looking into several nodes on top of the stack, the first one topmost,
/// collects what is below all of them. Returns the number of reads that it
/// takes.
proof fn lemma_walk_nodes(
    walk: TreeWalkView,
    disk: spec_fn(u64) -> Result<Decoded<OwnedBTreeNode>, ApfsError>,
    under: Seq<OwnedBTreeNode>,
    nodes: Seq<OwnedBTreeNode>,
    depth: nat,
) -> (reads: nat)
    requires
        walk.pending.len() == 0,
        walk.stack == under + nodes.reverse(),
        leaves_below_all(walk.addressing, disk, nodes, depth) is Some,
    ensures
        crate::reader::block::run(
            crate::reader::btree::tree_walk_step(walk),
            tree_walk_resumption(),
            disk,
            reads,
        ) == crate::reader::btree::tree_walk_step(
            TreeWalkView {
                stack: under,
                leaves: walk.leaves + leaves_below_all(walk.addressing, disk, nodes, depth)->0,
                ..walk
            },
        ),
    decreases depth, nodes.len() + 1,
{
    if nodes.len() == 0 {
        assert(under + nodes.reverse() =~= under);
        assert(walk.leaves + Seq::<OwnedEntry>::empty() =~= walk.leaves);
        0
    } else {
        let tail = nodes.drop_first();
        assert(walk.stack.last() == nodes[0]);
        assert(walk.stack.drop_last() =~= under + tail.reverse());
        let first_leaves = leaves_below(walk.addressing, disk, nodes[0], depth)->0;
        let rest_leaves = leaves_below_all(walk.addressing, disk, tail, depth)->0;
        let first = lemma_walk_node(walk, disk, depth);
        let after = TreeWalkView {
            stack: walk.stack.drop_last(),
            leaves: walk.leaves + first_leaves,
            ..walk
        };
        let second = lemma_walk_nodes(after, disk, under, tail, depth);
        crate::reader::block::lemma_run_on(
            crate::reader::btree::tree_walk_step(walk),
            tree_walk_resumption(),
            disk,
            first,
            second,
        );
        assert((walk.leaves + first_leaves) + rest_leaves =~= walk.leaves + (first_leaves
            + rest_leaves));
        first + second
    }
}

/// On a disk that does not change, a walk of a tree of any finite depth ends,
/// and gives the leaf entries of the tree from left to right: every one of
/// them, once for each path that leads to it, and nothing else. Returns the
/// number of blocks that are read besides the root.
pub proof fn law_walk_collects_leaves_in_order(
    addressing: AddressingView,
    disk: spec_fn(u64) -> Result<Decoded<OwnedBTreeNode>, ApfsError>,
    root_block: u64,
    depth: nat,
) -> (reads: nat)
    requires
        crate::reader::block::checked_outcome(disk(root_block)) matches Ok(root) && {
            &&& root.tree_info is Ok
            &&& leaves_below(addressing, disk, root, depth) is Some
        },
    ensures
        crate::reader::block::run(
            crate::reader::btree::tree_walk_start(addressing, disk(root_block)),
            tree_walk_resumption(),
            disk,
            reads,
        ) == crate::reader::block::StepView::<TreeWalkView, _>::Done(
            Ok(
                leaves_below(
                    addressing,
                    disk,
                    crate::reader::block::checked_outcome(disk(root_block))->Ok_0,
                    depth,
                )->0,
            ),
        ),
{
    let root = crate::reader::block::checked_outcome(disk(root_block))->Ok_0;
    let walk = TreeWalkView {
        addressing,
        stack: seq![root],
        pending: Seq::empty(),
        leaves: Seq::empty(),
    };
    let reads = lemma_walk_node(walk, disk, depth);
    let leaves = leaves_below(addressing, disk, root, depth)->0;
    assert(Seq::<OwnedEntry>::empty() + leaves =~= leaves);
    reads
}

/// The same children are found through two object maps that differ only in
/// mappings newer than the bound.
proof fn lemma_frozen_children(
    values: Seq<(ObjectMapKey, ObjectMapValue)>,
    others: Seq<(ObjectMapKey, ObjectMapValue)>,
    max_transaction_id: u64,
    missing: MissingChild,
    disk: spec_fn(u64) -> Result<Decoded<OwnedBTreeNode>, ApfsError>,
    entries: Seq<OwnedEntry>,
)
    requires
        mappings_until(values, max_transaction_id) == mappings_until(others, max_transaction_id),
    ensures
        child_nodes(
            AddressingView::Virtual { values, max_transaction_id, missing },
            disk,
            entries,
        ) == child_nodes(
            AddressingView::Virtual { values: others, max_transaction_id, missing },
            disk,
            entries,
        ),
    decreases entries.len(),
{
    if entries.len() > 0 {
        let oid = crate::types::bytes::u64_at(entries.last().value@, 0);
        crate::reader::object_map::law_later_mappings_do_not_matter(
            values,
            oid,
            max_transaction_id,
        );
        crate::reader::object_map::law_later_mappings_do_not_matter(
            others,
            oid,
            max_transaction_id,
        );
        lemma_frozen_children(
            values,
            others,
            max_transaction_id,
            missing,
            disk,
            entries.drop_last(),
        );
    }
}

/// The mappings of an object map that are not newer than the bound.
pub open spec fn mappings_until(
    values: Seq<(ObjectMapKey, ObjectMapValue)>,
    max_transaction_id: u64,
) -> Seq<(ObjectMapKey, ObjectMapValue)> {
    values.filter(|entry: (ObjectMapKey, ObjectMapValue)| entry.0.xid <= max_transaction_id)
}

/// [`law_snapshot_is_frozen`] for several nodes.
proof fn lemma_frozen_nodes(
    values: Seq<(ObjectMapKey, ObjectMapValue)>,
    others: Seq<(ObjectMapKey, ObjectMapValue)>,
    max_transaction_id: u64,
    missing: MissingChild,
    disk: spec_fn(u64) -> Result<Decoded<OwnedBTreeNode>, ApfsError>,
    nodes: Seq<OwnedBTreeNode>,
    depth: nat,
)
    requires
        mappings_until(values, max_transaction_id) == mappings_until(others, max_transaction_id),
    ensures
        leaves_below_all(
            AddressingView::Virtual { values, max_transaction_id, missing },
            disk,
            nodes,
            depth,
        ) == leaves_below_all(
            AddressingView::Virtual { values: others, max_transaction_id, missing },
            disk,
            nodes,
            depth,
        ),
    decreases depth, nodes.len() + 1,
{
    if nodes.len() > 0 {
        law_snapshot_is_frozen(values, others, max_transaction_id, missing, disk, nodes[0], depth);
        lemma_frozen_nodes(
            values,
            others,
            max_transaction_id,
            missing,
            disk,
            nodes.drop_first(),
            depth,
        );
    }
}

/// A tree that is read as of a transaction does not change when later
/// transactions add mappings to its object map: what is below a node stays the
/// same for every object map that agrees on the mappings up to the bound.
pub proof fn law_snapshot_is_frozen(
    values: Seq<(ObjectMapKey, ObjectMapValue)>,
    others: Seq<(ObjectMapKey, ObjectMapValue)>,
    max_transaction_id: u64,
    missing: MissingChild,
    disk: spec_fn(u64) -> Result<Decoded<OwnedBTreeNode>, ApfsError>,
    node: OwnedBTreeNode,
    depth: nat,
)
    requires
        mappings_until(values, max_transaction_id) == mappings_until(others, max_transaction_id),
    ensures
        leaves_below(
            AddressingView::Virtual { values, max_transaction_id, missing },
            disk,
            node,
            depth,
        ) == leaves_below(
            AddressingView::Virtual { values: others, max_transaction_id, missing },
            disk,
            node,
            depth,
        ),
    decreases depth, 0nat,
{
    if let (Ok(false), Ok(entries)) = (node.is_leaf, node.entries) {
        lemma_frozen_children(values, others, max_transaction_id, missing, disk, entries@);
        if depth > 0 {
            let addressing = AddressingView::Virtual { values, max_transaction_id, missing };
            if let Some(children) = child_nodes(addressing, disk, entries@) {
                lemma_frozen_nodes(
                    values,
                    others,
                    max_transaction_id,
                    missing,
                    disk,
                    children,
                    (depth - 1) as nat,
                );
            }
        }
    }
}

/// Which block an entry of an inner node names. Its value starts with a number
/// in little-endian order. In a physical tree that is the block; in a virtual
/// one it is looked up in the object map. A child that is not there ends the
/// walk or is left out, as the walk was told.
pub proof fn law_children_are_addressed(
    values: Seq<(ObjectMapKey, ObjectMapValue)>,
    max_transaction_id: u64,
    value: Seq<u8>,
)
    ensures
        value.len() < 8 ==> forall|addressing: AddressingView|
            (#[trigger] crate::reader::btree::child_block(addressing, value)) == Err::<
                Option<u64>,
                ApfsError,
            >(ApfsError::InputTooSmall),
        value.len() >= 8 ==> {
            let number = value[0] + 0x100 * value[1] + 0x1_0000 * value[2] + 0x100_0000 * value[3]
                + 0x1_0000_0000 * value[4] + 0x100_0000_0000 * value[5] + 0x1_0000_0000_0000
                * value[6] + 0x100_0000_0000_0000 * value[7];
            &&& crate::reader::btree::child_block(AddressingView::Physical, value) == Ok::<
                Option<u64>,
                ApfsError,
            >(Some(number as u64))
            &&& match crate::reader::object_map::resolved(
                values,
                number as u64,
                max_transaction_id,
            ) {
                Some(entry) => forall|missing: MissingChild|
                    (#[trigger] crate::reader::btree::child_block(
                        AddressingView::Virtual { values, max_transaction_id, missing },
                        value,
                    )) == Ok::<Option<u64>, ApfsError>(Some(entry.1.address)),
                None => {
                    &&& crate::reader::btree::child_block(
                        AddressingView::Virtual {
                            values,
                            max_transaction_id,
                            missing: MissingChild::Fail,
                        },
                        value,
                    ) == Err::<Option<u64>, ApfsError>(
                        ApfsError::InvalidValue("virtual B-tree child object not found"),
                    )
                    &&& crate::reader::btree::child_block(
                        AddressingView::Virtual {
                            values,
                            max_transaction_id,
                            missing: MissingChild::Skip,
                        },
                        value,
                    ) == Ok::<Option<u64>, ApfsError>(None)
                },
            }
        },
{
    if value.len() >= 8 {
        crate::types::bytes::law_fields_are_little_endian(value, 0);
    }
}

/// A tree that is one leaf gives the entries of that leaf, with no other block
/// read.
pub proof fn law_a_leaf_gives_its_entries(
    addressing: AddressingView,
    block: Decoded<OwnedBTreeNode>,
    root: OwnedBTreeNode,
    entries: Vec<OwnedEntry>,
)
    requires
        block.checksum is Ok,
        block.parsed == Ok::<OwnedBTreeNode, ApfsError>(root),
        root.tree_info is Ok,
        root.is_leaf == Ok::<bool, ApfsError>(true),
        root.entries == Ok::<Vec<OwnedEntry>, ApfsError>(entries),
    ensures
        crate::reader::btree::tree_walk_start(addressing, Ok(block))
            == crate::reader::block::StepView::<TreeWalkView, _>::Done(Ok(entries@)),
{
    reveal_with_fuel(crate::reader::btree::tree_walk_step, 3);
    let walk = TreeWalkView {
        addressing,
        stack: seq![root],
        pending: Seq::empty(),
        leaves: Seq::empty(),
    };
    let done = TreeWalkView {
        addressing,
        stack: walk.stack.drop_last(),
        pending: Seq::empty(),
        leaves: walk.leaves + entries@,
    };
    assert(walk.stack.last() == root);
    assert(done.stack.len() == 0);
    assert(done.leaves =~= entries@);
}

/// The children of an inner node are what the blocks that its entries name
/// hold, in the order of the entries.
pub proof fn law_children_come_in_the_order_of_the_entries(
    addressing: AddressingView,
    disk: spec_fn(u64) -> Result<Decoded<OwnedBTreeNode>, ApfsError>,
    entries: Seq<OwnedEntry>,
    blocks: Seq<u64>,
    nodes: Seq<OwnedBTreeNode>,
)
    requires
        blocks.len() == entries.len(),
        nodes.len() == entries.len(),
        forall|i: int|
            0 <= i < entries.len() ==> crate::reader::btree::child_block(
                addressing,
                (#[trigger] entries[i]).value@,
            ) == Ok::<Option<u64>, ApfsError>(Some(blocks[i])),
        forall|i: int|
            0 <= i < blocks.len() ==> (disk(#[trigger] blocks[i]) matches Ok(block)
                && block.checksum is Ok && block.parsed == Ok::<OwnedBTreeNode, ApfsError>(
                nodes[i],
            )),
    ensures
        child_nodes(addressing, disk, entries) == Some(nodes),
    decreases entries.len(),
{
    if entries.len() > 0 {
        let last = entries.len() - 1;
        let fewer = entries.drop_last();
        assert forall|i: int| 0 <= i < fewer.len() implies crate::reader::btree::child_block(
            addressing,
            (#[trigger] fewer[i]).value@,
        ) == Ok::<Option<u64>, ApfsError>(Some(blocks.drop_last()[i])) by {
            assert(fewer[i] == entries[i]);
        }
        assert forall|i: int| 0 <= i < blocks.drop_last().len() implies (disk(
            #[trigger] blocks.drop_last()[i],
        ) matches Ok(block) && block.checksum is Ok && block.parsed == Ok::<
            OwnedBTreeNode,
            ApfsError,
        >(nodes.drop_last()[i])) by {
            assert(blocks.drop_last()[i] == blocks[i]);
        }
        law_children_come_in_the_order_of_the_entries(
            addressing,
            disk,
            fewer,
            blocks.drop_last(),
            nodes.drop_last(),
        );
        assert(entries[last] == entries.last());
        assert(disk(blocks[last]) is Ok);
        assert(nodes.drop_last().push(nodes[last]) =~= nodes);
    } else {
        assert(nodes =~= Seq::empty());
    }
}

/// The leaf entries below an inner node are those below its children, one
/// child after the other, and none else.
pub proof fn law_leaves_of_an_inner_node(
    addressing: AddressingView,
    disk: spec_fn(u64) -> Result<Decoded<OwnedBTreeNode>, ApfsError>,
    node: OwnedBTreeNode,
    entries: Vec<OwnedEntry>,
    nodes: Seq<OwnedBTreeNode>,
    leaves: Seq<Seq<OwnedEntry>>,
    depth: nat,
)
    requires
        node.is_leaf == Ok::<bool, ApfsError>(false),
        node.entries == Ok::<Vec<OwnedEntry>, ApfsError>(entries),
        child_nodes(addressing, disk, entries@) == Some(nodes),
        leaves.len() == nodes.len(),
        forall|i: int|
            0 <= i < nodes.len() ==> leaves_below(addressing, disk, #[trigger] nodes[i], depth)
                == Some(leaves[i]),
    ensures
        leaves_below(addressing, disk, node, depth + 1) == Some(leaves.flatten()),
{
    lemma_leaves_of_nodes(addressing, disk, nodes, leaves, depth);
}

/// The leaf entries below several nodes are those below each, one node after
/// the other.
proof fn lemma_leaves_of_nodes(
    addressing: AddressingView,
    disk: spec_fn(u64) -> Result<Decoded<OwnedBTreeNode>, ApfsError>,
    nodes: Seq<OwnedBTreeNode>,
    leaves: Seq<Seq<OwnedEntry>>,
    depth: nat,
)
    requires
        leaves.len() == nodes.len(),
        forall|i: int|
            0 <= i < nodes.len() ==> leaves_below(addressing, disk, #[trigger] nodes[i], depth)
                == Some(leaves[i]),
    ensures
        leaves_below_all(addressing, disk, nodes, depth) == Some(leaves.flatten()),
    decreases nodes.len(),
{
    if nodes.len() > 0 {
        let rest = nodes.drop_first();
        assert forall|i: int| 0 <= i < rest.len() implies leaves_below(
            addressing,
            disk,
            #[trigger] rest[i],
            depth,
        ) == Some(leaves.drop_first()[i]) by {
            assert(rest[i] == nodes[i + 1]);
        }
        lemma_leaves_of_nodes(addressing, disk, rest, leaves.drop_first(), depth);
        assert(leaves_below(addressing, disk, nodes[0], depth) == Some(leaves[0]));
    }
}

/// What goes wrong ends a walk, and is what the walk ends with: a block that
/// cannot be read, does not check out or does not decode; a root that is none;
/// a child that cannot be addressed; a node whose kind or entries cannot be
/// read.
pub proof fn law_what_goes_wrong_ends_a_walk(
    addressing: AddressingView,
    walk: TreeWalkView,
    block: Decoded<OwnedBTreeNode>,
    wrong: ApfsError,
)
    ensures
        ({
            let failed = crate::reader::block::StepView::<TreeWalkView, Seq<OwnedEntry>>::Done(
                Err(wrong),
            );
            &&& crate::reader::btree::tree_walk_start(addressing, Err(wrong)) == failed
            &&& crate::reader::btree::tree_walk_resume(walk, Err(wrong)) == failed
            &&& block.checksum == Err::<(), ApfsError>(wrong) ==> {
                &&& crate::reader::btree::tree_walk_start(addressing, Ok(block)) == failed
                &&& crate::reader::btree::tree_walk_resume(walk, Ok(block)) == failed
            }
            &&& block.checksum is Ok && block.parsed == Err::<OwnedBTreeNode, ApfsError>(wrong)
                ==> {
                &&& crate::reader::btree::tree_walk_start(addressing, Ok(block)) == failed
                &&& crate::reader::btree::tree_walk_resume(walk, Ok(block)) == failed
            }
            &&& block.checksum is Ok && block.parsed is Ok && (
            block.parsed->Ok_0.tree_info matches Err(error) && error == wrong)
                ==> crate::reader::btree::tree_walk_start(addressing, Ok(block)) == failed
            &&& walk.pending.len() > 0 && crate::reader::btree::child_block(
                walk.addressing,
                walk.pending.last().value@,
            ) == Err::<Option<u64>, ApfsError>(wrong) ==> crate::reader::btree::tree_walk_step(
                walk,
            ) == failed
            &&& walk.pending.len() == 0 && walk.stack.len() > 0 && walk.stack.last().is_leaf
                == Err::<bool, ApfsError>(wrong) ==> crate::reader::btree::tree_walk_step(walk)
                == failed
            &&& walk.pending.len() == 0 && walk.stack.len() > 0 && walk.stack.last().is_leaf is Ok
                && (walk.stack.last().entries matches Err(error) && error == wrong)
                ==> crate::reader::btree::tree_walk_step(walk) == failed
        }),
{
}

/// How a tree names its children is shown as it is.
pub proof fn law_addressing_is_shown_whole(addressing: Addressing)
    ensures
        match addressing {
            Addressing::Physical => addressing@ == AddressingView::Physical,
            Addressing::Virtual { values, max_transaction_id, missing } => addressing@ == (
            AddressingView::Virtual { values: values@, max_transaction_id, missing }),
        },
{
}

} // verus!
