//! Walking B-trees.

use crate::error::ApfsError;
use crate::reader::block::{checked, Decoded, Step};
use crate::reader::container::Container;
use crate::reader::object_map::resolve;
use crate::types::btree::{OwnedBTreeNode, OwnedEntry};
use crate::types::bytes::le_u64;
use crate::types::object_map::{ObjectMapKey, ObjectMapValue};
use vstd::prelude::*;

verus! {

/// What a walk does about a child that its object map does not hold.
#[derive(Debug, Clone, Copy, PartialEq, Eq)]
pub enum MissingChild {
    /// The walk fails.
    Fail,
    /// The walk goes on without the child.
    Skip,
}

/// How the non-leaf nodes of a tree name their children.
pub enum Addressing {
    /// By physical block address.
    Physical,
    /// By virtual object identifier, to be resolved through an object map.
    Virtual {
        /// The values of the object map.
        values: Vec<(ObjectMapKey, ObjectMapValue)>,
        /// The newest transaction to take a mapping from.
        max_transaction_id: u64,
        /// What to do about a child that is not in the object map.
        missing: MissingChild,
    },
}

/// What an [`Addressing`] holds.
#[verifier::ext_equal]
pub enum AddressingView {
    /// By physical block address.
    Physical,
    /// By virtual object identifier.
    Virtual {
        /// The values of the object map.
        values: Seq<(ObjectMapKey, ObjectMapValue)>,
        /// The newest transaction to take a mapping from.
        max_transaction_id: u64,
        /// What to do about a child that is not in the object map.
        missing: MissingChild,
    },
}

impl View for Addressing {
    type V = AddressingView;

    open spec fn view(&self) -> AddressingView {
        match self {
            Addressing::Physical => AddressingView::Physical,
            Addressing::Virtual { values, max_transaction_id, missing } => {
                AddressingView::Virtual {
                    values: values@,
                    max_transaction_id: *max_transaction_id,
                    missing: *missing,
                }
            },
        }
    }
}

/// The block of the child that an entry of a non-leaf node names, or nothing
/// when the child is left out.
pub open spec fn child_block(addressing: AddressingView, value: Seq<u8>) -> Result<
    Option<u64>,
    ApfsError,
> {
    if value.len() < 8 {
        Err(ApfsError::InputTooSmall)
    } else {
        let oid = crate::types::bytes::u64_at(value, 0);
        match addressing {
            AddressingView::Physical => Ok(Some(oid)),
            AddressingView::Virtual { values, max_transaction_id, missing } => {
                match crate::reader::object_map::resolved(values, oid, max_transaction_id) {
                    Some(entry) => Ok(Some(entry.1.address)),
                    None => match missing {
                        MissingChild::Fail => Err(
                            ApfsError::InvalidValue("virtual B-tree child object not found"),
                        ),
                        MissingChild::Skip => Ok(None),
                    },
                }
            },
        }
    }
}

impl Addressing {
    /// Finds the block of a child.
    fn child(&self, value: &[u8]) -> (r: Result<Option<u64>, ApfsError>)
        ensures
            r == child_block(self@, value@),
    {
        let oid: u64 = le_u64(value, 0)?;
        match self {
            Addressing::Physical => Ok(Some(oid)),
            Addressing::Virtual { values, max_transaction_id, missing } => {
                match resolve(values, oid, *max_transaction_id) {
                    Some(entry) => Ok(Some(entry.1.address)),
                    None => match missing {
                        MissingChild::Fail => Err(
                            ApfsError::InvalidValue("virtual B-tree child object not found"),
                        ),
                        MissingChild::Skip => Ok(None),
                    },
                }
            },
        }
    }
}

/// The root of a tree that is to be walked.
pub struct TreeRoot {
    /// The physical block to read the root from.
    pub block: u64,
    /// How the nodes of the tree name their children.
    pub addressing: Addressing,
}

impl<D> Container<D> {
    /// Walks a B-tree for its owned leaf entries in traversal order.
    pub fn btree_leaf_entries(&self, root_physical_block: u64) -> (root: TreeRoot)
        ensures
            root.block == root_physical_block,
            root.addressing@ == AddressingView::Physical,
    {
        TreeRoot { block: root_physical_block, addressing: Addressing::Physical }
    }

    /// Walks a "virtual" B-tree, one whose non-leaf child pointers are
    /// virtual object identifiers that must be resolved through an object
    /// map rather than physical block addresses, for its owned leaf entries in
    /// traversal order.
    ///
    /// The container object map's own tree stores physical child addresses
    /// directly (see [`Self::btree_leaf_entries`]), but volume filesystem
    /// trees (and other per-volume trees reachable through a volume object
    /// map) store virtual OIDs so that copy-on-write snapshots can share
    /// unmodified subtrees. Treating those virtual OIDs as physical block
    /// numbers reads unrelated blocks and typically fails with an "invalid
    /// object type" error on any filesystem tree with more than one node.
    pub fn virtual_btree_leaf_entries(
        &self,
        root_virtual_oid: u64,
        values: Vec<(ObjectMapKey, ObjectMapValue)>,
        max_transaction_id: u64,
    ) -> (r: Result<TreeRoot, ApfsError>)
        ensures
            match crate::reader::object_map::resolved(
                values@,
                root_virtual_oid,
                max_transaction_id,
            ) {
                Some(entry) => {
                    &&& r matches Ok(root)
                    &&& root.block == entry.1.address
                    &&& root.addressing@ == (AddressingView::Virtual {
                        values: values@,
                        max_transaction_id,
                        missing: MissingChild::Fail,
                    })
                },
                None => r == Err::<TreeRoot, ApfsError>(
                    ApfsError::InvalidValue("virtual B-tree root object not found"),
                ),
            },
    {
        match resolve(&values, root_virtual_oid, max_transaction_id) {
            Some(entry) => Ok(
                TreeRoot {
                    block: entry.1.address,
                    addressing: Addressing::Virtual {
                        values,
                        max_transaction_id,
                        missing: MissingChild::Fail,
                    },
                },
            ),
            None => Err(ApfsError::InvalidValue("virtual B-tree root object not found")),
        }
    }
}

/// A walk of a B-tree that collects its leaf entries.
pub struct TreeWalk {
    addressing: Addressing,
    stack: Vec<OwnedBTreeNode>,
    pending: Vec<OwnedEntry>,
    leaves: Vec<OwnedEntry>,
}

/// What a [`TreeWalk`] holds.
#[verifier::ext_equal]
pub struct TreeWalkView {
    /// How children are named.
    pub addressing: AddressingView,
    /// The nodes that were read and not looked into, the next one last.
    pub stack: Seq<OwnedBTreeNode>,
    /// The entries of the node that was looked into last whose children were
    /// not read, the next one last.
    pub pending: Seq<OwnedEntry>,
    /// The leaf entries that were collected.
    pub leaves: Seq<OwnedEntry>,
}

impl View for TreeWalk {
    type V = TreeWalkView;

    closed spec fn view(&self) -> TreeWalkView {
        TreeWalkView {
            addressing: self.addressing@,
            stack: self.stack@,
            pending: self.pending@,
            leaves: self.leaves@,
        }
    }
}

/// What a walk does next. All children of a node are read, the last one
/// first, before the first one is looked into.
pub open spec fn tree_walk_step(walk: TreeWalkView) -> crate::reader::block::StepView<
    TreeWalkView,
    Seq<OwnedEntry>,
>
    decreases walk.stack.len(), walk.pending.len(),
{
    if walk.pending.len() > 0 {
        let rest = TreeWalkView { pending: walk.pending.drop_last(), ..walk };
        match child_block(walk.addressing, walk.pending.last().value@) {
            Err(error) => crate::reader::block::StepView::Done(Err(error)),
            Ok(Some(block)) => crate::reader::block::StepView::Read { block, state: rest },
            Ok(None) => tree_walk_step(rest),
        }
    } else if walk.stack.len() > 0 {
        let node = walk.stack.last();
        let rest = TreeWalkView { stack: walk.stack.drop_last(), ..walk };
        match (node.is_leaf, node.entries) {
            (Err(error), _) => crate::reader::block::StepView::Done(Err(error)),
            (Ok(_), Err(error)) => crate::reader::block::StepView::Done(Err(error)),
            (Ok(true), Ok(entries)) => tree_walk_step(
                TreeWalkView { leaves: walk.leaves + entries@, ..rest },
            ),
            (Ok(false), Ok(entries)) => tree_walk_step(TreeWalkView { pending: entries@, ..rest }),
        }
    } else {
        crate::reader::block::StepView::Done(Ok(walk.leaves))
    }
}

/// How a walk starts from the block of the root.
pub open spec fn tree_walk_start(
    addressing: AddressingView,
    reply: Result<Decoded<OwnedBTreeNode>, ApfsError>,
) -> crate::reader::block::StepView<TreeWalkView, Seq<OwnedEntry>> {
    match crate::reader::block::checked_outcome(reply) {
        Err(error) => crate::reader::block::StepView::Done(Err(error)),
        Ok(root) => match root.tree_info {
            Err(error) => crate::reader::block::StepView::Done(Err(error)),
            Ok(_) => tree_walk_step(
                TreeWalkView {
                    addressing,
                    stack: seq![root],
                    pending: Seq::empty(),
                    leaves: Seq::empty(),
                },
            ),
        },
    }
}

/// What a walk does when it is handed the block of a child.
pub open spec fn tree_walk_resume(
    walk: TreeWalkView,
    reply: Result<Decoded<OwnedBTreeNode>, ApfsError>,
) -> crate::reader::block::StepView<TreeWalkView, Seq<OwnedEntry>> {
    match crate::reader::block::checked_outcome(reply) {
        Err(error) => crate::reader::block::StepView::Done(Err(error)),
        Ok(node) => tree_walk_step(TreeWalkView { stack: walk.stack.push(node), ..walk }),
    }
}

impl TreeRoot {
    /// Goes on with what was read at the block of the root.
    pub fn resume(self, reply: Result<Decoded<OwnedBTreeNode>, ApfsError>) -> (step: Step<
        TreeWalk,
        Vec<OwnedEntry>,
    >)
        ensures
            step@ == tree_walk_start(self.addressing@, reply),
    {
        let root = match checked(reply) {
            Err(error) => return Step::Done(Err(error)),
            Ok(root) => root,
        };
        if let Err(error) = root.tree_info {
            return Step::Done(Err(error));
        }
        let mut stack: Vec<OwnedBTreeNode> = Vec::new();
        stack.push(root);
        assert(stack@ =~= seq![root]);
        TreeWalk {
            addressing: self.addressing,
            stack,
            pending: Vec::new(),
            leaves: Vec::new(),
        }.step()
    }
}

impl TreeWalk {
    fn step(self) -> (step: Step<TreeWalk, Vec<OwnedEntry>>)
        ensures
            step@ == tree_walk_step(self@),
    {
        let mut walk = self;
        loop
            invariant
                tree_walk_step(walk@) == tree_walk_step(self@),
            decreases walk.stack@.len(), walk.pending@.len(),
        {
            if let Some(entry) = walk.pending.pop() {
                match walk.addressing.child(entry.value.as_slice()) {
                    Err(error) => return Step::Done(Err(error)),
                    Ok(Some(block)) => return Step::Read { block, state: walk },
                    Ok(None) => {},
                }
            } else if let Some(node) = walk.stack.pop() {
                let is_leaf: bool = match node.is_leaf {
                    Err(error) => return Step::Done(Err(error)),
                    Ok(is_leaf) => is_leaf,
                };
                let mut entries = match node.entries {
                    Err(error) => return Step::Done(Err(error)),
                    Ok(entries) => entries,
                };
                if is_leaf {
                    walk.leaves.append(&mut entries);
                } else {
                    walk.pending = entries;
                }
            } else {
                return Step::Done(Ok(walk.leaves));
            }
        }
    }

    /// Goes on with what was read.
    pub fn resume(self, reply: Result<Decoded<OwnedBTreeNode>, ApfsError>) -> (step: Step<
        TreeWalk,
        Vec<OwnedEntry>,
    >)
        ensures
            step@ == tree_walk_resume(self@, reply),
    {
        let node = match checked(reply) {
            Err(error) => return Step::Done(Err(error)),
            Ok(node) => node,
        };
        let mut walk = self;
        walk.stack.push(node);
        walk.step()
    }
}

} // verus!
