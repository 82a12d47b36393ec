//! Reading an object that may be ephemeral.
//!
//! The superblock names such an object by an identifier that is a physical
//! block address when the object is in place. Otherwise a checkpoint maps the
//! identifier to a block.

use crate::error::ApfsError;
use crate::reader::block::{checked, Decoded};
use crate::reader::container::Container;
use crate::types::container::{CheckpointMapping, ContainerSuperblock};
use crate::types::object_map::ObjectMapBlock;
use vstd::prelude::*;

verus! {

/// What to do about an object that is not in place and that no checkpoint
/// maps.
#[derive(Debug, Clone, Copy, PartialEq, Eq)]
pub enum Unmapped {
    /// Read it in place again, and report what is wrong with it then.
    ReadAgain,
    /// Report what was wrong with it in place.
    Fail,
}

/// A read of an object that waits for a block.
pub struct EphemeralRead {
    oid: u64,
    unmapped: Unmapped,
    in_place: bool,
}

/// A read of an object that waits for what the checkpoint maps it to.
pub struct MappingWanted {
    oid: u64,
    unmapped: Unmapped,
    error: ApfsError,
}

/// What an [`EphemeralRead`] holds.
#[verifier::ext_equal]
pub struct EphemeralReadView {
    /// Identifier of the object.
    pub oid: u64,
    /// What to do when it is not mapped.
    pub unmapped: Unmapped,
    /// Whether the block is that of the object in place.
    pub in_place: bool,
}

/// What a [`MappingWanted`] holds.
#[verifier::ext_equal]
pub struct MappingWantedView {
    /// Identifier of the object.
    pub oid: u64,
    /// What to do when it is not mapped.
    pub unmapped: Unmapped,
    /// What was wrong with it in place.
    pub error: ApfsError,
}

impl View for EphemeralRead {
    type V = EphemeralReadView;

    closed spec fn view(&self) -> EphemeralReadView {
        EphemeralReadView { oid: self.oid, unmapped: self.unmapped, in_place: self.in_place }
    }
}

impl View for MappingWanted {
    type V = MappingWantedView;

    closed spec fn view(&self) -> MappingWantedView {
        MappingWantedView { oid: self.oid, unmapped: self.unmapped, error: self.error }
    }
}

/// Where reading an object stands.
pub enum EphemeralStep<T> {
    /// A container block is wanted.
    Read {
        /// The physical block to read.
        block: u64,
        /// What goes on when it is handed what was read.
        state: EphemeralRead,
    },
    /// What the checkpoint maps the object to is wanted.
    FindMapping {
        /// Identifier of the object.
        oid: u64,
        /// What goes on when it is handed what was found.
        state: MappingWanted,
    },
    /// The read is over.
    Done(Result<T, ApfsError>),
}

/// What an [`EphemeralStep`] holds.
#[verifier::ext_equal]
pub enum EphemeralStepView<T> {
    /// A container block is wanted.
    Read {
        /// The physical block to read.
        block: u64,
        /// The read itself.
        state: EphemeralReadView,
    },
    /// What the checkpoint maps the object to is wanted.
    FindMapping {
        /// Identifier of the object.
        oid: u64,
        /// The read itself.
        state: MappingWantedView,
    },
    /// The read is over.
    Done(Result<T, ApfsError>),
}

impl<T> View for EphemeralStep<T> {
    type V = EphemeralStepView<T>;

    open spec fn view(&self) -> EphemeralStepView<T> {
        match self {
            EphemeralStep::Read { block, state } => EphemeralStepView::Read {
                block: *block,
                state: state@,
            },
            EphemeralStep::FindMapping { oid, state } => EphemeralStepView::FindMapping {
                oid: *oid,
                state: state@,
            },
            EphemeralStep::Done(result) => EphemeralStepView::Done(*result),
        }
    }
}

/// How a read of the object `oid` starts: in place.
pub open spec fn ephemeral_start<T>(oid: u64, unmapped: Unmapped) -> EphemeralStepView<T> {
    EphemeralStepView::Read {
        block: oid,
        state: EphemeralReadView { oid, unmapped, in_place: true },
    }
}

/// What a read does when it is handed what was read.
pub open spec fn ephemeral_resume<T>(
    read: EphemeralReadView,
    reply: Result<Decoded<T>, ApfsError>,
) -> EphemeralStepView<T> {
    match crate::reader::block::checked_outcome(reply) {
        Err(error) => if read.in_place {
            EphemeralStepView::FindMapping {
                oid: read.oid,
                state: MappingWantedView { oid: read.oid, unmapped: read.unmapped, error },
            }
        } else {
            EphemeralStepView::Done(Err(error))
        },
        Ok(value) => EphemeralStepView::Done(Ok(value)),
    }
}

/// What a read does when it is handed what the checkpoint maps the object to.
pub open spec fn mapping_resume<T>(
    wanted: MappingWantedView,
    found: Result<Option<CheckpointMapping>, ApfsError>,
) -> EphemeralStepView<T> {
    let elsewhere = EphemeralReadView {
        oid: wanted.oid,
        unmapped: wanted.unmapped,
        in_place: false,
    };
    match found {
        Err(error) => EphemeralStepView::Done(Err(error)),
        Ok(Some(mapping)) => EphemeralStepView::Read { block: mapping.address, state: elsewhere },
        Ok(None) => match wanted.unmapped {
            Unmapped::ReadAgain => EphemeralStepView::Read { block: wanted.oid, state: elsewhere },
            Unmapped::Fail => EphemeralStepView::Done(Err(wanted.error)),
        },
    }
}

impl<D> Container<D> {
    /// Reads the container object map block referenced by a superblock.
    pub fn object_map(&self, superblock: &ContainerSuperblock) -> (step: EphemeralStep<
        ObjectMapBlock,
    >)
        ensures
            step@ == ephemeral_start::<ObjectMapBlock>(
                superblock.object_map_oid,
                Unmapped::ReadAgain,
            ),
    {
        let oid: u64 = superblock.object_map_oid;
        let state = EphemeralRead { oid, unmapped: Unmapped::ReadAgain, in_place: true };
        EphemeralStep::Read { block: oid, state }
    }

    /// Reads the raw bytes of the container's space manager block, resolving
    /// the ephemeral object mapping when the OID isn't a direct physical
    /// block address.
    pub fn space_manager_block_data(&self, superblock: &ContainerSuperblock) -> (step:
        EphemeralStep<Vec<u8>>)
        ensures
            step@ == ephemeral_start::<Vec<u8>>(superblock.space_manager_oid, Unmapped::Fail),
    {
        let oid: u64 = superblock.space_manager_oid;
        let state = EphemeralRead { oid, unmapped: Unmapped::Fail, in_place: true };
        EphemeralStep::Read { block: oid, state }
    }
}

impl EphemeralRead {
    /// Goes on with what was read.
    pub fn resume<T>(self, reply: Result<Decoded<T>, ApfsError>) -> (step: EphemeralStep<T>)
        ensures
            step@ == ephemeral_resume(self@, reply),
    {
        match checked(reply) {
            Err(error) => if self.in_place {
                let state = MappingWanted { oid: self.oid, unmapped: self.unmapped, error };
                EphemeralStep::FindMapping { oid: self.oid, state }
            } else {
                EphemeralStep::Done(Err(error))
            },
            Ok(value) => EphemeralStep::Done(Ok(value)),
        }
    }
}

impl MappingWanted {
    /// Goes on with what was found.
    pub fn resume<T>(self, found: Result<Option<CheckpointMapping>, ApfsError>) -> (step:
        EphemeralStep<T>)
        ensures
            step@ == mapping_resume::<T>(self@, found),
    {
        let state = EphemeralRead { oid: self.oid, unmapped: self.unmapped, in_place: false };
        match found {
            Err(error) => EphemeralStep::Done(Err(error)),
            Ok(Some(mapping)) => EphemeralStep::Read { block: mapping.address, state },
            Ok(None) => match self.unmapped {
                Unmapped::ReadAgain => EphemeralStep::Read { block: self.oid, state },
                Unmapped::Fail => EphemeralStep::Done(Err(self.error)),
            },
        }
    }
}

/// Where a read stands after so many more steps, or where it ended before
/// that, when reading block `b` always gives `disk(b)` and the checkpoint maps
/// the object to `found`.
pub open spec fn ephemeral_run<T>(
    step: EphemeralStepView<T>,
    disk: spec_fn(u64) -> Result<Decoded<T>, ApfsError>,
    found: Result<Option<CheckpointMapping>, ApfsError>,
    steps: nat,
) -> EphemeralStepView<T>
    decreases steps,
{
    if steps == 0 {
        step
    } else {
        let next = match step {
            EphemeralStepView::Read { block, state } => ephemeral_resume(state, disk(block)),
            EphemeralStepView::FindMapping { state, .. } => mapping_resume(state, found),
            EphemeralStepView::Done(_) => step,
        };
        ephemeral_run(next, disk, found, (steps - 1) as nat)
    }
}

/// On a disk that does not change, a read ends after at most two blocks and
/// one look at the checkpoint. An object that is in place is taken from there
/// whatever the checkpoint says; one that is not is taken from where the
/// checkpoint maps it to; and one that is nowhere is reported by what is wrong
/// with it in place.
pub proof fn law_objects_are_found_in_place_or_mapped<T>(
    oid: u64,
    unmapped: Unmapped,
    disk: spec_fn(u64) -> Result<Decoded<T>, ApfsError>,
    found: Result<Option<CheckpointMapping>, ApfsError>,
)
    ensures
        ephemeral_run(ephemeral_start::<T>(oid, unmapped), disk, found, 3)
            == EphemeralStepView::Done(
            match (crate::reader::block::checked_outcome(disk(oid)), found) {
                (Ok(value), _) => Ok(value),
                (Err(_), Err(error)) => Err(error),
                (Err(_), Ok(Some(mapping))) => crate::reader::block::checked_outcome(
                    disk(mapping.address),
                ),
                (Err(error), Ok(None)) => Err(error),
            },
        ),
{
    reveal_with_fuel(ephemeral_run, 4);
}

/// What a read asks for and when. It reads the block with the object's number.
/// When that is not the object, it asks what the checkpoint maps that number
/// to, and reads there. Without a mapping it either reads the block once more,
/// or fails with what was wrong with it. A second failure ends the read.
pub proof fn law_what_a_read_asks_for<T>(
    oid: u64,
    unmapped: Unmapped,
    first: ApfsError,
    second: ApfsError,
    mapping: CheckpointMapping,
)
    ensures
        match ephemeral_start::<T>(oid, unmapped) {
            EphemeralStepView::Read { block, state } => {
                &&& block == oid
                &&& match ephemeral_resume::<T>(state, Err(first)) {
                    EphemeralStepView::FindMapping { oid: asked, state: wanted } => {
                        &&& asked == oid
                        &&& match mapping_resume::<T>(wanted, Ok(Some(mapping))) {
                            EphemeralStepView::Read { block: mapped, state: again } => {
                                &&& mapped == mapping.address
                                &&& ephemeral_resume::<T>(again, Err(second))
                                    == EphemeralStepView::<T>::Done(Err(second))
                            },
                            _ => false,
                        }
                        &&& unmapped is Fail ==> mapping_resume::<T>(wanted, Ok(None))
                            == EphemeralStepView::<T>::Done(Err(first))
                        &&& unmapped is ReadAgain ==> match mapping_resume::<T>(
                            wanted,
                            Ok(None),
                        ) {
                            EphemeralStepView::Read { block: same, state: again } => {
                                &&& same == oid
                                &&& ephemeral_resume::<T>(again, Err(second))
                                    == EphemeralStepView::<T>::Done(Err(second))
                            },
                            _ => false,
                        }
                        &&& mapping_resume::<T>(wanted, Err(second)) == EphemeralStepView::<
                            T,
                        >::Done(Err(second))
                    },
                    _ => false,
                }
            },
            _ => false,
        },
{
}

/// A step is shown as it is: the block or the mapping that is wanted, or the
/// result.
pub proof fn law_ephemeral_steps_are_shown_whole<T>(step: EphemeralStep<T>)
    ensures
        match step {
            EphemeralStep::Read { block, state } => step@ == EphemeralStepView::<T>::Read {
                block,
                state: state@,
            },
            EphemeralStep::FindMapping { oid, state } => step@ == EphemeralStepView::<
                T,
            >::FindMapping { oid, state: state@ },
            EphemeralStep::Done(result) => step@ == EphemeralStepView::<T>::Done(result),
        },
{
}

} // verus!
