//! What the walks ask for and what they are handed.

use crate::error::ApfsError;
use vstd::prelude::*;

verus! {

/// A container block that was read.
pub struct Decoded<T> {
    /// The bytes of the block.
    pub data: Vec<u8>,
    /// Whether the checksum in the object header matches the bytes.
    pub checksum: Result<(), ApfsError>,
    /// The structure that the bytes hold.
    pub parsed: Result<T, ApfsError>,
}

/// Where a walk stands.
pub enum Step<S, R> {
    /// The walk wants a container block. It goes on when `state` is handed
    /// what was read.
    Read {
        /// The physical block to read.
        block: u64,
        /// The walk itself.
        state: S,
    },
    /// The walk is over.
    Done(Result<R, ApfsError>),
}

/// What a [`Step`] holds.
#[verifier::ext_equal]
pub enum StepView<S, R> {
    /// The walk wants a container block.
    Read {
        /// The physical block to read.
        block: u64,
        /// The walk itself.
        state: S,
    },
    /// The walk is over.
    Done(Result<R, ApfsError>),
}

impl<S: View, R: View> View for Step<S, R> {
    type V = StepView<S::V, R::V>;

    open spec fn view(&self) -> StepView<S::V, R::V> {
        match self {
            Step::Read { block, state } => StepView::Read { block: *block, state: state@ },
            Step::Done(Ok(result)) => StepView::Done(Ok(result@)),
            Step::Done(Err(error)) => StepView::Done(Err(*error)),
        }
    }
}

/// Where a walk stands after `reads` more reads, or where it ended before
/// that, when reading block `b` always gives `disk(b)`.
pub open spec fn run<S, E, R>(
    step: StepView<S, R>,
    resume: spec_fn(S, E) -> StepView<S, R>,
    disk: spec_fn(u64) -> E,
    reads: nat,
) -> StepView<S, R>
    decreases reads,
{
    match step {
        StepView::Done(_) => step,
        StepView::Read { block, state } => if reads == 0 {
            step
        } else {
            run(resume(state, disk(block)), resume, disk, (reads - 1) as nat)
        },
    }
}

/// A run of so many reads and then more is one run.
pub proof fn lemma_run_on<S, E, R>(
    step: StepView<S, R>,
    resume: spec_fn(S, E) -> StepView<S, R>,
    disk: spec_fn(u64) -> E,
    reads: nat,
    more: nat,
)
    ensures
        run(run(step, resume, disk, reads), resume, disk, more) == run(
            step,
            resume,
            disk,
            reads + more,
        ),
    decreases reads,
{
    if let StepView::Read { block, state } = step {
        if reads > 0 {
            lemma_run_on(resume(state, disk(block)), resume, disk, (reads - 1) as nat, more);
        }
    }
}

/// What a block gives that has to be readable, intact and well formed.
pub open spec fn checked_outcome<T>(reply: Result<Decoded<T>, ApfsError>) -> Result<T, ApfsError> {
    match reply {
        Err(error) => Err(error),
        Ok(block) => match block.checksum {
            Err(error) => Err(error),
            Ok(_) => block.parsed,
        },
    }
}

/// Takes the structure out of a block that has to be readable, intact and
/// well formed.
pub fn checked<T>(reply: Result<Decoded<T>, ApfsError>) -> (r: Result<T, ApfsError>)
    ensures
        r == checked_outcome(reply),
{
    match reply {
        Err(error) => Err(error),
        Ok(block) => match block.checksum {
            Err(error) => Err(error),
            Ok(_) => block.parsed,
        },
    }
}

/// A block is taken for what it holds only when it could be read, its checksum
/// matches and its contents are sound; otherwise the first of these that fails
/// is the error.
pub proof fn law_blocks_are_checked<T>(block: Decoded<T>, error: ApfsError)
    ensures
        checked_outcome::<T>(Err(error)) == Err::<T, ApfsError>(error),
        block.checksum matches Err(wrong) ==> checked_outcome(Ok(block)) == Err::<T, ApfsError>(
            wrong,
        ),
        block.checksum is Ok ==> checked_outcome(Ok(block)) == block.parsed,
{
}

/// A step is shown as it is: the block that is wanted, or the result.
pub proof fn law_steps_are_shown_whole<S: View, R: View>(step: Step<S, R>)
    ensures
        match step {
            Step::Read { block, state } => step@ == StepView::<S::V, R::V>::Read {
                block,
                state: state@,
            },
            Step::Done(Ok(result)) => step@ == StepView::<S::V, R::V>::Done(Ok(result@)),
            Step::Done(Err(error)) => step@ == StepView::<S::V, R::V>::Done(Err(error)),
        },
{
}

} // verus!
