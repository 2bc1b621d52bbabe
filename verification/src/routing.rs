//! Where an operation goes after a stage has looked at it.

use crate::metrics::{Phase, Tally};
use crate::operation::{Operation, StageResult};
use vstd::prelude::*;

verus! {

/// How long, in milliseconds, the preparation and submission stages rest when
/// their queue gave them nothing.
pub const IDLE_BACKOFF_MS: u64 = 100;

/// How long, in milliseconds, the confirmation stage rests when its queue gave
/// it nothing.
pub const CONFIRM_IDLE_BACKOFF_MS: u64 = 200;

/// How long, in milliseconds, a stage rests after a batch of which no
/// operation made progress.
pub const STALLED_BACKOFF_MS: u64 = 500;

/// A stage that checks a batch of operations and routes each by its result.
#[derive(Clone, Copy, Debug, PartialEq, Eq, Structural)]
pub enum Stage {
    /// The checks before submission.
    Prepare,
    /// The checks for finality after submission.
    Confirm,
}

/// The place that takes an operation after a stage.
#[derive(Clone, Copy, Debug, PartialEq, Eq, Structural)]
pub enum Home {
    /// The queue of the preparation stage.
    PrepareQueue,
    /// The queue of the submission stage.
    SubmitQueue,
    /// The queue of the confirmation stage.
    ConfirmQueue,
    /// None: the operation leaves the scheduler for good.
    Gone,
}

impl Stage {
    /// Where the stage sends an operation for which its check gave `result`.
    pub open spec fn routes(self, result: StageResult) -> Home {
        match (self, result) {
            (Stage::Prepare, StageResult::Success) => Home::SubmitQueue,
            (Stage::Prepare, StageResult::NotReady) => Home::PrepareQueue,
            (Stage::Prepare, StageResult::Reprepare) => Home::PrepareQueue,
            (Stage::Prepare, StageResult::Drop) => Home::Gone,
            (Stage::Prepare, StageResult::Confirm) => Home::ConfirmQueue,
            (Stage::Confirm, StageResult::Success) => Home::Gone,
            (Stage::Confirm, StageResult::NotReady) => Home::ConfirmQueue,
            (Stage::Confirm, StageResult::Confirm) => Home::ConfirmQueue,
            (Stage::Confirm, StageResult::Reprepare) => Home::PrepareQueue,
            (Stage::Confirm, StageResult::Drop) => Home::Gone,
        }
    }

    /// What the stage counts for an operation for which its check gave
    /// `result`, if anything.
    pub open spec fn counts(self, result: StageResult) -> Option<Phase> {
        match (self, result) {
            (Stage::Prepare, StageResult::Success) => Some(Phase::Prepared),
            (Stage::Confirm, StageResult::Success) => Some(Phase::Confirmed),
            (_, StageResult::Reprepare) => Some(Phase::Failed),
            (_, StageResult::Drop) => Some(Phase::Dropped),
            (_, StageResult::NotReady) => None,
            (_, StageResult::Confirm) => None,
        }
    }

    /// Whether `result` means that the operation made no progress in the
    /// stage.
    pub open spec fn stalls(self, result: StageResult) -> bool {
        match self {
            Stage::Prepare => result == StageResult::NotReady || result == StageResult::Reprepare,
            Stage::Confirm => result == StageResult::NotReady || result == StageResult::Confirm,
        }
    }

    /// How long, in milliseconds, the stage rests when its queue gave it
    /// nothing.
    pub open spec fn idle_backoff(self) -> u64 {
        match self {
            Stage::Prepare => IDLE_BACKOFF_MS,
            Stage::Confirm => CONFIRM_IDLE_BACKOFF_MS,
        }
    }

    /// Where the stage sends an operation for which its check gave `result`.
    pub fn route(self, result: StageResult) -> (home: Home)
        ensures
            home == self.routes(result),
    {
        match self {
            Stage::Prepare => match result {
                StageResult::Success => Home::SubmitQueue,
                StageResult::NotReady => Home::PrepareQueue,
                StageResult::Reprepare => Home::PrepareQueue,
                StageResult::Drop => Home::Gone,
                StageResult::Confirm => Home::ConfirmQueue,
            },
            Stage::Confirm => match result {
                StageResult::Success => Home::Gone,
                StageResult::NotReady => Home::ConfirmQueue,
                StageResult::Confirm => Home::ConfirmQueue,
                StageResult::Reprepare => Home::PrepareQueue,
                StageResult::Drop => Home::Gone,
            },
        }
    }

    /// What the stage counts for an operation for which its check gave
    /// `result`, if anything.
    pub fn counted(self, result: StageResult) -> (phase: Option<Phase>)
        ensures
            phase == self.counts(result),
    {
        match result {
            StageResult::Success => match self {
                Stage::Prepare => Some(Phase::Prepared),
                Stage::Confirm => Some(Phase::Confirmed),
            },
            StageResult::Reprepare => Some(Phase::Failed),
            StageResult::Drop => Some(Phase::Dropped),
            StageResult::NotReady => None,
            StageResult::Confirm => None,
        }
    }

    /// Whether `result` means that the operation made no progress in the
    /// stage.
    pub fn is_stalled(self, result: StageResult) -> (stalled: bool)
        ensures
            stalled == self.stalls(result),
    {
        match self {
            Stage::Prepare => match result {
                StageResult::NotReady => true,
                StageResult::Reprepare => true,
                _ => false,
            },
            Stage::Confirm => match result {
                StageResult::NotReady => true,
                StageResult::Confirm => true,
                _ => false,
            },
        }
    }

    /// How long, in milliseconds, the stage rests when its queue gave it
    /// nothing.
    pub fn idle_sleep(self) -> (millis: u64)
        ensures
            millis == self.idle_backoff(),
    {
        match self {
            Stage::Prepare => IDLE_BACKOFF_MS,
            Stage::Confirm => CONFIRM_IDLE_BACKOFF_MS,
        }
    }
}

/// The operations of `batch` that `stage` sends to `home`, given the result of
/// each: in the order of the batch, and each as its result leaves it.
pub open spec fn arrivals(
    stage: Stage,
    batch: Seq<Operation>,
    results: Seq<StageResult>,
    home: Home,
) -> Seq<Operation>
    decreases batch.len(),
{
    if batch.len() == 0 {
        Seq::empty()
    } else {
        let before = arrivals(stage, batch.drop_last(), results.drop_last(), home);
        if stage.routes(results.last()) == home {
            before.push(batch.last().settled(results.last()))
        } else {
            before
        }
    }
}

/// The tally after `stage` has counted one operation for which its check gave
/// `result`.
pub open spec fn tally_with(stage: Stage, tally: Tally, result: StageResult) -> Tally {
    match stage.counts(result) {
        Some(phase) => tally.plus(phase, 1),
        None => tally,
    }
}

/// The tally after `stage` has counted each of `results`.
pub open spec fn tally_after(stage: Stage, tally: Tally, results: Seq<StageResult>) -> Tally
    decreases results.len(),
{
    if results.len() == 0 {
        tally
    } else {
        tally_with(stage, tally_after(stage, tally, results.drop_last()), results.last())
    }
}

/// How many of `results` the stage counts as `phase`.
pub open spec fn occurrences(stage: Stage, results: Seq<StageResult>, phase: Phase) -> nat
    decreases results.len(),
{
    if results.len() == 0 {
        0
    } else {
        occurrences(stage, results.drop_last(), phase) + if stage.counts(results.last()) == Some(
            phase,
        ) {
            1nat
        } else {
            0nat
        }
    }
}

/// Whether no operation of a batch with these results made progress.
pub open spec fn all_stalled(stage: Stage, results: Seq<StageResult>) -> bool {
    forall|i: int| 0 <= i < results.len() ==> stage.stalls(#[trigger] results[i])
}

/// For every phase, the tally after a batch is the tally before it plus the
/// number of results that count as that phase.
pub proof fn lemma_tally_after(stage: Stage, tally: Tally, results: Seq<StageResult>, phase: Phase)
    ensures
        tally_after(stage, tally, results).of(phase) == tally.of(phase) + occurrences(
            stage,
            results,
            phase,
        ),
    decreases results.len(),
{
    if results.len() > 0 {
        lemma_tally_after(stage, tally, results.drop_last(), phase);
    }
}

} // verus!
