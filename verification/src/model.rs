//! The scheduler as a state machine on plain values: what each step of a
//! stage does to the queues, to the operations in flight and to the tally, and
//! what it asks to be done next.

use crate::batch::{batch_call, delayed_all, BatchCallView, BatchOutcome};
use crate::metrics::{Phase, Tally};
use crate::op_queue::{enqueue, enqueue_all, requeued, taken};
use crate::operation::{MessageRetryRequest, Operation, StageResult};
use crate::routing::{all_stalled, arrivals, tally_after, Home, Stage, IDLE_BACKOFF_MS, STALLED_BACKOFF_MS};
use vstd::prelude::*;

verus! {

/// The number of tasks that a scheduler runs: one to receive, one for each of
/// the three stages.
pub const STAGE_TASKS: u8 = 4;

/// Why a step was refused. A refused step changes nothing.
#[derive(Clone, Copy, Debug, PartialEq, Eq, Structural)]
pub enum StageError {
    /// The stage was asked to start a cycle while its last one is in flight.
    Busy,
    /// An outcome was reported for a call that the stage has not asked for.
    NothingInFlight,
    /// The number of results differs from the number of operations checked.
    ResultCount,
}

/// How one of the scheduler's tasks ended.
#[derive(Clone, Copy, Debug, PartialEq, Eq, Structural)]
pub enum TaskExit {
    /// The task returned.
    Finished,
    /// The task died of a fault.
    Panicked,
}

/// What the scheduler does when one of its tasks has ended.
#[derive(Clone, Copy, Debug, PartialEq, Eq, Structural)]
pub enum Supervision {
    /// Other tasks still run: go on waiting.
    Wait,
    /// Give up the scheduler. `failed` says that a task died, which is to be
    /// reported with the scheduler's domain.
    Exit { failed: bool },
}

/// What a checking stage asks for at the start of a cycle.
pub enum StageStep {
    /// Rest for so many milliseconds, then start again.
    Sleep(u64),
    /// Check these operations, all at once, and report every result.
    Run(Seq<Operation>),
}

/// What the submission stage asks for at the start of a cycle.
pub enum SubmitStep {
    /// Rest for so many milliseconds, then start again.
    Sleep(u64),
    /// Submit this one operation.
    Single(Operation),
    /// Submit this one transaction for the whole batch.
    Batch(BatchCallView),
}

/// Something that happens to a scheduler.
pub enum Event {
    /// An operation arrived on the inbound channel.
    Received(Operation),
    /// A retry request arrived.
    RetryRequested(MessageRetryRequest),
    /// A checking stage started a cycle.
    Began(Stage),
    /// The checks of a stage returned these results.
    Checked(Stage, Seq<StageResult>),
    /// The submission stage started a cycle.
    SubmitBegan,
    /// The submission of a single operation returned.
    SubmitReturned,
    /// The one transaction for a batch ended.
    BatchReturned(BatchOutcome),
    /// One of the scheduler's tasks ended.
    TaskEnded(TaskExit),
}

/// The state of a scheduler.
#[verifier::ext_equal]
pub struct PipelineState {
    /// The destination that the scheduler serves.
    pub domain: u32,
    /// The most operations that a stage takes up in one cycle.
    pub max_batch_size: u32,
    /// The operations that wait to be prepared.
    pub prepare_queue: Seq<Operation>,
    /// The operations that wait to be submitted.
    pub submit_queue: Seq<Operation>,
    /// The operations that wait to be confirmed.
    pub confirm_queue: Seq<Operation>,
    /// The operations that the preparation stage is checking.
    pub preparing: Seq<Operation>,
    /// The operations that the submission stage has taken up and not yet
    /// passed on. A call is in flight exactly while there are any.
    pub submitting: Seq<Operation>,
    /// Whether the call in flight is the one transaction for all of
    /// `submitting`; otherwise it is the submission of the first of them.
    pub combined: bool,
    /// The operations that the confirmation stage is checking.
    pub confirming: Seq<Operation>,
    /// What has been counted.
    pub tally: Tally,
    /// How many of the scheduler's tasks have not ended.
    pub running: u8,
}

impl PipelineState {
    /// A scheduler that has just been started: nothing waits, nothing is in
    /// flight, all tasks run.
    pub open spec fn initial(domain: u32, max_batch_size: u32, tally: Tally) -> PipelineState {
        PipelineState {
            domain,
            max_batch_size,
            prepare_queue: Seq::empty(),
            submit_queue: Seq::empty(),
            confirm_queue: Seq::empty(),
            preparing: Seq::empty(),
            submitting: Seq::empty(),
            combined: false,
            confirming: Seq::empty(),
            tally,
            running: STAGE_TASKS,
        }
    }

    /// The state after `op` has arrived: it waits to be prepared.
    pub open spec fn received(self, op: Operation) -> PipelineState {
        PipelineState { prepare_queue: enqueue(self.prepare_queue, op), ..self }
    }

    /// The state after a retry request: every queue has acted on it. What the
    /// stages hold in their hands is not touched.
    pub open spec fn retried(self, request: MessageRetryRequest) -> PipelineState {
        PipelineState {
            prepare_queue: requeued(self.prepare_queue, request),
            submit_queue: requeued(self.submit_queue, request),
            confirm_queue: requeued(self.confirm_queue, request),
            ..self
        }
    }

    /// The queue that `stage` takes its operations from.
    pub open spec fn waiting(self, stage: Stage) -> Seq<Operation> {
        match stage {
            Stage::Prepare => self.prepare_queue,
            Stage::Confirm => self.confirm_queue,
        }
    }

    /// The operations that `stage` is checking.
    pub open spec fn checking(self, stage: Stage) -> Seq<Operation> {
        match stage {
            Stage::Prepare => self.preparing,
            Stage::Confirm => self.confirming,
        }
    }

    /// How many operations a stage takes from a queue in one cycle.
    pub open spec fn cycle_size(self, queue: Seq<Operation>) -> int {
        taken(queue.len(), self.max_batch_size as nat) as int
    }

    /// What `stage` asks for when it starts a cycle: to check the operations
    /// at the front of its queue, or to rest where the queue gives none.
    pub open spec fn begin(self, stage: Stage) -> Result<StageStep, StageError> {
        if self.checking(stage).len() > 0 {
            Err(StageError::Busy)
        } else if self.cycle_size(self.waiting(stage)) == 0 {
            Ok(StageStep::Sleep(stage.idle_backoff()))
        } else {
            Ok(StageStep::Run(self.waiting(stage).take(self.cycle_size(self.waiting(stage)))))
        }
    }

    /// The state after `stage` has started a cycle: the operations that it
    /// checks have left its queue.
    pub open spec fn begun(self, stage: Stage) -> PipelineState {
        if self.checking(stage).len() > 0 {
            self
        } else {
            let count = self.cycle_size(self.waiting(stage));
            match stage {
                Stage::Prepare => PipelineState {
                    prepare_queue: self.prepare_queue.skip(count),
                    preparing: self.prepare_queue.take(count),
                    ..self
                },
                Stage::Confirm => PipelineState {
                    confirm_queue: self.confirm_queue.skip(count),
                    confirming: self.confirm_queue.take(count),
                    ..self
                },
            }
        }
    }

    /// What `stage` answers to the results of its checks: how long to rest
    /// before the next cycle, if at all. It rests where no operation made
    /// progress.
    pub open spec fn settle(self, stage: Stage, results: Seq<StageResult>) -> Result<
        Option<u64>,
        StageError,
    > {
        if self.checking(stage).len() == 0 {
            Err(StageError::NothingInFlight)
        } else if results.len() != self.checking(stage).len() {
            Err(StageError::ResultCount)
        } else if all_stalled(stage, results) {
            Ok(Some(STALLED_BACKOFF_MS))
        } else {
            Ok(None)
        }
    }

    /// The state after `stage` has routed the operations that it checked, each
    /// by its result, and counted them.
    pub open spec fn settled(self, stage: Stage, results: Seq<StageResult>) -> PipelineState {
        if self.settle(stage, results) is Err {
            self
        } else {
            let batch = self.checking(stage);
            PipelineState {
                prepare_queue: enqueue_all(
                    self.prepare_queue,
                    arrivals(stage, batch, results, Home::PrepareQueue),
                ),
                submit_queue: enqueue_all(
                    self.submit_queue,
                    arrivals(stage, batch, results, Home::SubmitQueue),
                ),
                confirm_queue: enqueue_all(
                    self.confirm_queue,
                    arrivals(stage, batch, results, Home::ConfirmQueue),
                ),
                preparing: if stage == Stage::Prepare {
                    Seq::empty()
                } else {
                    self.preparing
                },
                confirming: if stage == Stage::Confirm {
                    Seq::empty()
                } else {
                    self.confirming
                },
                tally: tally_after(stage, self.tally, results),
                ..self
            }
        }
    }

    /// What the submission stage asks for when it starts a cycle. One
    /// operation is submitted on its own. Several go out as one transaction
    /// where there is one for them, and else one by one, the first of them
    /// first.
    pub open spec fn submit_begin(self) -> Result<SubmitStep, StageError> {
        let count = self.cycle_size(self.submit_queue);
        let batch = self.submit_queue.take(count);
        if self.submitting.len() > 0 {
            Err(StageError::Busy)
        } else if count == 0 {
            Ok(SubmitStep::Sleep(IDLE_BACKOFF_MS))
        } else if count == 1 {
            Ok(SubmitStep::Single(batch[0]))
        } else {
            match batch_call(batch) {
                Ok(call) => Ok(SubmitStep::Batch(call)),
                Err(_) => Ok(SubmitStep::Single(batch[0])),
            }
        }
    }

    /// The state after the submission stage has started a cycle.
    pub open spec fn submit_begun(self) -> PipelineState {
        let count = self.cycle_size(self.submit_queue);
        let batch = self.submit_queue.take(count);
        if self.submitting.len() > 0 || count == 0 {
            self
        } else {
            PipelineState {
                submit_queue: self.submit_queue.skip(count),
                submitting: batch,
                combined: count > 1 && batch_call(batch) is Ok,
                ..self
            }
        }
    }

    /// What the submission stage asks for when the submission of a single
    /// operation has returned: the next operation to submit on its own, where
    /// it still holds one.
    pub open spec fn single_submit(self) -> Result<Option<Operation>, StageError> {
        if self.submitting.len() == 0 || self.combined {
            Err(StageError::NothingInFlight)
        } else if self.submitting.len() > 1 {
            Ok(Some(self.submitting[1]))
        } else {
            Ok(None)
        }
    }

    /// The state after the submission of a single operation has returned: the
    /// operation waits to be confirmed and is counted as submitted.
    pub open spec fn single_submitted(self) -> PipelineState {
        if self.single_submit() is Err {
            self
        } else {
            PipelineState {
                confirm_queue: enqueue(self.confirm_queue, self.submitting[0]),
                submitting: self.submitting.skip(1),
                tally: self.tally.plus(Phase::Submitted, 1),
                ..self
            }
        }
    }

    /// What the submission stage asks for when the one transaction for its
    /// batch has ended: nothing where it went out, and where it failed the
    /// first operation of the batch, to be submitted on its own.
    pub open spec fn batch_settle(self, outcome: BatchOutcome) -> Result<
        Option<Operation>,
        StageError,
    > {
        if self.submitting.len() == 0 || !self.combined {
            Err(StageError::NothingInFlight)
        } else if outcome == BatchOutcome::Submitted {
            Ok(None)
        } else {
            Ok(Some(self.submitting[0]))
        }
    }

    /// The state after the one transaction for the batch has ended. Where it
    /// went out, every operation of the batch waits to be confirmed, with the
    /// delay on it, and the batch is counted as submitted. Where it failed,
    /// the stage still holds the whole batch, to submit it one by one.
    pub open spec fn batch_settled(self, outcome: BatchOutcome) -> PipelineState {
        if self.batch_settle(outcome) is Err {
            self
        } else if outcome == BatchOutcome::Submitted {
            PipelineState {
                confirm_queue: enqueue_all(self.confirm_queue, delayed_all(self.submitting)),
                submitting: Seq::empty(),
                combined: false,
                tally: self.tally.plus(Phase::Submitted, self.submitting.len()),
                ..self
            }
        } else {
            PipelineState { combined: false, ..self }
        }
    }

    /// What the scheduler does when one of its tasks has ended: it gives up
    /// at the first task that died, and when the last task has returned.
    pub open spec fn supervise(self, exit: TaskExit) -> Supervision {
        if exit == TaskExit::Panicked {
            Supervision::Exit { failed: true }
        } else if self.running <= 1 {
            Supervision::Exit { failed: false }
        } else {
            Supervision::Wait
        }
    }

    /// The state after one of the scheduler's tasks has ended.
    pub open spec fn supervised(self, exit: TaskExit) -> PipelineState {
        if exit == TaskExit::Panicked || self.running <= 1 {
            PipelineState { running: 0, ..self }
        } else {
            PipelineState { running: (self.running - 1) as u8, ..self }
        }
    }

    /// Whether `event` may happen in this state: an operation that arrives
    /// is bound for the scheduler's domain.
    pub open spec fn admits(self, event: Event) -> bool {
        match event {
            Event::Received(op) => op.destination == self.domain,
            _ => true,
        }
    }

    /// The state after `event`.
    pub open spec fn after(self, event: Event) -> PipelineState {
        match event {
            Event::Received(op) => self.received(op),
            Event::RetryRequested(request) => self.retried(request),
            Event::Began(stage) => self.begun(stage),
            Event::Checked(stage, results) => self.settled(stage, results),
            Event::SubmitBegan => self.submit_begun(),
            Event::SubmitReturned => self.single_submitted(),
            Event::BatchReturned(outcome) => self.batch_settled(outcome),
            Event::TaskEnded(exit) => self.supervised(exit),
        }
    }

    /// Whether the events of `events` may happen one after the other, from
    /// this state on.
    pub open spec fn admits_all(self, events: Seq<Event>) -> bool
        decreases events.len(),
    {
        events.len() > 0 ==> {
            &&& self.admits_all(events.drop_last())
            &&& self.after_all(events.drop_last()).admits(events.last())
        }
    }

    /// The state after the events of `events`, one after the other.
    pub open spec fn after_all(self, events: Seq<Event>) -> PipelineState
        decreases events.len(),
    {
        if events.len() == 0 {
            self
        } else {
            self.after_all(events.drop_last()).after(events.last())
        }
    }
}

} // verus!
