//! The scheduler itself: three queues, the stages that work on them, and the
//! steps that each stage takes between two calls to the outside.
//!
//! Every stage is driven from outside. A task asks its stage what to do,
//! does it (rests, checks a batch, submits), and reports what came of it; the
//! stage answers with the next thing to do. Nothing here waits or calls out.

use crate::batch::{submit_single_operation, BatchCall, BatchOutcome, OperationBatch};
use crate::invariants::{lemma_initial_well_formed, lemma_step_well_formed};
use crate::metrics::{HyperlaneDomain, Phase, QueueLengthGauges, SerialSubmitterMetrics, Tally};
use crate::model::{
    Event, PipelineState, StageError, StageStep, SubmitStep, Supervision, TaskExit, STAGE_TASKS,
};
use crate::op_queue::{enqueue, enqueue_all, taken, OperationQueue, QueueLabel};
use crate::operation::{MessageRetryRequest, Operation, StageResult};
use crate::routing::{
    all_stalled, arrivals, tally_after, tally_with, Home, Stage, IDLE_BACKOFF_MS,
    STALLED_BACKOFF_MS,
};
use vstd::prelude::*;

verus! {

/// What a checking stage asks its task to do.
#[derive(Debug, PartialEq, Eq)]
pub enum StageAction {
    /// Rest for so many milliseconds, then start the next cycle.
    Sleep(u64),
    /// Check these operations, all at once, and report every result, in this
    /// order.
    Run(Vec<Operation>),
}

impl View for StageAction {
    type V = StageStep;

    open spec fn view(&self) -> StageStep {
        match self {
            StageAction::Sleep(millis) => StageStep::Sleep(*millis),
            StageAction::Run(batch) => StageStep::Run(batch@),
        }
    }
}

/// What the submission stage asks its task to do.
#[derive(Debug, PartialEq, Eq)]
pub enum SubmitAction {
    /// Rest for so many milliseconds, then start the next cycle.
    Sleep(u64),
    /// Submit this one operation, and report that it returned.
    Single(Operation),
    /// Submit this one transaction for the whole batch, and report how it
    /// ended.
    Batch(BatchCall),
}

impl View for SubmitAction {
    type V = SubmitStep;

    open spec fn view(&self) -> SubmitStep {
        match self {
            SubmitAction::Sleep(millis) => SubmitStep::Sleep(*millis),
            SubmitAction::Single(op) => SubmitStep::Single(*op),
            SubmitAction::Batch(call) => SubmitStep::Batch(call@),
        }
    }
}

/// What a checking stage answered, as a plain value.
pub open spec fn stage_step(action: Result<StageAction, StageError>) -> Result<
    StageStep,
    StageError,
> {
    match action {
        Ok(asked) => Ok(asked@),
        Err(error) => Err(error),
    }
}

/// What the submission stage answered, as a plain value.
pub open spec fn submit_step(action: Result<SubmitAction, StageError>) -> Result<
    SubmitStep,
    StageError,
> {
    match action {
        Ok(asked) => Ok(asked@),
        Err(error) => Err(error),
    }
}

/// The queue as it is once `stage` has routed `op`, for which its check gave
/// `result`: with the operation added, as the result leaves it, where `home`
/// is the place that takes it.
pub open spec fn routed_to(
    queue: Seq<Operation>,
    home: Home,
    stage: Stage,
    op: Operation,
    result: StageResult,
) -> Seq<Operation> {
    if stage.routes(result) == home {
        enqueue(queue, op.settled(result))
    } else {
        queue
    }
}

/// Routing the first `at + 1` operations of a batch is routing the first `at`
/// of them and then the next one.
proof fn lemma_settle_step(
    queue: Seq<Operation>,
    stage: Stage,
    batch: Seq<Operation>,
    results: Seq<StageResult>,
    home: Home,
    at: int,
)
    requires
        0 <= at < batch.len(),
        batch.len() == results.len(),
    ensures
        enqueue_all(queue, arrivals(stage, batch.take(at + 1), results.take(at + 1), home))
            == routed_to(
            enqueue_all(queue, arrivals(stage, batch.take(at), results.take(at), home)),
            home,
            stage,
            batch[at],
            results[at],
        ),
{
    let before = arrivals(stage, batch.take(at), results.take(at), home);
    assert(batch.take(at + 1).drop_last() =~= batch.take(at));
    assert(results.take(at + 1).drop_last() =~= results.take(at));
    if stage.routes(results[at]) == home {
        let added = batch[at].settled(results[at]);
        assert(before.push(added).drop_last() =~= before);
    }
}

/// A copy of `ops`.
fn copy_operations(ops: &Vec<Operation>) -> (copy: Vec<Operation>)
    ensures
        copy@ == ops@,
{
    let mut copy: Vec<Operation> = Vec::new();
    let mut at: usize = 0;
    while at < ops.len()
        invariant
            at <= ops.len(),
            copy@ == ops@.take(at as int),
        decreases ops.len() - at,
    {
        copy.push(ops[at]);
        assert(ops@.take(at + 1) =~= ops@.take(at as int).push(ops@[at as int]));
        at += 1;
    }
    assert(ops@.take(at as int) =~= ops@);
    copy
}

/// Routes one operation for which the preparation check gave `result`. A
/// prepared operation waits to be submitted; one that is not ready, or that
/// failed, waits to be prepared again; one known to be submitted waits to be
/// confirmed; a dropped one is gone. Successes, failures and drops are
/// counted.
pub fn prepare_operation(
    op: Operation,
    result: StageResult,
    prepare_queue: &mut OperationQueue,
    submit_queue: &mut OperationQueue,
    confirm_queue: &mut OperationQueue,
    metrics: &mut SerialSubmitterMetrics,
)
    ensures
        final(prepare_queue)@ == routed_to(
            old(prepare_queue)@,
            Home::PrepareQueue,
            Stage::Prepare,
            op,
            result,
        ),
        final(submit_queue)@ == routed_to(
            old(submit_queue)@,
            Home::SubmitQueue,
            Stage::Prepare,
            op,
            result,
        ),
        final(confirm_queue)@ == routed_to(
            old(confirm_queue)@,
            Home::ConfirmQueue,
            Stage::Prepare,
            op,
            result,
        ),
        final(metrics)@ == tally_with(Stage::Prepare, old(metrics)@, result),
        final(prepare_queue).spec_label() == old(prepare_queue).spec_label(),
        final(submit_queue).spec_label() == old(submit_queue).spec_label(),
        final(confirm_queue).spec_label() == old(confirm_queue).spec_label(),
        final(metrics).spec_destination() == old(metrics).spec_destination(),
{
    let mut op = op;
    op.settle(result);
    match result {
        StageResult::Success => {
            metrics.record(Phase::Prepared, 1);
            submit_queue.push(op);
        },
        StageResult::NotReady => {
            prepare_queue.push(op);
        },
        StageResult::Reprepare => {
            metrics.record(Phase::Failed, 1);
            prepare_queue.push(op);
        },
        StageResult::Drop => {
            metrics.record(Phase::Dropped, 1);
        },
        StageResult::Confirm => {
            confirm_queue.push(op);
        },
    }
}

/// Routes one operation for which the confirmation check gave `result`, and
/// hands the result back. A confirmed operation is complete and gone; one that
/// is not final yet waits to be confirmed again; one that has to be redone
/// waits to be prepared; a dropped one is gone. Confirmations, failures and
/// drops are counted.
pub fn confirm_operation(
    op: Operation,
    result: StageResult,
    prepare_queue: &mut OperationQueue,
    confirm_queue: &mut OperationQueue,
    metrics: &mut SerialSubmitterMetrics,
) -> (operation_result: StageResult)
    ensures
        operation_result == result,
        final(prepare_queue)@ == routed_to(
            old(prepare_queue)@,
            Home::PrepareQueue,
            Stage::Confirm,
            op,
            result,
        ),
        final(confirm_queue)@ == routed_to(
            old(confirm_queue)@,
            Home::ConfirmQueue,
            Stage::Confirm,
            op,
            result,
        ),
        final(metrics)@ == tally_with(Stage::Confirm, old(metrics)@, result),
        final(prepare_queue).spec_label() == old(prepare_queue).spec_label(),
        final(confirm_queue).spec_label() == old(confirm_queue).spec_label(),
        final(metrics).spec_destination() == old(metrics).spec_destination(),
{
    let mut op = op;
    op.settle(result);
    match result {
        StageResult::Success => {
            metrics.record(Phase::Confirmed, 1);
        },
        StageResult::NotReady => {
            confirm_queue.push(op);
        },
        StageResult::Confirm => {
            confirm_queue.push(op);
        },
        StageResult::Reprepare => {
            metrics.record(Phase::Failed, 1);
            prepare_queue.push(op);
        },
        StageResult::Drop => {
            metrics.record(Phase::Dropped, 1);
        },
    }
    result
}

/// Routes one operation that `stage` has checked.
fn settle_operation(
    stage: Stage,
    op: Operation,
    result: StageResult,
    prepare_queue: &mut OperationQueue,
    submit_queue: &mut OperationQueue,
    confirm_queue: &mut OperationQueue,
    metrics: &mut SerialSubmitterMetrics,
)
    ensures
        final(prepare_queue)@ == routed_to(
            old(prepare_queue)@,
            Home::PrepareQueue,
            stage,
            op,
            result,
        ),
        final(submit_queue)@ == routed_to(old(submit_queue)@, Home::SubmitQueue, stage, op, result),
        final(confirm_queue)@ == routed_to(
            old(confirm_queue)@,
            Home::ConfirmQueue,
            stage,
            op,
            result,
        ),
        final(metrics)@ == tally_with(stage, old(metrics)@, result),
        final(prepare_queue).spec_label() == old(prepare_queue).spec_label(),
        final(submit_queue).spec_label() == old(submit_queue).spec_label(),
        final(confirm_queue).spec_label() == old(confirm_queue).spec_label(),
        final(metrics).spec_destination() == old(metrics).spec_destination(),
{
    match stage {
        Stage::Prepare => {
            prepare_operation(op, result, prepare_queue, submit_queue, confirm_queue, metrics);
        },
        Stage::Confirm => {
            confirm_operation(op, result, prepare_queue, confirm_queue, metrics);
        },
    }
}

/// Routes every operation of a batch that `stage` has checked, in the order
/// of the batch, and says whether none of them made progress.
fn settle_batch(
    stage: Stage,
    batch: &Vec<Operation>,
    results: &Vec<StageResult>,
    prepare_queue: &mut OperationQueue,
    submit_queue: &mut OperationQueue,
    confirm_queue: &mut OperationQueue,
    metrics: &mut SerialSubmitterMetrics,
) -> (stalled: bool)
    requires
        batch@.len() == results@.len(),
    ensures
        final(prepare_queue)@ == enqueue_all(
            old(prepare_queue)@,
            arrivals(stage, batch@, results@, Home::PrepareQueue),
        ),
        final(submit_queue)@ == enqueue_all(
            old(submit_queue)@,
            arrivals(stage, batch@, results@, Home::SubmitQueue),
        ),
        final(confirm_queue)@ == enqueue_all(
            old(confirm_queue)@,
            arrivals(stage, batch@, results@, Home::ConfirmQueue),
        ),
        final(metrics)@ == tally_after(stage, old(metrics)@, results@),
        stalled == all_stalled(stage, results@),
        final(prepare_queue).spec_label() == old(prepare_queue).spec_label(),
        final(submit_queue).spec_label() == old(submit_queue).spec_label(),
        final(confirm_queue).spec_label() == old(confirm_queue).spec_label(),
        final(metrics).spec_destination() == old(metrics).spec_destination(),
{
    let mut stalled = true;
    let mut at: usize = 0;
    while at < batch.len()
        invariant
            at <= batch.len(),
            batch@.len() == results@.len(),
            prepare_queue@ == enqueue_all(
                old(prepare_queue)@,
                arrivals(stage, batch@.take(at as int), results@.take(at as int), Home::PrepareQueue),
            ),
            submit_queue@ == enqueue_all(
                old(submit_queue)@,
                arrivals(stage, batch@.take(at as int), results@.take(at as int), Home::SubmitQueue),
            ),
            confirm_queue@ == enqueue_all(
                old(confirm_queue)@,
                arrivals(stage, batch@.take(at as int), results@.take(at as int), Home::ConfirmQueue),
            ),
            metrics@ == tally_after(stage, old(metrics)@, results@.take(at as int)),
            stalled == all_stalled(stage, results@.take(at as int)),
            prepare_queue.spec_label() == old(prepare_queue).spec_label(),
            submit_queue.spec_label() == old(submit_queue).spec_label(),
            confirm_queue.spec_label() == old(confirm_queue).spec_label(),
            metrics.spec_destination() == old(metrics).spec_destination(),
        decreases batch.len() - at,
    {
        let op = batch[at];
        let result = results[at];
        proof {
            let ghost before = results@.take(at as int);
            let ghost now = results@.take(at + 1);
            assert(now.drop_last() =~= before);
            assert(now.last() == result);
            lemma_settle_step(old(prepare_queue)@, stage, batch@, results@, Home::PrepareQueue, at as int);
            lemma_settle_step(old(submit_queue)@, stage, batch@, results@, Home::SubmitQueue, at as int);
            lemma_settle_step(old(confirm_queue)@, stage, batch@, results@, Home::ConfirmQueue, at as int);
            assert(all_stalled(stage, now) == (all_stalled(stage, before) && stage.stalls(result)))
                by {
                if all_stalled(stage, now) {
                    assert forall|i: int| 0 <= i < before.len() implies stage.stalls(
                        #[trigger] before[i],
                    ) by {
                        assert(before[i] == now[i]);
                    }
                    assert(now[at as int] == result);
                }
                if all_stalled(stage, before) && stage.stalls(result) {
                    assert forall|i: int| 0 <= i < now.len() implies stage.stalls(
                        #[trigger] now[i],
                    ) by {
                        if i < at {
                            assert(before[i] == now[i]);
                        }
                    }
                }
            }
        }
        settle_operation(stage, op, result, prepare_queue, submit_queue, confirm_queue, metrics);
        let idle = stage.is_stalled(result);
        stalled = stalled && idle;
        at += 1;
    }
    proof {
        assert(batch@.take(at as int) =~= batch@);
        assert(results@.take(at as int) =~= results@);
    }
    stalled
}

/// Starts a cycle of `stage`: takes up to `limit` operations from the front of
/// its queue into its hands.
fn begin_cycle(
    stage: Stage,
    queue: &mut OperationQueue,
    checking: &mut Vec<Operation>,
    limit: u32,
) -> (action: Result<StageAction, StageError>)
    ensures
        old(checking)@.len() > 0 ==> {
            &&& action == Err::<StageAction, StageError>(StageError::Busy)
            &&& final(queue)@ == old(queue)@
            &&& final(checking)@ == old(checking)@
        },
        old(checking)@.len() == 0 ==> {
            let count = taken(old(queue)@.len(), limit as nat) as int;
            &&& final(queue)@ == old(queue)@.skip(count)
            &&& final(checking)@ == old(queue)@.take(count)
            &&& count == 0 ==> stage_step(action) == Ok::<StageStep, StageError>(
                StageStep::Sleep(stage.idle_backoff()),
            )
            &&& count > 0 ==> stage_step(action) == Ok::<StageStep, StageError>(
                StageStep::Run(old(queue)@.take(count)),
            )
        },
        final(queue).spec_label() == old(queue).spec_label(),
{
    if checking.len() > 0 {
        return Err(StageError::Busy);
    }
    let batch = queue.pop_many(limit as usize);
    if batch.len() == 0 {
        assert(checking@ =~= old(queue)@.take(0));
        Ok(StageAction::Sleep(stage.idle_sleep()))
    } else {
        *checking = copy_operations(&batch);
        Ok(StageAction::Run(batch))
    }
}

/// A scheduler for one destination, before it is started.
pub struct SerialSubmitter {
    /// Domain this submitter delivers to.
    domain: HyperlaneDomain,
    /// Metrics for serial submitter.
    metrics: SerialSubmitterMetrics,
    /// Max batch size for submitting messages
    max_batch_size: u32,
}

impl SerialSubmitter {
    /// The number of the domain that the scheduler delivers to.
    pub closed spec fn domain_id(&self) -> u32 {
        self.domain.spec_id()
    }

    /// The most operations that a stage takes up in one cycle.
    pub closed spec fn batch_limit(&self) -> u32 {
        self.max_batch_size
    }

    /// What the scheduler's metrics have recorded.
    pub closed spec fn tally(&self) -> Tally {
        self.metrics@
    }

    /// The name of the domain that the scheduler delivers to.
    pub closed spec fn domain_name(&self) -> Seq<char> {
        self.domain.spec_name()
    }

    /// The gauges that the queues of the scheduler will report to.
    pub closed spec fn gauges(&self) -> QueueLengthGauges {
        self.metrics.gauges()
    }

    /// A scheduler that delivers to `domain`, records to `metrics`, and lets
    /// a stage take up at most `max_batch_size` operations in one cycle.
    pub fn new(domain: HyperlaneDomain, metrics: SerialSubmitterMetrics, max_batch_size: u32) -> (made:
        Self)
        ensures
            made.domain_id() == domain.spec_id(),
            made.domain_name() == domain.spec_name(),
            made.batch_limit() == max_batch_size,
            made.tally() == metrics@,
            made.gauges() == metrics.gauges(),
    {
        SerialSubmitter { domain, metrics, max_batch_size }
    }

    /// Starts the scheduler: makes its three queues, each reporting to the
    /// gauges of the scheduler's metrics under its own name, and its stages,
    /// all with empty hands.
    pub fn spawn(self) -> (pipeline: Pipeline)
        ensures
            pipeline@ == PipelineState::initial(self.domain_id(), self.batch_limit(), self.tally()),
            pipeline@.well_formed(),
            pipeline.queue_labels() == (
                QueueLabel {
                    gauges: self.gauges(),
                    destination: self.domain_name(),
                    queue: "prepare_queue"@,
                },
                QueueLabel {
                    gauges: self.gauges(),
                    destination: self.domain_name(),
                    queue: "submit_queue"@,
                },
                QueueLabel {
                    gauges: self.gauges(),
                    destination: self.domain_name(),
                    queue: "confirm_queue"@,
                },
            ),
    {
        proof {
            lemma_initial_well_formed(self.domain_id(), self.batch_limit(), self.tally());
        }
        let prepare_queue = OperationQueue::new(
            self.metrics.submitter_queue_length(),
            "prepare_queue".to_string(),
            self.domain.name().to_string(),
        );
        let submit_queue = OperationQueue::new(
            self.metrics.submitter_queue_length(),
            "submit_queue".to_string(),
            self.domain.name().to_string(),
        );
        let confirm_queue = OperationQueue::new(
            self.metrics.submitter_queue_length(),
            "confirm_queue".to_string(),
            self.domain.name().to_string(),
        );
        Pipeline {
            domain: self.domain,
            max_batch_size: self.max_batch_size,
            metrics: self.metrics,
            prepare_queue,
            submit_queue,
            confirm_queue,
            preparing: Vec::new(),
            submitting: Vec::new(),
            combined: false,
            confirming: Vec::new(),
            running: STAGE_TASKS,
        }
    }
}

/// A running scheduler: its queues, and what each stage holds in its hands.
pub struct Pipeline {
    domain: HyperlaneDomain,
    max_batch_size: u32,
    metrics: SerialSubmitterMetrics,
    prepare_queue: OperationQueue,
    submit_queue: OperationQueue,
    confirm_queue: OperationQueue,
    preparing: Vec<Operation>,
    submitting: Vec<Operation>,
    combined: bool,
    confirming: Vec<Operation>,
    running: u8,
}

impl View for Pipeline {
    type V = PipelineState;

    closed spec fn view(&self) -> PipelineState {
        PipelineState {
            domain: self.domain.spec_id(),
            max_batch_size: self.max_batch_size,
            prepare_queue: self.prepare_queue@,
            submit_queue: self.submit_queue@,
            confirm_queue: self.confirm_queue@,
            preparing: self.preparing@,
            submitting: self.submitting@,
            combined: self.combined,
            confirming: self.confirming@,
            tally: self.metrics@,
            running: self.running,
        }
    }
}

impl Pipeline {
    /// The labels under which the queues report their lengths: those of the
    /// preparation queue, of the submission queue, of the confirmation queue.
    pub closed spec fn queue_labels(&self) -> (QueueLabel, QueueLabel, QueueLabel) {
        (
            self.prepare_queue.spec_label(),
            self.submit_queue.spec_label(),
            self.confirm_queue.spec_label(),
        )
    }

    /// Takes what the inbound channel gave: an operation, which then waits to
    /// be prepared, or the news that the channel is closed. Says whether the
    /// receiving task goes on.
    pub fn receive_task(&mut self, arrival: Option<Operation>) -> (open: bool)
        requires
            arrival matches Some(op) ==> op.destination == old(self)@.domain,
        ensures
            open == arrival is Some,
            final(self)@ == match arrival {
                Some(op) => old(self)@.received(op),
                None => old(self)@,
            },
            final(self).queue_labels() == old(self).queue_labels(),
            old(self)@.well_formed() ==> final(self)@.well_formed(),
    {
        proof {
            if old(self)@.well_formed() {
                if let Some(op) = arrival {
                    lemma_step_well_formed(old(self)@, Event::Received(op));
                }
            }
        }
        match arrival {
            Some(op) => {
                self.prepare_queue.push(op);
                true
            },
            None => false,
        }
    }

    /// Takes a retry request and hands it to each of the three queues, so
    /// that it reaches the operations that it is for wherever they wait.
    pub fn retry(&mut self, request: MessageRetryRequest)
        ensures
            final(self)@ == old(self)@.retried(request),
            final(self).queue_labels() == old(self).queue_labels(),
            old(self)@.well_formed() ==> final(self)@.well_formed(),
    {
        proof {
            if old(self)@.well_formed() {
                lemma_step_well_formed(old(self)@, Event::RetryRequested(request));
            }
        }
        self.prepare_queue.retry(request);
        self.submit_queue.retry(request);
        self.confirm_queue.retry(request);
    }

    /// Starts a cycle of the preparation stage. The stage takes up to
    /// `max_batch_size` operations from the front of the preparation queue
    /// into its hands and asks for them to be checked; where the queue gives
    /// none it asks for a short rest. While a batch is still in its hands the
    /// stage is busy and takes up nothing.
    pub fn prepare_task(&mut self) -> (action: Result<StageAction, StageError>)
        ensures
            stage_step(action) == old(self)@.begin(Stage::Prepare),
            final(self)@ == old(self)@.begun(Stage::Prepare),
            final(self).queue_labels() == old(self).queue_labels(),
            old(self)@.well_formed() ==> final(self)@.well_formed(),
    {
        proof {
            if old(self)@.well_formed() {
                lemma_step_well_formed(old(self)@, Event::Began(Stage::Prepare));
            }
        }
        let limit: u32 = self.max_batch_size;
        begin_cycle(Stage::Prepare, &mut self.prepare_queue, &mut self.preparing, limit)
    }

    /// Takes the results of the preparation checks, one for each operation of
    /// the batch and in its order, and routes the batch: prepared operations
    /// to the submission queue, those not ready or failed back to the
    /// preparation queue, those known to be submitted to the confirmation
    /// queue; dropped ones are gone. Asks for a longer rest where no operation
    /// made progress. Results that match no batch are refused.
    pub fn prepare_returned(&mut self, results: &Vec<StageResult>) -> (rest: Result<
        Option<u64>,
        StageError,
    >)
        ensures
            rest == old(self)@.settle(Stage::Prepare, results@),
            final(self)@ == old(self)@.settled(Stage::Prepare, results@),
            final(self).queue_labels() == old(self).queue_labels(),
            old(self)@.well_formed() ==> final(self)@.well_formed(),
    {
        proof {
            if old(self)@.well_formed() {
                lemma_step_well_formed(old(self)@, Event::Checked(Stage::Prepare, results@));
            }
        }
        if self.preparing.len() == 0 {
            return Err(StageError::NothingInFlight);
        }
        if results.len() != self.preparing.len() {
            return Err(StageError::ResultCount);
        }
        let mut batch: Vec<Operation> = Vec::new();
        std::mem::swap(&mut batch, &mut self.preparing);
        let stalled = settle_batch(
            Stage::Prepare,
            &batch,
            results,
            &mut self.prepare_queue,
            &mut self.submit_queue,
            &mut self.confirm_queue,
            &mut self.metrics,
        );
        if stalled {
            Ok(Some(STALLED_BACKOFF_MS))
        } else {
            Ok(None)
        }
    }

    /// Starts a cycle of the confirmation stage. The stage takes up to
    /// `max_batch_size` operations from the front of the confirmation queue
    /// into its hands and asks for them to be checked; where the queue gives
    /// none it asks for a short rest. While a batch is still in its hands the
    /// stage is busy and takes up nothing.
    pub fn confirm_task(&mut self) -> (action: Result<StageAction, StageError>)
        ensures
            stage_step(action) == old(self)@.begin(Stage::Confirm),
            final(self)@ == old(self)@.begun(Stage::Confirm),
            final(self).queue_labels() == old(self).queue_labels(),
            old(self)@.well_formed() ==> final(self)@.well_formed(),
    {
        proof {
            if old(self)@.well_formed() {
                lemma_step_well_formed(old(self)@, Event::Began(Stage::Confirm));
            }
        }
        let limit: u32 = self.max_batch_size;
        begin_cycle(Stage::Confirm, &mut self.confirm_queue, &mut self.confirming, limit)
    }

    /// Takes the results of the confirmation checks, one for each operation
    /// of the batch and in its order, and routes the batch: confirmed and
    /// dropped operations are gone, those not final yet go back to the
    /// confirmation queue, those to be redone to the preparation queue. Asks
    /// for a longer rest where no operation made progress. Results that match
    /// no batch are refused.
    pub fn confirm_returned(&mut self, results: &Vec<StageResult>) -> (rest: Result<
        Option<u64>,
        StageError,
    >)
        ensures
            rest == old(self)@.settle(Stage::Confirm, results@),
            final(self)@ == old(self)@.settled(Stage::Confirm, results@),
            final(self).queue_labels() == old(self).queue_labels(),
            old(self)@.well_formed() ==> final(self)@.well_formed(),
    {
        proof {
            if old(self)@.well_formed() {
                lemma_step_well_formed(old(self)@, Event::Checked(Stage::Confirm, results@));
            }
        }
        if self.confirming.len() == 0 {
            return Err(StageError::NothingInFlight);
        }
        if results.len() != self.confirming.len() {
            return Err(StageError::ResultCount);
        }
        let mut batch: Vec<Operation> = Vec::new();
        std::mem::swap(&mut batch, &mut self.confirming);
        let stalled = settle_batch(
            Stage::Confirm,
            &batch,
            results,
            &mut self.prepare_queue,
            &mut self.submit_queue,
            &mut self.confirm_queue,
            &mut self.metrics,
        );
        if stalled {
            Ok(Some(STALLED_BACKOFF_MS))
        } else {
            Ok(None)
        }
    }

    /// Starts a cycle of the submission stage. The stage takes up to
    /// `max_batch_size` operations from the front of the submission queue into
    /// its hands. One operation is to be submitted on its own. Several are to
    /// go out as one transaction; where there is none for them, they are to be
    /// submitted one by one, the first of them now. Where the queue gives
    /// nothing the stage asks for a short rest. While it holds operations a
    /// call is in flight, and the stage is busy and takes up nothing.
    pub fn submit_task(&mut self) -> (action: Result<SubmitAction, StageError>)
        ensures
            submit_step(action) == old(self)@.submit_begin(),
            final(self)@ == old(self)@.submit_begun(),
            final(self).queue_labels() == old(self).queue_labels(),
            old(self)@.well_formed() ==> final(self)@.well_formed(),
    {
        proof {
            if old(self)@.well_formed() {
                lemma_step_well_formed(old(self)@, Event::SubmitBegan);
            }
        }
        if self.submitting.len() > 0 {
            return Err(StageError::Busy);
        }
        let batch = self.submit_queue.pop_many(self.max_batch_size as usize);
        if batch.len() == 0 {
            assert(self.submit_queue@ =~= old(self).submit_queue@);
            return Ok(SubmitAction::Sleep(IDLE_BACKOFF_MS));
        }
        let first = batch[0];
        if batch.len() == 1 {
            self.submitting = batch;
            self.combined = false;
            return Ok(SubmitAction::Single(first));
        }
        let group = OperationBatch::new(copy_operations(&batch), self.domain.id());
        match group.try_submit_as_batch() {
            Ok(call) => {
                self.submitting = batch;
                self.combined = true;
                Ok(SubmitAction::Batch(call))
            },
            Err(_) => {
                self.submitting = group.submit_serially();
                self.combined = false;
                Ok(SubmitAction::Single(first))
            },
        }
    }

    /// Takes the news that the submission of a single operation has returned:
    /// the operation moves on to confirmation, and the next one, if the stage
    /// holds more, is to be submitted.
    pub fn submit_returned(&mut self) -> (next: Result<Option<Operation>, StageError>)
        ensures
            next == old(self)@.single_submit(),
            final(self)@ == old(self)@.single_submitted(),
            final(self).queue_labels() == old(self).queue_labels(),
            old(self)@.well_formed() ==> final(self)@.well_formed(),
    {
        proof {
            if old(self)@.well_formed() {
                lemma_step_well_formed(old(self)@, Event::SubmitReturned);
            }
        }
        if self.submitting.len() == 0 || self.combined {
            return Err(StageError::NothingInFlight);
        }
        let op = self.submitting.remove(0);
        submit_single_operation(op, &mut self.confirm_queue, &mut self.metrics);
        assert(self.submitting@ =~= old(self).submitting@.skip(1));
        if self.submitting.len() > 0 {
            Ok(Some(self.submitting[0]))
        } else {
            Ok(None)
        }
    }

    /// Takes the outcome of the one transaction for the batch. Where it went
    /// out the batch moves on to confirmation; where it failed the batch is
    /// submitted one by one, and its first operation is the next to submit.
    pub fn batch_returned(&mut self, outcome: BatchOutcome) -> (next: Result<
        Option<Operation>,
        StageError,
    >)
        ensures
            next == old(self)@.batch_settle(outcome),
            final(self)@ == old(self)@.batch_settled(outcome),
            final(self).queue_labels() == old(self).queue_labels(),
            old(self)@.well_formed() ==> final(self)@.well_formed(),
    {
        proof {
            if old(self)@.well_formed() {
                lemma_step_well_formed(old(self)@, Event::BatchReturned(outcome));
            }
        }
        if self.submitting.len() == 0 || !self.combined {
            return Err(StageError::NothingInFlight);
        }
        let mut held: Vec<Operation> = Vec::new();
        std::mem::swap(&mut held, &mut self.submitting);
        let group = OperationBatch::new(held, self.domain.id());
        let serial = group.submit(outcome, &mut self.confirm_queue, &mut self.metrics);
        self.submitting = serial;
        self.combined = false;
        if self.submitting.len() > 0 {
            Ok(Some(self.submitting[0]))
        } else {
            Ok(None)
        }
    }

    /// Takes the news that one of the scheduler's tasks has ended, and says
    /// whether the scheduler goes on.
    pub fn run(&mut self, exit: TaskExit) -> (verdict: Supervision)
        ensures
            verdict == old(self)@.supervise(exit),
            final(self)@ == old(self)@.supervised(exit),
            final(self).queue_labels() == old(self).queue_labels(),
            old(self)@.well_formed() ==> final(self)@.well_formed(),
    {
        proof {
            if old(self)@.well_formed() {
                lemma_step_well_formed(old(self)@, Event::TaskEnded(exit));
            }
        }
        match exit {
            TaskExit::Panicked => {
                self.running = 0;
                Supervision::Exit { failed: true }
            },
            TaskExit::Finished => {
                if self.running <= 1 {
                    self.running = 0;
                    Supervision::Exit { failed: false }
                } else {
                    self.running = self.running - 1;
                    Supervision::Wait
                }
            },
        }
    }

    /// The domain that the scheduler delivers to.
    pub fn domain(&self) -> (domain: &HyperlaneDomain)
        ensures
            domain.spec_id() == self@.domain,
    {
        &self.domain
    }

    /// The most operations that a stage takes up in one cycle.
    pub fn max_batch_size(&self) -> (limit: u32)
        ensures
            limit == self@.max_batch_size,
    {
        self.max_batch_size
    }

    /// The metrics that the scheduler records to.
    pub fn metrics(&self) -> (metrics: &SerialSubmitterMetrics)
        ensures
            metrics@ == self@.tally,
    {
        &self.metrics
    }

    /// The operations that wait to be prepared.
    pub fn prepare_queue(&self) -> (queue: &OperationQueue)
        ensures
            queue@ == self@.prepare_queue,
            queue.spec_label() == self.queue_labels().0,
    {
        &self.prepare_queue
    }

    /// The operations that wait to be submitted.
    pub fn submit_queue(&self) -> (queue: &OperationQueue)
        ensures
            queue@ == self@.submit_queue,
            queue.spec_label() == self.queue_labels().1,
    {
        &self.submit_queue
    }

    /// The operations that wait to be confirmed.
    pub fn confirm_queue(&self) -> (queue: &OperationQueue)
        ensures
            queue@ == self@.confirm_queue,
            queue.spec_label() == self.queue_labels().2,
    {
        &self.confirm_queue
    }

    /// The operations that the preparation stage is checking.
    pub fn preparing(&self) -> (batch: &Vec<Operation>)
        ensures
            batch@ == self@.preparing,
    {
        &self.preparing
    }

    /// The operations that the submission stage has taken up and not yet
    /// passed on.
    pub fn submitting(&self) -> (batch: &Vec<Operation>)
        ensures
            batch@ == self@.submitting,
    {
        &self.submitting
    }

    /// Whether the submission call in flight is one transaction for a whole
    /// batch.
    pub fn is_combined(&self) -> (combined: bool)
        ensures
            combined == self@.combined,
    {
        self.combined
    }

    /// The operations that the confirmation stage is checking.
    pub fn confirming(&self) -> (batch: &Vec<Operation>)
        ensures
            batch@ == self@.confirming,
    {
        &self.confirming
    }

    /// How many of the scheduler's tasks have not ended.
    pub fn running(&self) -> (tasks: u8)
        ensures
            tasks == self@.running,
    {
        self.running
    }
}

} // verus!
