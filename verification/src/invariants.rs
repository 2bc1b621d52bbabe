//! What holds of every state that a scheduler can reach.

use crate::batch::{batch_call, delayed_all, BatchOutcome};
use crate::metrics::Tally;
use crate::model::{Event, PipelineState, StageError, StageStep, SubmitStep, STAGE_TASKS};
use crate::op_queue::{
    enqueue, enqueue_all, lemma_enqueue_all_ordered, lemma_enqueue_ordered, lemma_slot_parts,
    ordered, requeued, reset_by,
};
use crate::operation::{MessageRetryRequest, Operation, StageResult};
use crate::routing::{
    all_stalled, arrivals, Home, Stage, CONFIRM_IDLE_BACKOFF_MS, IDLE_BACKOFF_MS,
    STALLED_BACKOFF_MS,
};
use vstd::prelude::*;

verus! {

/// Whether every operation of `ops` is bound for `domain`.
pub open spec fn all_bound_for(ops: Seq<Operation>, domain: u32) -> bool {
    forall|i: int| 0 <= i < ops.len() ==> (#[trigger] ops[i]).destination == domain
}

impl PipelineState {
    /// What holds of a scheduler at all times. Its queues are in priority
    /// order. Every operation that it holds is bound for its domain. No stage
    /// holds more operations than it may take up in one cycle. A transaction
    /// for a whole batch is in flight only for a batch of several operations
    /// that has one.
    pub open spec fn well_formed(self) -> bool {
        &&& ordered(self.prepare_queue)
        &&& ordered(self.submit_queue)
        &&& ordered(self.confirm_queue)
        &&& all_bound_for(self.prepare_queue, self.domain)
        &&& all_bound_for(self.submit_queue, self.domain)
        &&& all_bound_for(self.confirm_queue, self.domain)
        &&& all_bound_for(self.preparing, self.domain)
        &&& all_bound_for(self.submitting, self.domain)
        &&& all_bound_for(self.confirming, self.domain)
        &&& self.preparing.len() <= self.max_batch_size
        &&& self.submitting.len() <= self.max_batch_size
        &&& self.confirming.len() <= self.max_batch_size
        &&& self.combined ==> self.submitting.len() >= 2 && batch_call(self.submitting) is Ok
        &&& self.running <= STAGE_TASKS
    }
}

/// Adding an operation that is bound for `domain` to a queue of such
/// operations gives a queue of such operations.
proof fn lemma_enqueue_bound(queue: Seq<Operation>, op: Operation, domain: u32)
    requires
        all_bound_for(queue, domain),
        op.destination == domain,
    ensures
        all_bound_for(enqueue(queue, op), domain),
{
    lemma_slot_parts(queue, op.retries);
}

/// Adding operations that are bound for `domain` to a queue of such
/// operations gives a queue of such operations.
proof fn lemma_enqueue_all_bound(queue: Seq<Operation>, ops: Seq<Operation>, domain: u32)
    requires
        all_bound_for(queue, domain),
        all_bound_for(ops, domain),
    ensures
        all_bound_for(enqueue_all(queue, ops), domain),
    decreases ops.len(),
{
    if ops.len() > 0 {
        assert forall|i: int| 0 <= i < ops.drop_last().len() implies (#[trigger] ops.drop_last()[i]).destination
            == domain by {
            assert(ops.drop_last()[i] == ops[i]);
        }
        lemma_enqueue_all_bound(queue, ops.drop_last(), domain);
        assert(ops.last() == ops[ops.len() - 1]);
        lemma_enqueue_bound(enqueue_all(queue, ops.drop_last()), ops.last(), domain);
    }
}

/// What a stage sends anywhere is bound for the domain that the batch was
/// bound for, and is no more than the batch.
proof fn lemma_arrivals_bound(
    stage: Stage,
    batch: Seq<Operation>,
    results: Seq<StageResult>,
    home: Home,
    domain: u32,
)
    requires
        all_bound_for(batch, domain),
        batch.len() == results.len(),
    ensures
        all_bound_for(arrivals(stage, batch, results, home), domain),
        arrivals(stage, batch, results, home).len() <= batch.len(),
    decreases batch.len(),
{
    if batch.len() > 0 {
        assert forall|i: int| 0 <= i < batch.drop_last().len() implies (
        #[trigger] batch.drop_last()[i]).destination == domain by {
            assert(batch.drop_last()[i] == batch[i]);
        }
        lemma_arrivals_bound(stage, batch.drop_last(), results.drop_last(), home, domain);
        assert(batch.last() == batch[batch.len() - 1]);
    }
}

/// A retry request leaves a queue in priority order, and its operations bound
/// for the domain that they were bound for.
proof fn lemma_requeued_well_formed(queue: Seq<Operation>, request: MessageRetryRequest, domain: u32)
    requires
        all_bound_for(queue, domain),
    ensures
        ordered(requeued(queue, request)),
        all_bound_for(requeued(queue, request), domain),
        requeued(queue, request).len() == queue.len(),
{
    let reset = reset_by(queue, request);
    assert forall|i: int| 0 <= i < reset.len() implies (#[trigger] reset[i]).destination
        == domain by {
        assert(queue[i].destination == domain);
    }
    lemma_enqueue_all_ordered(Seq::empty(), reset);
    lemma_enqueue_all_bound(Seq::empty(), reset, domain);
}

/// A scheduler that has just been started is well formed.
pub proof fn lemma_initial_well_formed(domain: u32, max_batch_size: u32, tally: Tally)
    ensures
        PipelineState::initial(domain, max_batch_size, tally).well_formed(),
{
    assert(batch_call(Seq::<Operation>::empty()) is Err);
}

/// Whatever happens to a well-formed scheduler leaves it well formed: the
/// queues stay in priority order, and no operation for another domain comes
/// in.
pub proof fn lemma_step_well_formed(state: PipelineState, event: Event)
    requires
        state.well_formed(),
        state.admits(event),
    ensures
        state.after(event).well_formed(),
{
    let domain = state.domain;
    match event {
        Event::Received(op) => {
            lemma_enqueue_ordered(state.prepare_queue, op);
            lemma_enqueue_bound(state.prepare_queue, op, domain);
        },
        Event::RetryRequested(request) => {
            lemma_requeued_well_formed(state.prepare_queue, request, domain);
            lemma_requeued_well_formed(state.submit_queue, request, domain);
            lemma_requeued_well_formed(state.confirm_queue, request, domain);
        },
        Event::Began(stage) => {
            let queue = state.waiting(stage);
            let count = state.cycle_size(queue);
            assert(all_bound_for(queue.take(count), domain));
            assert(all_bound_for(queue.skip(count), domain));
            assert(ordered(queue.skip(count)));
        },
        Event::Checked(stage, results) => {
            if state.settle(stage, results) is Ok {
                let batch = state.checking(stage);
                lemma_arrivals_bound(stage, batch, results, Home::PrepareQueue, domain);
                lemma_arrivals_bound(stage, batch, results, Home::SubmitQueue, domain);
                lemma_arrivals_bound(stage, batch, results, Home::ConfirmQueue, domain);
                lemma_enqueue_all_ordered(
                    state.prepare_queue,
                    arrivals(stage, batch, results, Home::PrepareQueue),
                );
                lemma_enqueue_all_ordered(
                    state.submit_queue,
                    arrivals(stage, batch, results, Home::SubmitQueue),
                );
                lemma_enqueue_all_ordered(
                    state.confirm_queue,
                    arrivals(stage, batch, results, Home::ConfirmQueue),
                );
                lemma_enqueue_all_bound(
                    state.prepare_queue,
                    arrivals(stage, batch, results, Home::PrepareQueue),
                    domain,
                );
                lemma_enqueue_all_bound(
                    state.submit_queue,
                    arrivals(stage, batch, results, Home::SubmitQueue),
                    domain,
                );
                lemma_enqueue_all_bound(
                    state.confirm_queue,
                    arrivals(stage, batch, results, Home::ConfirmQueue),
                    domain,
                );
            }
        },
        Event::SubmitBegan => {
            let queue = state.submit_queue;
            let count = state.cycle_size(queue);
            assert(all_bound_for(queue.take(count), domain));
            assert(all_bound_for(queue.skip(count), domain));
            assert(ordered(queue.skip(count)));
        },
        Event::SubmitReturned => {
            if state.single_submit() is Ok {
                lemma_enqueue_ordered(state.confirm_queue, state.submitting[0]);
                lemma_enqueue_bound(state.confirm_queue, state.submitting[0], domain);
                assert(all_bound_for(state.submitting.skip(1), domain));
            }
        },
        Event::BatchReturned(outcome) => {
            if state.batch_settle(outcome) is Ok && outcome == BatchOutcome::Submitted {
                let delayed = delayed_all(state.submitting);
                assert(all_bound_for(delayed, domain)) by {
                    assert forall|i: int| 0 <= i < delayed.len() implies (
                    #[trigger] delayed[i]).destination == domain by {
                        assert(state.submitting[i].destination == domain);
                    }
                }
                lemma_enqueue_all_ordered(state.confirm_queue, delayed);
                lemma_enqueue_all_bound(state.confirm_queue, delayed, domain);
            }
        },
        Event::TaskEnded(exit) => {},
    }
}

/// Every state that a well-formed scheduler reaches is well formed.
pub proof fn lemma_run_well_formed(state: PipelineState, events: Seq<Event>)
    requires
        state.well_formed(),
        state.admits_all(events),
    ensures
        state.after_all(events).well_formed(),
    decreases events.len(),
{
    if events.len() > 0 {
        lemma_run_well_formed(state, events.drop_last());
        lemma_step_well_formed(state.after_all(events.drop_last()), events.last());
    }
}

/// When a stage rests. A stage that starts a cycle rests for its idle time
/// exactly where its queue gives it nothing to take up: such a cycle changes
/// nothing. A stage that has checked a batch rests for the longer time exactly
/// where no operation of the batch made progress, and else does not rest.
pub proof fn lemma_backoff(state: PipelineState, stage: Stage, results: Seq<StageResult>)
    ensures
        Stage::Prepare.idle_backoff() == IDLE_BACKOFF_MS,
        Stage::Confirm.idle_backoff() == CONFIRM_IDLE_BACKOFF_MS,
        state.cycle_size(state.waiting(stage)) == 0 <==> state.waiting(stage).len() == 0
            || state.max_batch_size == 0,
        state.checking(stage).len() == 0 ==> (state.begin(stage) == Ok::<StageStep, StageError>(
            StageStep::Sleep(stage.idle_backoff()),
        ) <==> state.cycle_size(state.waiting(stage)) == 0),
        state.begin(stage) is Ok && state.begin(stage)->Ok_0 is Sleep ==> state.begun(stage)
            == state,
        state.submitting.len() == 0 ==> (state.submit_begin() == Ok::<SubmitStep, StageError>(
            SubmitStep::Sleep(IDLE_BACKOFF_MS),
        ) <==> state.cycle_size(state.submit_queue) == 0),
        state.submit_begin() is Ok && state.submit_begin()->Ok_0 is Sleep ==> state.submit_begun()
            == state,
        state.settle(stage, results) is Ok ==> state.settle(stage, results) == Ok::<
            Option<u64>,
            StageError,
        >(
            if all_stalled(stage, results) {
                Some(STALLED_BACKOFF_MS)
            } else {
                None
            },
        ),
{
    if state.begin(stage) is Ok && state.begin(stage)->Ok_0 is Sleep {
        assert(state.waiting(stage).skip(0) =~= state.waiting(stage));
        assert(state.waiting(stage).take(0) =~= state.checking(stage));
        assert(state.begun(stage) =~= state);
    }
}

} // verus!
