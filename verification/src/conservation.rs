//! No operation is lost, and none is doubled: whatever happens, a scheduler
//! holds what it held before, with what arrived and without what is finished.

use crate::batch::{delayed_all, BatchOutcome};
use crate::model::{Event, PipelineState};
use crate::op_queue::{enqueue, enqueue_all, lemma_slot_parts, requeued, reset_by, slot};
use crate::operation::{MessageRetryRequest, Operation, StageResult};
use crate::routing::{arrivals, Home, Stage};
use vstd::multiset::Multiset;
use vstd::prelude::*;

verus! {

/// The ids of the operations of `ops`, each as often as it occurs.
pub open spec fn ids(ops: Seq<Operation>) -> Multiset<u64>
    decreases ops.len(),
{
    if ops.len() == 0 {
        Multiset::empty()
    } else {
        ids(ops.drop_last()).insert(ops.last().id)
    }
}

impl PipelineState {
    /// The ids of the operations that the scheduler holds, in its queues and
    /// in the hands of its stages.
    pub open spec fn held(self) -> Multiset<u64> {
        ids(self.prepare_queue).add(ids(self.submit_queue)).add(ids(self.confirm_queue)).add(
            ids(self.preparing),
        ).add(ids(self.submitting)).add(ids(self.confirming))
    }

    /// The ids of the operations that `event` brings into the scheduler.
    pub open spec fn arrived(self, event: Event) -> Multiset<u64> {
        match event {
            Event::Received(op) => Multiset::singleton(op.id),
            _ => Multiset::empty(),
        }
    }

    /// The ids of the operations that leave the scheduler for good with
    /// `event`: those of the batch that a stage has checked which its results
    /// send nowhere.
    pub open spec fn finished(self, event: Event) -> Multiset<u64> {
        match event {
            Event::Checked(stage, results) => if self.settle(stage, results) is Ok {
                ids(arrivals(stage, self.checking(stage), results, Home::Gone))
            } else {
                Multiset::empty()
            },
            _ => Multiset::empty(),
        }
    }

    /// The ids of the operations that the events of `events` bring in.
    pub open spec fn arrived_all(self, events: Seq<Event>) -> Multiset<u64>
        decreases events.len(),
    {
        if events.len() == 0 {
            Multiset::empty()
        } else {
            self.arrived_all(events.drop_last()).add(
                self.after_all(events.drop_last()).arrived(events.last()),
            )
        }
    }

    /// The ids of the operations that leave for good in the course of
    /// `events`.
    pub open spec fn finished_all(self, events: Seq<Event>) -> Multiset<u64>
        decreases events.len(),
    {
        if events.len() == 0 {
            Multiset::empty()
        } else {
            self.finished_all(events.drop_last()).add(
                self.after_all(events.drop_last()).finished(events.last()),
            )
        }
    }
}

/// An operation put anywhere into a queue adds its id to those of the queue.
pub proof fn lemma_ids_insert(ops: Seq<Operation>, at: int, op: Operation)
    requires
        0 <= at <= ops.len(),
    ensures
        ids(ops.insert(at, op)) == ids(ops).insert(op.id),
    decreases ops.len(),
{
    let grown = ops.insert(at, op);
    if at == ops.len() {
        assert(grown.drop_last() =~= ops);
    } else {
        assert(grown.drop_last() =~= ops.drop_last().insert(at, op));
        assert(grown.last() == ops.last());
        lemma_ids_insert(ops.drop_last(), at, op);
        assert(ids(grown) =~= ids(ops).insert(op.id));
    }
}

/// Adding an operation to a queue adds its id to those of the queue.
pub proof fn lemma_ids_enqueue(queue: Seq<Operation>, op: Operation)
    ensures
        ids(enqueue(queue, op)) == ids(queue).insert(op.id),
{
    lemma_slot_parts(queue, op.retries);
    lemma_ids_insert(queue, slot(queue, op.retries), op);
}

/// Adding operations to a queue adds their ids to those of the queue.
pub proof fn lemma_ids_enqueue_all(queue: Seq<Operation>, ops: Seq<Operation>)
    ensures
        ids(enqueue_all(queue, ops)) == ids(queue).add(ids(ops)),
    decreases ops.len(),
{
    if ops.len() == 0 {
        assert(ids(queue).add(ids(ops)) =~= ids(queue));
    } else {
        lemma_ids_enqueue_all(queue, ops.drop_last());
        lemma_ids_enqueue(enqueue_all(queue, ops.drop_last()), ops.last());
        assert(ids(queue).add(ids(ops.drop_last())).insert(ops.last().id) =~= ids(queue).add(
            ids(ops),
        ));
    }
}

/// The front of a queue and the rest of it hold, together, what the queue
/// holds.
pub proof fn lemma_ids_split(ops: Seq<Operation>, at: int)
    requires
        0 <= at <= ops.len(),
    ensures
        ids(ops.take(at)).add(ids(ops.skip(at))) == ids(ops),
    decreases ops.len(),
{
    if at == ops.len() {
        assert(ops.take(at) =~= ops);
        assert(ops.skip(at) =~= Seq::<Operation>::empty());
        assert(ids(ops).add(ids(Seq::<Operation>::empty())) =~= ids(ops));
    } else {
        lemma_ids_split(ops.drop_last(), at);
        assert(ops.take(at) =~= ops.drop_last().take(at));
        assert(ops.skip(at).drop_last() =~= ops.drop_last().skip(at));
        assert(ops.skip(at).last() == ops.last());
        assert(ids(ops.take(at)).add(ids(ops.skip(at))) =~= ids(ops));
    }
}

/// The delay that a combined submission puts on operations leaves their ids
/// as they are.
pub proof fn lemma_ids_delayed(ops: Seq<Operation>)
    ensures
        ids(delayed_all(ops)) == ids(ops),
    decreases ops.len(),
{
    if ops.len() > 0 {
        lemma_ids_delayed(ops.drop_last());
        assert(delayed_all(ops).drop_last() =~= delayed_all(ops.drop_last()));
    }
}

/// A retry request leaves the ids of a queue as they are.
pub proof fn lemma_ids_requeued(queue: Seq<Operation>, request: MessageRetryRequest)
    ensures
        ids(requeued(queue, request)) == ids(queue),
{
    lemma_ids_reset(queue, request);
    lemma_ids_enqueue_all(Seq::empty(), reset_by(queue, request));
    assert(ids(Seq::<Operation>::empty()).add(ids(queue)) =~= ids(queue));
}

/// Resetting operations leaves their ids as they are.
proof fn lemma_ids_reset(queue: Seq<Operation>, request: MessageRetryRequest)
    ensures
        ids(reset_by(queue, request)) == ids(queue),
    decreases queue.len(),
{
    if queue.len() > 0 {
        lemma_ids_reset(queue.drop_last(), request);
        assert(reset_by(queue, request).drop_last() =~= reset_by(queue.drop_last(), request));
    }
}

/// Every operation of a batch that a stage has checked goes to exactly one
/// place: to one of the three queues, or nowhere.
pub proof fn lemma_ids_routed(stage: Stage, batch: Seq<Operation>, results: Seq<StageResult>)
    requires
        batch.len() == results.len(),
    ensures
        ids(arrivals(stage, batch, results, Home::PrepareQueue)).add(
            ids(arrivals(stage, batch, results, Home::SubmitQueue)),
        ).add(ids(arrivals(stage, batch, results, Home::ConfirmQueue))).add(
            ids(arrivals(stage, batch, results, Home::Gone)),
        ) == ids(batch),
    decreases batch.len(),
{
    let to_prepare = arrivals(stage, batch, results, Home::PrepareQueue);
    let to_submit = arrivals(stage, batch, results, Home::SubmitQueue);
    let to_confirm = arrivals(stage, batch, results, Home::ConfirmQueue);
    let gone = arrivals(stage, batch, results, Home::Gone);
    let all = ids(to_prepare).add(ids(to_submit)).add(ids(to_confirm)).add(ids(gone));
    if batch.len() == 0 {
        assert(all =~= ids(batch));
    } else {
        lemma_ids_routed(stage, batch.drop_last(), results.drop_last());
        let moved = batch.last().settled(results.last());
        assert(moved.id == batch.last().id);
        let before_prepare = arrivals(stage, batch.drop_last(), results.drop_last(), Home::PrepareQueue);
        let before_submit = arrivals(stage, batch.drop_last(), results.drop_last(), Home::SubmitQueue);
        let before_confirm = arrivals(stage, batch.drop_last(), results.drop_last(), Home::ConfirmQueue);
        let before_gone = arrivals(stage, batch.drop_last(), results.drop_last(), Home::Gone);
        assert(before_prepare.push(moved).drop_last() =~= before_prepare);
        assert(before_submit.push(moved).drop_last() =~= before_submit);
        assert(before_confirm.push(moved).drop_last() =~= before_confirm);
        assert(before_gone.push(moved).drop_last() =~= before_gone);
        assert(all =~= ids(batch));
    }
}

/// An operation leaves the scheduler for good only where it is complete or
/// given up: where preparation or confirmation says to drop it, or
/// confirmation says that it succeeded.
pub proof fn lemma_gone_is_terminal(stage: Stage, result: StageResult)
    ensures
        stage.routes(result) == Home::Gone <==> (result == StageResult::Drop || (stage
            == Stage::Confirm && result == StageResult::Success)),
{
}

/// Whatever happens, a scheduler holds afterwards what it held before, with
/// what arrived and without what is finished: no operation is lost on the way
/// from one place to the next, and none is doubled.
pub proof fn lemma_step_conserves(state: PipelineState, event: Event)
    ensures
        state.after(event).held().add(state.finished(event)) == state.held().add(
            state.arrived(event),
        ),
{
    let after = state.after(event);
    match event {
        Event::Received(op) => {
            lemma_ids_enqueue(state.prepare_queue, op);
            assert(after.held().add(state.finished(event)) =~= state.held().add(
                state.arrived(event),
            ));
        },
        Event::RetryRequested(request) => {
            lemma_ids_requeued(state.prepare_queue, request);
            lemma_ids_requeued(state.submit_queue, request);
            lemma_ids_requeued(state.confirm_queue, request);
            assert(after.held().add(state.finished(event)) =~= state.held().add(
                state.arrived(event),
            ));
        },
        Event::Began(stage) => {
            let queue = state.waiting(stage);
            lemma_ids_split(queue, state.cycle_size(queue));
            if state.checking(stage).len() == 0 {
                assert(state.checking(stage) =~= Seq::<Operation>::empty());
            }
            assert(after.held().add(state.finished(event)) =~= state.held().add(
                state.arrived(event),
            ));
        },
        Event::Checked(stage, results) => {
            if state.settle(stage, results) is Ok {
                let batch = state.checking(stage);
                lemma_ids_routed(stage, batch, results);
                lemma_ids_enqueue_all(
                    state.prepare_queue,
                    arrivals(stage, batch, results, Home::PrepareQueue),
                );
                lemma_ids_enqueue_all(
                    state.submit_queue,
                    arrivals(stage, batch, results, Home::SubmitQueue),
                );
                lemma_ids_enqueue_all(
                    state.confirm_queue,
                    arrivals(stage, batch, results, Home::ConfirmQueue),
                );
            }
            assert(after.held().add(state.finished(event)) =~= state.held().add(
                state.arrived(event),
            ));
        },
        Event::SubmitBegan => {
            let queue = state.submit_queue;
            lemma_ids_split(queue, state.cycle_size(queue));
            if state.submitting.len() == 0 {
                assert(state.submitting =~= Seq::<Operation>::empty());
            }
            assert(after.held().add(state.finished(event)) =~= state.held().add(
                state.arrived(event),
            ));
        },
        Event::SubmitReturned => {
            if state.single_submit() is Ok {
                lemma_ids_enqueue(state.confirm_queue, state.submitting[0]);
                lemma_ids_split(state.submitting, 1);
                let first = state.submitting.take(1);
                assert(first.drop_last() =~= Seq::<Operation>::empty());
                assert(first.last() == state.submitting[0]);
                assert(ids(first.drop_last()) =~= Multiset::empty());
                assert(ids(first) =~= Multiset::singleton(state.submitting[0].id));
            }
            assert(after.held().add(state.finished(event)) =~= state.held().add(
                state.arrived(event),
            ));
        },
        Event::BatchReturned(outcome) => {
            if state.batch_settle(outcome) is Ok && outcome == BatchOutcome::Submitted {
                lemma_ids_delayed(state.submitting);
                lemma_ids_enqueue_all(state.confirm_queue, delayed_all(state.submitting));
            }
            assert(after.held().add(state.finished(event)) =~= state.held().add(
                state.arrived(event),
            ));
        },
        Event::TaskEnded(exit) => {
            assert(after.held().add(state.finished(event)) =~= state.held().add(
                state.arrived(event),
            ));
        },
    }
}

/// In the course of any events a scheduler comes to hold what it held at
/// first, with all that arrived and without all that is finished.
pub proof fn lemma_run_conserves(state: PipelineState, events: Seq<Event>)
    ensures
        state.after_all(events).held().add(state.finished_all(events)) == state.held().add(
            state.arrived_all(events),
        ),
    decreases events.len(),
{
    if events.len() == 0 {
        assert(state.after_all(events).held().add(state.finished_all(events)) =~= state.held().add(
            state.arrived_all(events),
        ));
    } else {
        let earlier = events.drop_last();
        let before = state.after_all(earlier);
        lemma_run_conserves(state, earlier);
        lemma_step_conserves(before, events.last());
        let held = state.after_all(events).held();
        assert(held == before.after(events.last()).held());
        let finished = before.finished(events.last());
        let arrived = before.arrived(events.last());
        assert forall|id: u64|
            held.add(state.finished_all(events)).count(id) == state.held().add(
                state.arrived_all(events),
            ).count(id) by {
            assert(held.add(finished).count(id) == before.held().add(arrived).count(id));
            assert(before.held().add(state.finished_all(earlier)).count(id) == state.held().add(
                state.arrived_all(earlier),
            ).count(id));
        }
        assert(held.add(state.finished_all(events)) =~= state.held().add(
            state.arrived_all(events),
        ));
    }
}

/// A scheduler that holds no operation twice still holds none twice after
/// anything that happens, unless an operation arrives that it holds already.
pub proof fn lemma_step_keeps_apart(state: PipelineState, event: Event)
    requires
        forall|id: u64| state.held().count(id) <= 1,
        event matches Event::Received(op) ==> state.held().count(op.id) == 0,
    ensures
        forall|id: u64| state.after(event).held().count(id) <= 1,
{
    lemma_step_conserves(state, event);
    assert forall|id: u64| state.after(event).held().count(id) <= 1 by {
        assert(state.after(event).held().add(state.finished(event)).count(id) == state.held().add(
            state.arrived(event),
        ).count(id));
    }
}

} // verus!
