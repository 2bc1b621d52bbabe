//! The single execution slot: at most one submission call is in flight, and
//! a batch whose one transaction failed goes out one operation at a time.

use crate::batch::{batch_call, BatchOutcome};
use crate::metrics::Phase;
use crate::model::{Event, PipelineState, StageError, SubmitStep};
use crate::op_queue::enqueue_all;
use crate::operation::Operation;
use vstd::prelude::*;

verus! {

impl PipelineState {
    /// How many submission calls the stage has asked for that have not
    /// returned: one while it holds operations, none while its hands are
    /// empty.
    pub open spec fn calls_in_flight(self) -> nat {
        if self.submitting.len() > 0 {
            1
        } else {
            0
        }
    }

    /// Whether, with `event`, the submission stage asks for a submission
    /// call.
    pub open spec fn starts_call(self, event: Event) -> bool {
        match event {
            Event::SubmitBegan => self.submit_begin() matches Ok(step) && !(step is Sleep),
            Event::SubmitReturned => self.single_submit() matches Ok(Some(_)),
            Event::BatchReturned(outcome) => self.batch_settle(outcome) matches Ok(Some(_)),
            _ => false,
        }
    }

    /// Whether `event` is the return of a submission call that the stage
    /// takes.
    pub open spec fn ends_call(self, event: Event) -> bool {
        match event {
            Event::SubmitReturned => self.single_submit() is Ok,
            Event::BatchReturned(outcome) => self.batch_settle(outcome) is Ok,
            _ => false,
        }
    }

    /// How many submission calls the stage asks for in the course of
    /// `events`.
    pub open spec fn calls_started(self, events: Seq<Event>) -> nat
        decreases events.len(),
    {
        if events.len() == 0 {
            0
        } else {
            self.calls_started(events.drop_last()) + if self.after_all(
                events.drop_last(),
            ).starts_call(events.last()) {
                1nat
            } else {
                0nat
            }
        }
    }

    /// How many returns of submission calls the stage takes in the course of
    /// `events`.
    pub open spec fn calls_ended(self, events: Seq<Event>) -> nat
        decreases events.len(),
    {
        if events.len() == 0 {
            0
        } else {
            self.calls_ended(events.drop_last()) + if self.after_all(events.drop_last()).ends_call(
                events.last(),
            ) {
                1nat
            } else {
                0nat
            }
        }
    }

    /// The state after the submissions of the first `count` operations in the
    /// hands of the submission stage have returned, one after the other.
    pub open spec fn serially_submitted(self, count: nat) -> PipelineState
        decreases count,
    {
        if count == 0 {
            self
        } else {
            self.serially_submitted((count - 1) as nat).single_submitted()
        }
    }
}

/// The submission stage takes the return of a call only while one is in
/// flight, and asks for a call only when none is in flight or the one in
/// flight has just returned. So after anything that happens at most one call
/// is in flight: the one that was, unless it returned, or the one that was
/// asked for.
pub proof fn lemma_single_slot(state: PipelineState, event: Event)
    ensures
        state.ends_call(event) ==> state.calls_in_flight() == 1,
        state.starts_call(event) && !state.ends_call(event) ==> state.calls_in_flight() == 0,
        state.after(event).calls_in_flight() + (if state.ends_call(event) {
            1nat
        } else {
            0nat
        }) == state.calls_in_flight() + (if state.starts_call(event) {
            1nat
        } else {
            0nat
        }),
        state.after(event).calls_in_flight() <= 1,
{
}

/// In the course of any events, the calls that the submission stage has asked
/// for and that have not returned are those that were in flight at first and
/// those asked for since, without those that returned: never more than one.
pub proof fn lemma_run_single_slot(state: PipelineState, events: Seq<Event>)
    ensures
        state.after_all(events).calls_in_flight() + state.calls_ended(events)
            == state.calls_in_flight() + state.calls_started(events),
        state.after_all(events).calls_in_flight() <= 1,
    decreases events.len(),
{
    if events.len() > 0 {
        lemma_run_single_slot(state, events.drop_last());
        lemma_single_slot(state.after_all(events.drop_last()), events.last());
    }
}

/// Operations that the submission stage holds to submit one by one go out in
/// their order, each once. Once the submissions of the first `count` of them
/// have returned, exactly these have been added to the confirmation queue, in
/// their order, and `count` submissions have been counted, one at a time; the
/// stage still holds the others; nothing else has changed. The return of each
/// submission asks for the next operation, and the last one for none.
pub proof fn lemma_submits_each_once(state: PipelineState, count: nat)
    requires
        !state.combined,
        count <= state.submitting.len(),
    ensures
        state.serially_submitted(count) == (PipelineState {
            confirm_queue: enqueue_all(state.confirm_queue, state.submitting.take(count as int)),
            submitting: state.submitting.skip(count as int),
            tally: state.tally.plus(Phase::Submitted, count),
            ..state
        }),
        count < state.submitting.len() ==> state.serially_submitted(count).single_submit() == Ok::<
            Option<Operation>,
            StageError,
        >(
            if count + 1 < state.submitting.len() {
                Some(state.submitting[count as int + 1])
            } else {
                None
            },
        ),
    decreases count,
{
    if count == 0 {
        assert(state.submitting.take(0) =~= Seq::<Operation>::empty());
        assert(state.submitting.skip(0) =~= state.submitting);
        assert(state.serially_submitted(0) =~= (PipelineState {
            confirm_queue: enqueue_all(state.confirm_queue, state.submitting.take(0)),
            submitting: state.submitting.skip(0),
            tally: state.tally.plus(Phase::Submitted, 0),
            ..state
        }));
    } else {
        let fewer = (count - 1) as nat;
        lemma_submits_each_once(state, fewer);
        let before = state.serially_submitted(fewer);
        assert(before.submitting[0] == state.submitting[fewer as int]);
        assert(state.submitting.take(count as int).drop_last() =~= state.submitting.take(
            fewer as int,
        ));
        assert(state.submitting.take(count as int).last() == state.submitting[fewer as int]);
        assert(before.submitting.skip(1) =~= state.submitting.skip(count as int));
        assert(before.single_submitted() =~= (PipelineState {
            confirm_queue: enqueue_all(state.confirm_queue, state.submitting.take(count as int)),
            submitting: state.submitting.skip(count as int),
            tally: state.tally.plus(Phase::Submitted, count),
            ..state
        }));
    }
}

/// A batch whose one transaction failed is submitted one by one. The failure
/// moves nothing and counts nothing, and asks for the first operation of the
/// batch. When the submissions have returned, every operation of the batch
/// has been submitted once, in the order of the batch, all of them wait to be
/// confirmed, as many submissions have been counted, and the stage holds
/// nothing: no operation is dropped, none is doubled.
pub proof fn lemma_fallback_submits_each_once(state: PipelineState)
    requires
        state.combined,
        0 < state.submitting.len(),
    ensures
        state.batch_settle(BatchOutcome::Failed) == Ok::<Option<Operation>, StageError>(
            Some(state.submitting[0]),
        ),
        state.batch_settled(BatchOutcome::Failed) == (PipelineState { combined: false, ..state }),
        forall|count: nat|
            count < state.submitting.len() ==> (#[trigger] state.batch_settled(
                BatchOutcome::Failed,
            ).serially_submitted(count)).single_submit() == Ok::<Option<Operation>, StageError>(
                if count + 1 < state.submitting.len() {
                    Some(state.submitting[count as int + 1])
                } else {
                    None
                },
            ),
        state.batch_settled(BatchOutcome::Failed).serially_submitted(state.submitting.len())
            == (PipelineState {
            confirm_queue: enqueue_all(state.confirm_queue, state.submitting),
            submitting: Seq::empty(),
            combined: false,
            tally: state.tally.plus(Phase::Submitted, state.submitting.len()),
            ..state
        }),
{
    let failed = state.batch_settled(BatchOutcome::Failed);
    assert forall|count: nat| count < state.submitting.len() implies (
    #[trigger] failed.serially_submitted(count)).single_submit() == Ok::<
        Option<Operation>,
        StageError,
    >(
        if count + 1 < state.submitting.len() {
            Some(state.submitting[count as int + 1])
        } else {
            None
        },
    ) by {
        lemma_submits_each_once(failed, count);
    }
    let all = state.submitting.len();
    lemma_submits_each_once(failed, all);
    assert(state.submitting.take(all as int) =~= state.submitting);
    assert(state.submitting.skip(all as int) =~= Seq::<Operation>::empty());
    assert(failed.serially_submitted(all) =~= (PipelineState {
        confirm_queue: enqueue_all(state.confirm_queue, state.submitting),
        submitting: Seq::empty(),
        combined: false,
        tally: state.tally.plus(Phase::Submitted, all),
        ..state
    }));
}

/// What the submission stage asks for at the start of a cycle depends on how
/// many operations its queue gives it: none, and it rests; one, and that one
/// is submitted on its own; more, and they go out as one transaction, unless
/// there is none for them: then they are submitted one by one, the first of
/// them first.
pub proof fn lemma_submit_dispatch(state: PipelineState)
    requires
        state.submitting.len() == 0,
    ensures
        ({
            let count = state.cycle_size(state.submit_queue);
            let batch = state.submit_queue.take(count);
            &&& count == 0 <==> state.submit_begin() is Ok && state.submit_begin()->Ok_0 is Sleep
            &&& count == 1 ==> state.submit_begin() == Ok::<SubmitStep, StageError>(
                SubmitStep::Single(state.submit_queue[0]),
            )
            &&& count > 1 ==> (state.submit_begin() is Ok && state.submit_begin()->Ok_0 is Batch
                <==> batch_call(batch) is Ok)
            &&& count > 1 && batch_call(batch) is Err ==> state.submit_begin() == Ok::<
                SubmitStep,
                StageError,
            >(SubmitStep::Single(state.submit_queue[0]))
            &&& count > 0 ==> state.submit_begun().submitting == batch
            &&& count > 0 ==> state.submit_begun().combined == (count > 1 && batch_call(batch) is Ok)
        }),
{
}

} // verus!
