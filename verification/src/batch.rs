//! A group of operations that goes out as one transaction, or one by one
//! where that fails.

use crate::metrics::{Phase, SerialSubmitterMetrics};
use crate::op_queue::{enqueue, enqueue_all, OperationQueue};
use crate::operation::{BatchError, BatchItem, Operation, CONFIRM_DELAY_MS};
use vstd::prelude::*;

verus! {

/// How the attempt to submit a group as one transaction ended.
#[derive(Clone, Copy, Debug, PartialEq, Eq, Structural)]
pub enum BatchOutcome {
    /// The transaction went out.
    Submitted,
    /// Estimation, submission or the exchange with the chain failed.
    Failed,
}

/// One transaction for several operations: what to send, and where.
#[derive(Debug, PartialEq, Eq)]
pub struct BatchCall {
    /// The endpoint that takes the transaction: that of the first item.
    pub mailbox: u64,
    /// The items, in the order of the group.
    pub items: Vec<BatchItem>,
}

/// A [`BatchCall`] as a plain value.
pub struct BatchCallView {
    pub mailbox: u64,
    pub items: Seq<BatchItem>,
}

impl View for BatchCall {
    type V = BatchCallView;

    open spec fn view(&self) -> BatchCallView {
        BatchCallView { mailbox: self.mailbox, items: self.items@ }
    }
}

/// Whether every operation of `ops` can be part of a combined submission.
pub open spec fn batchable(ops: Seq<Operation>) -> bool {
    forall|i: int| 0 <= i < ops.len() ==> (#[trigger] ops[i]).mailbox is Some
}

/// The items of the operations of `ops`, in their order.
pub open spec fn items_of(ops: Seq<Operation>) -> Seq<BatchItem> {
    Seq::new(ops.len(), |i: int| BatchItem { id: ops[i].id, mailbox: ops[i].mailbox.unwrap() })
}

/// The one transaction for `ops`, or the reason why there is none: an
/// operation that cannot be part of one, or no operation at all.
pub open spec fn batch_call(ops: Seq<Operation>) -> Result<BatchCallView, BatchError> {
    if !batchable(ops) {
        Err(BatchError::BatchingFailed)
    } else if ops.len() == 0 {
        Err(BatchError::BatchIsEmpty)
    } else {
        Ok(BatchCallView { mailbox: ops[0].mailbox.unwrap(), items: items_of(ops) })
    }
}

/// The operations of `ops`, each made to wait for its confirmation check.
pub open spec fn delayed_all(ops: Seq<Operation>) -> Seq<Operation> {
    Seq::new(ops.len(), |i: int| ops[i].delayed(CONFIRM_DELAY_MS))
}

/// Records that `op` was submitted on its own: it moves to the confirmation
/// queue and is counted.
pub fn submit_single_operation(
    op: Operation,
    confirm_queue: &mut OperationQueue,
    metrics: &mut SerialSubmitterMetrics,
)
    ensures
        final(confirm_queue)@ == enqueue(old(confirm_queue)@, op),
        final(confirm_queue).spec_label() == old(confirm_queue).spec_label(),
        final(metrics)@ == old(metrics)@.plus(Phase::Submitted, 1),
        final(metrics).spec_destination() == old(metrics).spec_destination(),
{
    confirm_queue.push(op);
    metrics.record(Phase::Submitted, 1);
}

/// Operations for one destination that are ready at the same time.
pub struct OperationBatch {
    operations: Vec<Operation>,
    domain: u32,
}

impl View for OperationBatch {
    type V = Seq<Operation>;

    /// The operations of the group, in order.
    closed spec fn view(&self) -> Seq<Operation> {
        self.operations@
    }
}

impl OperationBatch {
    /// The destination of the group.
    pub closed spec fn spec_domain(&self) -> u32 {
        self.domain
    }

    /// The group of `operations`, bound for `domain`.
    pub fn new(operations: Vec<Operation>, domain: u32) -> (batch: Self)
        ensures
            batch@ == operations@,
            batch.spec_domain() == domain,
    {
        OperationBatch { operations, domain }
    }

    /// Builds the one transaction that submits the whole group. There is none
    /// where an operation cannot be part of a combined submission, and none
    /// for an empty group.
    pub fn try_submit_as_batch(&self) -> (call: Result<BatchCall, BatchError>)
        ensures
            match call {
                Ok(made) => batch_call(self@) == Ok::<BatchCallView, BatchError>(made@),
                Err(error) => batch_call(self@) == Err::<BatchCallView, BatchError>(error),
            },
    {
        let mut items: Vec<BatchItem> = Vec::new();
        let mut at: usize = 0;
        while at < self.operations.len()
            invariant
                at <= self.operations.len(),
                batchable(self.operations@.take(at as int)),
                items@ == items_of(self.operations@.take(at as int)),
            decreases self.operations.len() - at,
        {
            match self.operations[at].try_batch() {
                Ok(item) => {
                    items.push(item);
                },
                Err(error) => {
                    assert(!batchable(self.operations@)) by {
                        assert(self.operations@[at as int].mailbox is None);
                    }
                    return Err(error);
                },
            }
            proof {
                let before = self.operations@.take(at as int);
                let now = self.operations@.take(at + 1);
                assert forall|i: int| 0 <= i < now.len() implies (#[trigger] now[i]).mailbox is Some by {
                    if i < at {
                        assert(before[i] == now[i]);
                    }
                }
                assert(items@ =~= items_of(now));
            }
            at += 1;
        }
        assert(self.operations@.take(at as int) =~= self.operations@);
        if items.len() == 0 {
            return Err(BatchError::BatchIsEmpty);
        }
        let mailbox: u64 = items[0].mailbox;
        Ok(BatchCall { mailbox, items })
    }

    /// Acts on the outcome of the combined submission. Where it went out,
    /// every operation of the group is made to wait for its confirmation check
    /// and moves to the confirmation queue, the group is counted as submitted
    /// in one step, and nothing is left to do. Where it failed, nothing is
    /// moved or counted, and the whole group is handed back, in order, to be
    /// submitted one by one.
    pub fn submit(
        self,
        outcome: BatchOutcome,
        confirm_queue: &mut OperationQueue,
        metrics: &mut SerialSubmitterMetrics,
    ) -> (serial: Vec<Operation>)
        ensures
            outcome == BatchOutcome::Submitted ==> {
                &&& final(confirm_queue)@ == enqueue_all(old(confirm_queue)@, delayed_all(self@))
                &&& final(metrics)@ == old(metrics)@.plus(Phase::Submitted, self@.len())
                &&& serial@.len() == 0
            },
            outcome == BatchOutcome::Failed ==> {
                &&& final(confirm_queue)@ == old(confirm_queue)@
                &&& final(metrics)@ == old(metrics)@
                &&& serial@ == self@
            },
            final(confirm_queue).spec_label() == old(confirm_queue).spec_label(),
            final(metrics).spec_destination() == old(metrics).spec_destination(),
    {
        match outcome {
            BatchOutcome::Submitted => {
                metrics.record(Phase::Submitted, self.operations.len() as u64);
                let mut at: usize = 0;
                while at < self.operations.len()
                    invariant
                        at <= self.operations.len(),
                        confirm_queue@ == enqueue_all(
                            old(confirm_queue)@,
                            delayed_all(self.operations@.take(at as int)),
                        ),
                        confirm_queue.spec_label() == old(confirm_queue).spec_label(),
                    decreases self.operations.len() - at,
                {
                    let mut op = self.operations[at];
                    op.set_next_attempt_after(CONFIRM_DELAY_MS);
                    confirm_queue.push(op);
                    proof {
                        let before = delayed_all(self.operations@.take(at as int));
                        let now = delayed_all(self.operations@.take(at + 1));
                        assert(now.drop_last() =~= before);
                        assert(now.last() == op);
                    }
                    at += 1;
                }
                assert(self.operations@.take(at as int) =~= self.operations@);
                Vec::new()
            },
            BatchOutcome::Failed => self.submit_serially(),
        }
    }

    /// Hands the group over to be submitted one operation at a time, in its
    /// order.
    pub fn submit_serially(self) -> (operations: Vec<Operation>)
        ensures
            operations@ == self@,
    {
        self.operations
    }
}

} // verus!
