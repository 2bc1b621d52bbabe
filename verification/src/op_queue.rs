//! The queue in which operations wait for a stage.
//!
//! Operations that have failed less often come first; among those that have
//! failed equally often, the one that was added first comes first.

use crate::metrics::QueueLengthGauges;
use crate::operation::{MessageRetryRequest, Operation};
use vstd::prelude::*;

verus! {

/// Operations that have failed less often stand before those that have failed
/// more often.
pub open spec fn ordered(queue: Seq<Operation>) -> bool {
    forall|i: int, j: int| 0 <= i <= j < queue.len() ==> queue[i].retries <= queue[j].retries
}

/// The length of the leading run of operations that have failed no more than
/// `retries` times: the place where an operation with that count goes.
pub open spec fn slot(queue: Seq<Operation>, retries: u32) -> int
    decreases queue.len(),
{
    if queue.len() == 0 || queue[0].retries > retries {
        0
    } else {
        1 + slot(queue.skip(1), retries)
    }
}

/// The queue with `op` added behind every operation that has failed no more
/// often than it.
pub open spec fn enqueue(queue: Seq<Operation>, op: Operation) -> Seq<Operation> {
    queue.insert(slot(queue, op.retries), op)
}

/// The queue with the operations of `ops` added one after the other.
pub open spec fn enqueue_all(queue: Seq<Operation>, ops: Seq<Operation>) -> Seq<Operation>
    decreases ops.len(),
{
    if ops.len() == 0 {
        queue
    } else {
        enqueue(enqueue_all(queue, ops.drop_last()), ops.last())
    }
}

/// The operations of `queue`, each as `request` leaves it.
pub open spec fn reset_by(queue: Seq<Operation>, request: MessageRetryRequest) -> Seq<Operation> {
    Seq::new(queue.len(), |i: int| request.applied(queue[i]))
}

/// The queue after a retry request: the operations that the request is for
/// are reset, and all are put in priority order again, those that stood
/// before others with the same retry count still before them.
pub open spec fn requeued(queue: Seq<Operation>, request: MessageRetryRequest) -> Seq<Operation> {
    enqueue_all(Seq::empty(), reset_by(queue, request))
}

/// How many operations a pop with the given limit takes from a queue of the
/// given length.
pub open spec fn taken(length: nat, limit: nat) -> nat {
    if limit < length {
        limit
    } else {
        length
    }
}

/// An index that parts a leading run of operations with at most `retries`
/// failures from an operation with more is the slot of `retries`.
pub proof fn lemma_slot_is(queue: Seq<Operation>, retries: u32, at: int)
    requires
        0 <= at <= queue.len(),
        forall|i: int| 0 <= i < at ==> queue[i].retries <= retries,
        at < queue.len() ==> queue[at].retries > retries,
    ensures
        slot(queue, retries) == at,
    decreases queue.len(),
{
    if at > 0 {
        let rest = queue.skip(1);
        assert forall|i: int| 0 <= i < at - 1 implies rest[i].retries <= retries by {
            assert(rest[i] == queue[i + 1]);
        }
        lemma_slot_is(rest, retries, at - 1);
    }
}

/// The slot of a retry count lies within the queue; what stands before it has
/// failed no more than that often, and, in an ordered queue, what stands at or
/// behind it has failed more often.
pub proof fn lemma_slot_parts(queue: Seq<Operation>, retries: u32)
    ensures
        0 <= slot(queue, retries) <= queue.len(),
        forall|i: int| 0 <= i < slot(queue, retries) ==> queue[i].retries <= retries,
        slot(queue, retries) < queue.len() ==> queue[slot(queue, retries)].retries > retries,
        ordered(queue) ==> forall|i: int|
            slot(queue, retries) <= i < queue.len() ==> queue[i].retries > retries,
    decreases queue.len(),
{
    if queue.len() > 0 && queue[0].retries <= retries {
        let rest = queue.skip(1);
        lemma_slot_parts(rest, retries);
        assert forall|i: int| 0 <= i < slot(queue, retries) implies queue[i].retries
            <= retries by {
            if i > 0 {
                assert(rest[i - 1] == queue[i]);
            }
        }
        assert(slot(rest, retries) < rest.len() ==> rest[slot(rest, retries)] == queue[slot(
            queue,
            retries,
        )]);
    }
}

/// An ordered queue stays ordered when an operation is added, and grows by
/// that one operation.
pub proof fn lemma_enqueue_ordered(queue: Seq<Operation>, op: Operation)
    requires
        ordered(queue),
    ensures
        ordered(enqueue(queue, op)),
        enqueue(queue, op).len() == queue.len() + 1,
{
    lemma_slot_parts(queue, op.retries);
}

/// An ordered queue stays ordered when operations are added, and grows by
/// their number.
pub proof fn lemma_enqueue_all_ordered(queue: Seq<Operation>, ops: Seq<Operation>)
    requires
        ordered(queue),
    ensures
        ordered(enqueue_all(queue, ops)),
        enqueue_all(queue, ops).len() == queue.len() + ops.len(),
    decreases ops.len(),
{
    if ops.len() > 0 {
        lemma_enqueue_all_ordered(queue, ops.drop_last());
        lemma_enqueue_ordered(enqueue_all(queue, ops.drop_last()), ops.last());
    }
}

/// What a pop takes from an ordered queue has failed no more often than
/// anything it leaves, and both parts are ordered.
pub proof fn lemma_pop_takes_least(queue: Seq<Operation>, limit: nat)
    requires
        ordered(queue),
    ensures
        forall|i: int, j: int|
            0 <= i < taken(queue.len(), limit) <= j < queue.len() ==> queue[i].retries
                <= queue[j].retries,
        ordered(queue.take(taken(queue.len(), limit) as int)),
        ordered(queue.skip(taken(queue.len(), limit) as int)),
{
}

/// Puts `op` into `ops` behind every operation that has failed no more often.
fn place(ops: &mut Vec<Operation>, op: Operation)
    requires
        ordered(old(ops)@),
    ensures
        final(ops)@ == enqueue(old(ops)@, op),
        ordered(final(ops)@),
{
    let mut at: usize = 0;
    while at < ops.len() && ops[at].retries <= op.retries
        invariant
            at <= ops.len(),
            forall|i: int| 0 <= i < at ==> ops@[i].retries <= op.retries,
        decreases ops.len() - at,
    {
        at += 1;
    }
    proof {
        lemma_slot_is(ops@, op.retries, at as int);
        lemma_enqueue_ordered(ops@, op);
    }
    ops.insert(at, op);
}

/// Where a queue reports its length, and under which labels.
pub struct QueueLabel {
    /// The gauges that the queue reports to.
    pub gauges: QueueLengthGauges,
    /// The name of the destination that the queue belongs to.
    pub destination: Seq<char>,
    /// The name of the queue.
    pub queue: Seq<char>,
}

/// A queue of operations in priority order, which reports its length.
pub struct OperationQueue {
    metrics: QueueLengthGauges,
    queue_metrics_label: String,
    destination: String,
    ops: Vec<Operation>,
}

impl View for OperationQueue {
    type V = Seq<Operation>;

    /// The operations that wait, the next one to leave first.
    closed spec fn view(&self) -> Seq<Operation> {
        self.ops@
    }
}

impl OperationQueue {
    #[verifier::type_invariant]
    spec fn in_order(self) -> bool {
        ordered(self.ops@)
    }

    /// Where the queue reports its length, and under which labels.
    pub closed spec fn spec_label(&self) -> QueueLabel {
        QueueLabel {
            gauges: self.metrics,
            destination: self.destination@,
            queue: self.queue_metrics_label@,
        }
    }

    /// An empty queue that reports its length to `metrics` under the name
    /// `queue_metrics_label`, for the destination `destination`.
    pub fn new(metrics: QueueLengthGauges, queue_metrics_label: String, destination: String) -> (queue:
        Self)
        ensures
            queue@ == Seq::<Operation>::empty(),
            queue.spec_label() == (QueueLabel {
                gauges: metrics,
                destination: destination@,
                queue: queue_metrics_label@,
            }),
    {
        OperationQueue { metrics, queue_metrics_label, destination, ops: Vec::new() }
    }

    /// Adds `op` behind every operation that has failed no more often.
    pub fn push(&mut self, op: Operation)
        ensures
            final(self)@ == enqueue(old(self)@, op),
            ordered(final(self)@),
            final(self).spec_label() == old(self).spec_label(),
    {
        proof {
            use_type_invariant(&*self);
        }
        let mut ops: Vec<Operation> = Vec::new();
        std::mem::swap(&mut ops, &mut self.ops);
        place(&mut ops, op);
        self.ops = ops;
        self.metrics.report(
            self.destination.as_str(),
            self.queue_metrics_label.as_str(),
            self.ops.len(),
        );
    }

    /// Acts on a retry request: the operations that it is for are reset, and
    /// the queue is put in priority order again.
    pub fn retry(&mut self, request: MessageRetryRequest)
        ensures
            final(self)@ == requeued(old(self)@, request),
            ordered(final(self)@),
            final(self).spec_label() == old(self).spec_label(),
    {
        let mut waiting: Vec<Operation> = Vec::new();
        std::mem::swap(&mut waiting, &mut self.ops);
        let mut ops: Vec<Operation> = Vec::new();
        let mut at: usize = 0;
        while at < waiting.len()
            invariant
                at <= waiting.len(),
                ordered(ops@),
                ops@ == enqueue_all(Seq::empty(), reset_by(waiting@.take(at as int), request)),
            decreases waiting.len() - at,
        {
            let mut op = waiting[at];
            if request.is_for(&op) {
                op.reset_attempts();
            }
            proof {
                let before = reset_by(waiting@.take(at as int), request);
                let now = reset_by(waiting@.take(at + 1), request);
                assert(now.drop_last() =~= before);
                assert(now.last() == op);
            }
            place(&mut ops, op);
            at += 1;
        }
        assert(waiting@.take(at as int) =~= waiting@);
        self.ops = ops;
    }

    /// Takes up to `limit` operations from the front of the queue and returns
    /// them in the order in which they stood. An empty queue gives none. The
    /// queue is in priority order, so what is taken has failed no more often
    /// than what stays.
    pub fn pop_many(&mut self, limit: usize) -> (popped: Vec<Operation>)
        ensures
            popped@ == old(self)@.take(taken(old(self)@.len(), limit as nat) as int),
            final(self)@ == old(self)@.skip(taken(old(self)@.len(), limit as nat) as int),
            ordered(old(self)@),
            final(self).spec_label() == old(self).spec_label(),
    {
        proof {
            use_type_invariant(&*self);
        }
        let mut ops: Vec<Operation> = Vec::new();
        std::mem::swap(&mut ops, &mut self.ops);
        let count: usize = if limit < ops.len() {
            limit
        } else {
            ops.len()
        };
        let rest = ops.split_off(count);
        self.ops = rest;
        self.metrics.report(
            self.destination.as_str(),
            self.queue_metrics_label.as_str(),
            self.ops.len(),
        );
        ops
    }

    /// The number of operations that wait.
    pub fn len(&self) -> (length: usize)
        ensures
            length == self@.len(),
    {
        self.ops.len()
    }

    /// Whether no operation waits.
    pub fn is_empty(&self) -> (empty: bool)
        ensures
            empty == (self@.len() == 0),
    {
        self.ops.len() == 0
    }

    /// The operations that wait, the next one to leave first.
    pub fn operations(&self) -> (ops: &Vec<Operation>)
        ensures
            ops@ == self@,
            ordered(self@),
    {
        proof {
            use_type_invariant(self);
        }
        &self.ops
    }

    /// The name under which the queue reports its length.
    pub fn label(&self) -> (label: &str)
        ensures
            label@ == self.spec_label().queue,
    {
        self.queue_metrics_label.as_str()
    }

    /// The name of the destination for which the queue reports its length.
    pub fn destination(&self) -> (name: &str)
        ensures
            name@ == self.spec_label().destination,
    {
        self.destination.as_str()
    }
}

} // verus!
