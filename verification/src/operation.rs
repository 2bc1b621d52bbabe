//! The operations that the scheduler moves, and what a stage says of them.

use vstd::prelude::*;

verus! {

/// The delay, in milliseconds, that an operation waits for its confirmation
/// check once it has gone out in a combined submission.
pub const CONFIRM_DELAY_MS: u64 = 600_000;

/// The outcome of one stage call on one operation.
#[derive(Clone, Copy, Debug, PartialEq, Eq, Structural)]
pub enum StageResult {
    /// The stage did what it is for: the operation moves on, or is complete.
    Success,
    /// The stage cannot run yet: the same stage is tried again later.
    NotReady,
    /// The operation failed in a way that it can recover from: it starts
    /// over at preparation, and counts as a failure.
    Reprepare,
    /// The operation is given up for good.
    Drop,
    /// The operation is known to be submitted: it goes straight to
    /// confirmation.
    Confirm,
}

/// Why a group of operations does not go out as one transaction.
#[derive(Clone, Copy, Debug, PartialEq, Eq, Structural)]
pub enum BatchError {
    /// The group holds no operation.
    BatchIsEmpty,
    /// An operation of the group cannot be part of a combined submission.
    BatchingFailed,
}

/// One operation's part of a combined submission.
#[derive(Clone, Copy, Debug, PartialEq, Eq)]
pub struct BatchItem {
    /// The operation that the item stands for.
    pub id: u64,
    /// The endpoint that takes the combined submission.
    pub mailbox: u64,
}

/// A request from outside to try operations again at once, whatever they
/// have been through.
#[derive(Clone, Copy, Debug, PartialEq, Eq, Structural)]
pub enum MessageRetryRequest {
    /// The operation with this id.
    MessageId(u64),
    /// Every operation bound for this domain.
    DestinationDomain(u32),
}

/// What the scheduler knows of one message on its way to one destination.
#[derive(Clone, Copy, Debug, PartialEq, Eq)]
pub struct Operation {
    /// Tells this operation from every other.
    pub id: u64,
    /// The domain that the message is bound for.
    pub destination: u32,
    /// How often the operation has been sent back to preparation.
    pub retries: u32,
    /// The endpoint that takes the message in a combined submission, where
    /// the operation can be part of one.
    pub mailbox: Option<u64>,
    /// The least time, in milliseconds, to let pass before the next attempt.
    pub next_attempt_after: Option<u64>,
}

impl Operation {
    /// The operation after one more failure: its retry count goes up by one
    /// and stays at the largest count once it is there.
    pub open spec fn reprepared(self) -> Operation {
        Operation {
            retries: if self.retries < u32::MAX {
                (self.retries + 1) as u32
            } else {
                self.retries
            },
            ..self
        }
    }

    /// The operation made to wait `delay` milliseconds for its next attempt.
    pub open spec fn delayed(self, delay: u64) -> Operation {
        Operation { next_attempt_after: Some(delay), ..self }
    }

    /// The operation as a stage call with the given result leaves it: a
    /// failure that sends it back to preparation is counted on it, any other
    /// result leaves it as it was.
    pub open spec fn settled(self, result: StageResult) -> Operation {
        if result == StageResult::Reprepare {
            self.reprepared()
        } else {
            self
        }
    }

    /// The operation with its past forgotten: never retried, free to run at
    /// once.
    pub open spec fn reset(self) -> Operation {
        Operation { retries: 0, next_attempt_after: None, ..self }
    }

    /// The operation's part of a combined submission, where it can have one.
    pub open spec fn batch_item(self) -> Result<BatchItem, BatchError> {
        match self.mailbox {
            Some(mailbox) => Ok(BatchItem { id: self.id, mailbox }),
            None => Err(BatchError::BatchingFailed),
        }
    }

    /// A fresh operation: never retried, free to run at once.
    pub fn new(id: u64, destination: u32, mailbox: Option<u64>) -> (op: Self)
        ensures
            op == (Operation { id, destination, retries: 0, mailbox, next_attempt_after: None }),
    {
        Operation { id, destination, retries: 0, mailbox, next_attempt_after: None }
    }

    /// Counts one more failure on the operation.
    pub fn on_reprepare(&mut self)
        ensures
            *final(self) == old(self).reprepared(),
    {
        if self.retries < u32::MAX {
            self.retries = self.retries + 1;
        }
    }

    /// Records on the operation what a stage call returned for it.
    pub fn settle(&mut self, result: StageResult)
        ensures
            *final(self) == old(self).settled(result),
    {
        if result == StageResult::Reprepare {
            self.on_reprepare();
        }
    }

    /// Forgets the operation's past: it counts as never retried and is free
    /// to run at once.
    pub fn reset_attempts(&mut self)
        ensures
            *final(self) == old(self).reset(),
    {
        self.retries = 0;
        self.next_attempt_after = None;
    }

    /// Makes the operation wait `delay` milliseconds for its next attempt.
    pub fn set_next_attempt_after(&mut self, delay: u64)
        ensures
            *final(self) == old(self).delayed(delay),
    {
        self.next_attempt_after = Some(delay);
    }

    /// Turns the operation into its part of a combined submission, or says
    /// that it cannot be part of one.
    pub fn try_batch(&self) -> (item: Result<BatchItem, BatchError>)
        ensures
            item == self.batch_item(),
    {
        match self.mailbox {
            Some(mailbox) => Ok(BatchItem { id: self.id, mailbox }),
            None => Err(BatchError::BatchingFailed),
        }
    }

    /// The domain that the operation is bound for.
    pub fn destination_domain(&self) -> (domain: u32)
        ensures
            domain == self.destination,
    {
        self.destination
    }

    /// How often the operation has been sent back to preparation.
    pub fn retry_count(&self) -> (retries: u32)
        ensures
            retries == self.retries,
    {
        self.retries
    }
}

impl MessageRetryRequest {
    /// Whether the request is for `op`.
    pub open spec fn matches(self, op: Operation) -> bool {
        match self {
            MessageRetryRequest::MessageId(id) => op.id == id,
            MessageRetryRequest::DestinationDomain(domain) => op.destination == domain,
        }
    }

    /// The operation as the request leaves it: reset where the request is for
    /// it.
    pub open spec fn applied(self, op: Operation) -> Operation {
        if self.matches(op) {
            op.reset()
        } else {
            op
        }
    }

    /// Whether the request is for `op`.
    pub fn is_for(&self, op: &Operation) -> (hit: bool)
        ensures
            hit == self.matches(*op),
    {
        match self {
            MessageRetryRequest::MessageId(id) => op.id == *id,
            MessageRetryRequest::DestinationDomain(domain) => op.destination == *domain,
        }
    }
}

} // verus!
