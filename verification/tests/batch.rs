use prometheus::{IntCounterVec, IntGaugeVec, Opts};
use serial_submitter::batch::{submit_single_operation, BatchCall, BatchOutcome, OperationBatch};
use serial_submitter::metrics::{
    CoreMetrics, HyperlaneDomain, OperationCounters, QueueLengthGauges, SerialSubmitterMetrics,
};
use serial_submitter::op_queue::OperationQueue;
use serial_submitter::operation::{BatchError, BatchItem, Operation, StageResult, CONFIRM_DELAY_MS};

fn tools() -> (IntCounterVec, OperationQueue, SerialSubmitterMetrics) {
    let counters =
        IntCounterVec::new(Opts::new("operations_processed_count", "done"), &["phase", "chain"])
            .unwrap();
    let gauges =
        IntGaugeVec::new(Opts::new("submitter_queue_length", "waiting"), &["remote", "queue_name"])
            .unwrap();
    let core = CoreMetrics::new(
        OperationCounters { inner: counters.clone() },
        QueueLengthGauges { inner: gauges.clone() },
    );
    let metrics = SerialSubmitterMetrics::new(&core, &HyperlaneDomain::new(5, "five".to_string()));
    let queue = OperationQueue::new(
        QueueLengthGauges { inner: gauges },
        "confirm_queue".to_string(),
        "five".to_string(),
    );
    (counters, queue, metrics)
}

fn submitted(counters: &IntCounterVec) -> u64 {
    counters.with_label_values(&["submitted", "five"]).get()
}

#[test]
fn empty_batch_has_no_transaction() {
    let batch = OperationBatch::new(vec![], 5);
    assert_eq!(batch.try_submit_as_batch(), Err(BatchError::BatchIsEmpty));
}

#[test]
fn batch_with_an_operation_that_cannot_be_batched_has_no_transaction() {
    let batch = OperationBatch::new(
        vec![Operation::new(1, 5, Some(40)), Operation::new(2, 5, None), Operation::new(3, 5, Some(40))],
        5,
    );
    assert_eq!(batch.try_submit_as_batch(), Err(BatchError::BatchingFailed));
}

#[test]
fn transaction_goes_to_the_mailbox_of_the_first_operation() {
    let batch = OperationBatch::new(
        vec![Operation::new(1, 5, Some(40)), Operation::new(2, 5, Some(41))],
        5,
    );
    assert_eq!(
        batch.try_submit_as_batch(),
        Ok(BatchCall {
            mailbox: 40,
            items: vec![BatchItem { id: 1, mailbox: 40 }, BatchItem { id: 2, mailbox: 41 }],
        })
    );
}

#[test]
fn submitted_batch_is_delayed_queued_and_counted_at_once() {
    let (counters, mut queue, mut metrics) = tools();
    let a = Operation::new(1, 5, Some(40));
    let b = Operation { retries: 2, ..Operation::new(2, 5, Some(40)) };
    let left = OperationBatch::new(vec![b, a], 5).submit(BatchOutcome::Submitted, &mut queue, &mut metrics);
    assert_eq!(left, Vec::<Operation>::new());
    assert_eq!(submitted(&counters), 2);
    assert_eq!(
        queue.operations(),
        &vec![
            Operation { next_attempt_after: Some(CONFIRM_DELAY_MS), ..a },
            Operation { next_attempt_after: Some(CONFIRM_DELAY_MS), ..b },
        ]
    );
}

#[test]
fn failed_batch_is_handed_back_whole_and_in_order() {
    let (counters, mut queue, mut metrics) = tools();
    let ops = vec![Operation::new(3, 5, Some(40)), Operation::new(1, 5, Some(40)), Operation::new(2, 5, Some(40))];
    let left = OperationBatch::new(ops.clone(), 5).submit(BatchOutcome::Failed, &mut queue, &mut metrics);
    assert_eq!(left, ops);
    assert_eq!(submitted(&counters), 0);
    assert!(queue.is_empty());
}

#[test]
fn submit_serially_keeps_the_order_of_the_batch() {
    let ops = vec![Operation::new(9, 5, None), Operation::new(4, 5, None)];
    assert_eq!(OperationBatch::new(ops.clone(), 5).submit_serially(), ops);
}

#[test]
fn single_submission_queues_and_counts_one() {
    let (counters, mut queue, mut metrics) = tools();
    let op = Operation::new(1, 5, None);
    submit_single_operation(op, &mut queue, &mut metrics);
    assert_eq!(queue.operations(), &vec![op]);
    assert_eq!(submitted(&counters), 1);
    submit_single_operation(Operation::new(2, 5, None), &mut queue, &mut metrics);
    assert_eq!(submitted(&counters), 2);
}

#[test]
fn fresh_operation_has_no_retries_and_no_delay() {
    let op = Operation::new(4, 9, Some(2));
    assert_eq!(
        op,
        Operation { id: 4, destination: 9, retries: 0, mailbox: Some(2), next_attempt_after: None }
    );
    assert_eq!(op.destination_domain(), 9);
    assert_eq!(op.retry_count(), 0);
}

#[test]
fn try_batch_needs_a_mailbox() {
    assert_eq!(Operation::new(4, 9, Some(2)).try_batch(), Ok(BatchItem { id: 4, mailbox: 2 }));
    assert_eq!(Operation::new(4, 9, None).try_batch(), Err(BatchError::BatchingFailed));
}

#[test]
fn reprepare_counts_up_and_stops_at_the_largest_count() {
    let mut op = Operation::new(1, 1, None);
    op.on_reprepare();
    assert_eq!(op.retries, 1);
    op.on_reprepare();
    assert_eq!(op.retry_count(), 2);
    op.retries = u32::MAX - 1;
    op.on_reprepare();
    assert_eq!(op.retries, u32::MAX);
    op.on_reprepare();
    assert_eq!(op.retries, u32::MAX);
}

#[test]
fn only_reprepare_changes_an_operation() {
    let op = Operation { retries: 3, ..Operation::new(1, 1, Some(1)) };
    for result in [StageResult::Success, StageResult::NotReady, StageResult::Drop, StageResult::Confirm] {
        let mut seen = op;
        seen.settle(result);
        assert_eq!(seen, op);
    }
    let mut seen = op;
    seen.settle(StageResult::Reprepare);
    assert_eq!(seen, Operation { retries: 4, ..op });
}

#[test]
fn delay_and_reset_touch_only_their_fields() {
    let mut op = Operation { retries: 3, ..Operation::new(1, 1, Some(1)) };
    op.set_next_attempt_after(250);
    assert_eq!(op, Operation { id: 1, destination: 1, retries: 3, mailbox: Some(1), next_attempt_after: Some(250) });
    op.reset_attempts();
    assert_eq!(op, Operation::new(1, 1, Some(1)));
}
