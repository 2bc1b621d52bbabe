use prometheus::{IntCounterVec, IntGaugeVec, Opts};
use serial_submitter::batch::BatchOutcome;
use serial_submitter::metrics::{
    CoreMetrics, HyperlaneDomain, OperationCounters, QueueLengthGauges, SerialSubmitterMetrics,
};
use serial_submitter::operation::{MessageRetryRequest, Operation, StageResult};
use serial_submitter::serial_submitter::{Pipeline, SerialSubmitter, StageAction, SubmitAction};

fn fresh(max_batch_size: u32) -> Pipeline {
    let counters =
        IntCounterVec::new(Opts::new("operations_processed_count", "done"), &["phase", "chain"])
            .unwrap();
    let gauges =
        IntGaugeVec::new(Opts::new("submitter_queue_length", "waiting"), &["remote", "queue_name"])
            .unwrap();
    let core = CoreMetrics::new(OperationCounters { inner: counters }, QueueLengthGauges { inner: gauges });
    let domain = HyperlaneDomain::new(2, "two".to_string());
    let metrics = SerialSubmitterMetrics::new(&core, &domain);
    SerialSubmitter::new(domain, metrics, max_batch_size).spawn()
}

fn held(pipeline: &Pipeline) -> Vec<u64> {
    let mut ids: Vec<u64> = Vec::new();
    for place in [
        pipeline.prepare_queue().operations(),
        pipeline.submit_queue().operations(),
        pipeline.confirm_queue().operations(),
        pipeline.preparing(),
        pipeline.submitting(),
        pipeline.confirming(),
    ] {
        ids.extend(place.iter().map(|op| op.id));
    }
    ids.sort();
    ids
}

#[test]
fn every_operation_is_in_one_place_until_it_is_finished() {
    let mut pipeline = fresh(3);
    for id in 1..=6 {
        pipeline.receive_task(Some(Operation::new(id, 2, Some(1))));
        assert_eq!(held(&pipeline), (1..=id).collect::<Vec<u64>>());
    }

    assert!(matches!(pipeline.prepare_task(), Ok(StageAction::Run(_))));
    assert_eq!(held(&pipeline), vec![1, 2, 3, 4, 5, 6]);
    pipeline
        .prepare_returned(&vec![StageResult::Success, StageResult::Drop, StageResult::Reprepare])
        .unwrap();
    assert_eq!(held(&pipeline), vec![1, 3, 4, 5, 6]);

    pipeline.retry(MessageRetryRequest::MessageId(3));
    assert_eq!(held(&pipeline), vec![1, 3, 4, 5, 6]);

    assert!(matches!(pipeline.prepare_task(), Ok(StageAction::Run(_))));
    pipeline
        .prepare_returned(&vec![StageResult::Success, StageResult::Confirm, StageResult::NotReady])
        .unwrap();
    assert_eq!(held(&pipeline), vec![1, 3, 4, 5, 6]);

    assert!(matches!(pipeline.submit_task(), Ok(SubmitAction::Batch(_))));
    assert_eq!(held(&pipeline), vec![1, 3, 4, 5, 6]);
    pipeline.batch_returned(BatchOutcome::Failed).unwrap();
    assert_eq!(held(&pipeline), vec![1, 3, 4, 5, 6]);
    pipeline.submit_returned().unwrap();
    assert_eq!(held(&pipeline), vec![1, 3, 4, 5, 6]);
    pipeline.submit_returned().unwrap();
    assert_eq!(held(&pipeline), vec![1, 3, 4, 5, 6]);

    assert!(matches!(pipeline.confirm_task(), Ok(StageAction::Run(_))));
    assert_eq!(held(&pipeline), vec![1, 3, 4, 5, 6]);
    assert_eq!(pipeline.confirming().len(), 3);
    pipeline
        .confirm_returned(&vec![StageResult::Success, StageResult::Reprepare, StageResult::Drop])
        .unwrap();
    assert_eq!(held(&pipeline).len(), 3);

    let mut in_queues = 0;
    in_queues += pipeline.prepare_queue().len();
    in_queues += pipeline.submit_queue().len();
    in_queues += pipeline.confirm_queue().len();
    assert_eq!(in_queues, 3);
    assert!(pipeline.preparing().is_empty());
    assert!(pipeline.submitting().is_empty());
    assert!(pipeline.confirming().is_empty());
}

#[test]
fn an_operation_that_is_never_ready_stays_queued() {
    let mut pipeline = fresh(2);
    let op = Operation::new(9, 2, None);
    pipeline.receive_task(Some(op));
    for _ in 0..5 {
        assert_eq!(pipeline.prepare_task(), Ok(StageAction::Run(vec![op])));
        assert_eq!(pipeline.prepare_returned(&vec![StageResult::NotReady]), Ok(Some(500)));
        assert_eq!(pipeline.prepare_queue().operations(), &vec![op]);
        assert_eq!(held(&pipeline), vec![9]);
    }
}

#[test]
fn only_one_submission_call_is_in_flight() {
    let mut pipeline = fresh(2);
    for id in 1..=5 {
        pipeline.receive_task(Some(Operation::new(id, 2, Some(1))));
    }
    while let Ok(StageAction::Run(batch)) = pipeline.prepare_task() {
        pipeline.prepare_returned(&vec![StageResult::Success; batch.len()]).unwrap();
    }
    let mut in_flight = 0;
    let mut submitted = 0;
    loop {
        assert_eq!(in_flight, 0);
        match pipeline.submit_task().unwrap() {
            SubmitAction::Sleep(_) => break,
            SubmitAction::Single(_) => {
                in_flight += 1;
                assert!(pipeline.submit_task().is_err());
                in_flight -= 1;
                assert_eq!(pipeline.submit_returned(), Ok(None));
                submitted += 1;
            },
            SubmitAction::Batch(call) => {
                in_flight += 1;
                assert!(pipeline.submit_task().is_err());
                in_flight -= 1;
                let mut next = pipeline.batch_returned(BatchOutcome::Failed).unwrap();
                while let Some(_) = next {
                    in_flight += 1;
                    assert_eq!(in_flight, 1);
                    assert!(pipeline.submit_task().is_err());
                    in_flight -= 1;
                    next = pipeline.submit_returned().unwrap();
                    submitted += 1;
                }
                assert_eq!(call.items.len(), 2);
            },
        }
    }
    assert_eq!(submitted, 5);
    assert_eq!(pipeline.confirm_queue().len(), 5);
}
