use prometheus::{IntCounterVec, IntGaugeVec, Opts};
use serial_submitter::batch::{BatchCall, BatchOutcome};
use serial_submitter::metrics::{
    CoreMetrics, HyperlaneDomain, OperationCounters, QueueLengthGauges, SerialSubmitterMetrics,
};
use serial_submitter::operation::{BatchItem, Operation, StageResult, CONFIRM_DELAY_MS};
use serial_submitter::serial_submitter::{Pipeline, SerialSubmitter, StageAction, SubmitAction};

const DOMAIN: u32 = 11;
const CHAIN: &str = "testchain";

struct Bench {
    counters: IntCounterVec,
    gauges: IntGaugeVec,
    pipeline: Pipeline,
}

impl Bench {
    fn count(&self, phase: &str) -> u64 {
        self.counters.with_label_values(&[phase, CHAIN]).get()
    }

    fn counts(&self) -> (u64, u64, u64, u64, u64) {
        (
            self.count("prepared"),
            self.count("submitted"),
            self.count("confirmed"),
            self.count("failed"),
            self.count("dropped"),
        )
    }

    fn depth(&self, queue: &str) -> i64 {
        self.gauges.with_label_values(&[CHAIN, queue]).get()
    }
}

fn bench(max_batch_size: u32) -> Bench {
    let counters = IntCounterVec::new(
        Opts::new("operations_processed_count", "operations processed"),
        &["phase", "chain"],
    )
    .unwrap();
    let gauges = IntGaugeVec::new(
        Opts::new("submitter_queue_length", "operations waiting"),
        &["remote", "queue_name"],
    )
    .unwrap();
    let core = CoreMetrics::new(
        OperationCounters { inner: counters.clone() },
        QueueLengthGauges { inner: gauges.clone() },
    );
    let domain = HyperlaneDomain::new(DOMAIN, CHAIN.to_string());
    let metrics = SerialSubmitterMetrics::new(&core, &domain);
    let pipeline = SerialSubmitter::new(domain, metrics, max_batch_size).spawn();
    Bench { counters, gauges, pipeline }
}

fn op(id: u64) -> Operation {
    Operation::new(id, DOMAIN, Some(900))
}

#[test]
fn one_operation_runs_through_all_stages() {
    let mut b = bench(4);
    assert!(b.pipeline.receive_task(Some(op(1))));
    assert_eq!(b.pipeline.prepare_queue().operations(), &vec![op(1)]);
    assert_eq!(b.depth("prepare_queue"), 1);

    assert_eq!(b.pipeline.prepare_task(), Ok(StageAction::Run(vec![op(1)])));
    assert_eq!(b.depth("prepare_queue"), 0);
    assert_eq!(b.pipeline.prepare_returned(&vec![StageResult::Success]), Ok(None));
    assert_eq!(b.counts(), (1, 0, 0, 0, 0));
    assert_eq!(b.pipeline.submit_queue().operations(), &vec![op(1)]);
    assert_eq!(b.depth("submit_queue"), 1);

    assert_eq!(b.pipeline.submit_task(), Ok(SubmitAction::Single(op(1))));
    assert_eq!(b.pipeline.submit_returned(), Ok(None));
    assert_eq!(b.counts(), (1, 1, 0, 0, 0));
    assert_eq!(b.pipeline.confirm_queue().operations(), &vec![op(1)]);
    assert_eq!(b.depth("confirm_queue"), 1);

    assert_eq!(b.pipeline.confirm_task(), Ok(StageAction::Run(vec![op(1)])));
    assert_eq!(b.pipeline.confirm_returned(&vec![StageResult::Success]), Ok(None));
    assert_eq!(b.counts(), (1, 1, 1, 0, 0));

    assert!(b.pipeline.prepare_queue().is_empty());
    assert!(b.pipeline.submit_queue().is_empty());
    assert!(b.pipeline.confirm_queue().is_empty());
    assert!(b.pipeline.preparing().is_empty());
    assert!(b.pipeline.submitting().is_empty());
    assert!(b.pipeline.confirming().is_empty());
    assert_eq!(b.depth("prepare_queue"), 0);
    assert_eq!(b.depth("submit_queue"), 0);
    assert_eq!(b.depth("confirm_queue"), 0);
}

#[test]
fn reprepare_then_success_counts_the_failure_first() {
    let mut b = bench(4);
    b.pipeline.receive_task(Some(op(1)));

    assert_eq!(b.pipeline.prepare_task(), Ok(StageAction::Run(vec![op(1)])));
    assert_eq!(b.pipeline.prepare_returned(&vec![StageResult::Reprepare]), Ok(Some(500)));
    assert_eq!(b.counts(), (0, 0, 0, 1, 0));
    let retried = Operation { retries: 1, ..op(1) };
    assert_eq!(b.pipeline.prepare_queue().operations(), &vec![retried]);
    assert!(b.pipeline.submit_queue().is_empty());

    assert_eq!(b.pipeline.prepare_task(), Ok(StageAction::Run(vec![retried])));
    assert!(b.pipeline.prepare_queue().is_empty());
    assert_eq!(b.pipeline.prepare_returned(&vec![StageResult::Success]), Ok(None));
    assert_eq!(b.counts(), (1, 0, 0, 1, 0));
    assert!(b.pipeline.prepare_queue().is_empty());
    assert_eq!(b.pipeline.submit_queue().operations(), &vec![retried]);
}

fn three_ready_to_submit(b: &mut Bench) {
    for id in 1..=3 {
        b.pipeline.receive_task(Some(op(id)));
    }
    assert_eq!(b.pipeline.prepare_task(), Ok(StageAction::Run(vec![op(1), op(2), op(3)])));
    let all_fine = vec![StageResult::Success, StageResult::Success, StageResult::Success];
    assert_eq!(b.pipeline.prepare_returned(&all_fine), Ok(None));
    assert_eq!(b.counts(), (3, 0, 0, 0, 0));
}

fn call_for_three() -> BatchCall {
    BatchCall {
        mailbox: 900,
        items: vec![
            BatchItem { id: 1, mailbox: 900 },
            BatchItem { id: 2, mailbox: 900 },
            BatchItem { id: 3, mailbox: 900 },
        ],
    }
}

#[test]
fn ready_batch_goes_out_as_one_transaction() {
    let mut b = bench(3);
    three_ready_to_submit(&mut b);

    assert_eq!(b.pipeline.submit_task(), Ok(SubmitAction::Batch(call_for_three())));
    assert!(b.pipeline.is_combined());
    assert_eq!(b.count("submitted"), 0);
    assert!(b.pipeline.confirm_queue().is_empty());

    assert_eq!(b.pipeline.batch_returned(BatchOutcome::Submitted), Ok(None));
    assert_eq!(b.count("submitted"), 3);
    let delayed = |id: u64| Operation { next_attempt_after: Some(CONFIRM_DELAY_MS), ..op(id) };
    assert_eq!(
        b.pipeline.confirm_queue().operations(),
        &vec![delayed(1), delayed(2), delayed(3)]
    );
    assert!(b.pipeline.submitting().is_empty());
    assert!(!b.pipeline.is_combined());
    assert_eq!(b.depth("confirm_queue"), 3);
    assert_eq!(CONFIRM_DELAY_MS, 600_000);
}

#[test]
fn failed_batch_is_submitted_one_by_one() {
    let mut b = bench(3);
    three_ready_to_submit(&mut b);

    assert_eq!(b.pipeline.submit_task(), Ok(SubmitAction::Batch(call_for_three())));
    assert_eq!(b.pipeline.batch_returned(BatchOutcome::Failed), Ok(Some(op(1))));
    assert_eq!(b.count("submitted"), 0);
    assert!(b.pipeline.confirm_queue().is_empty());
    assert_eq!(b.pipeline.submitting(), &vec![op(1), op(2), op(3)]);

    assert_eq!(b.pipeline.submit_returned(), Ok(Some(op(2))));
    assert_eq!(b.count("submitted"), 1);
    assert_eq!(b.pipeline.confirm_queue().operations(), &vec![op(1)]);

    assert_eq!(b.pipeline.submit_returned(), Ok(Some(op(3))));
    assert_eq!(b.count("submitted"), 2);
    assert_eq!(b.pipeline.confirm_queue().operations(), &vec![op(1), op(2)]);

    assert_eq!(b.pipeline.submit_returned(), Ok(None));
    assert_eq!(b.count("submitted"), 3);
    assert_eq!(b.pipeline.confirm_queue().operations(), &vec![op(1), op(2), op(3)]);
    assert!(b.pipeline.submitting().is_empty());
    assert_eq!(b.counts(), (3, 3, 0, 0, 0));
}

#[test]
fn reprepare_at_confirmation_goes_back_to_preparation() {
    let mut b = bench(4);
    b.pipeline.receive_task(Some(op(1)));
    b.pipeline.prepare_task().unwrap();
    b.pipeline.prepare_returned(&vec![StageResult::Success]).unwrap();
    b.pipeline.submit_task().unwrap();
    b.pipeline.submit_returned().unwrap();

    assert_eq!(b.pipeline.confirm_task(), Ok(StageAction::Run(vec![op(1)])));
    assert_eq!(b.pipeline.confirm_returned(&vec![StageResult::Reprepare]), Ok(None));
    let retried = Operation { retries: 1, ..op(1) };
    assert_eq!(b.pipeline.prepare_queue().operations(), &vec![retried]);
    assert!(b.pipeline.confirm_queue().is_empty());
    assert_eq!(b.counts(), (1, 1, 0, 1, 0));

    assert_eq!(b.pipeline.prepare_task(), Ok(StageAction::Run(vec![retried])));
}
