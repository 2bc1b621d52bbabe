use prometheus::{IntGaugeVec, Opts};
use serial_submitter::metrics::QueueLengthGauges;
use serial_submitter::op_queue::OperationQueue;
use serial_submitter::operation::{MessageRetryRequest, Operation};

fn gauges() -> IntGaugeVec {
    IntGaugeVec::new(Opts::new("submitter_queue_length", "operations waiting"), &["remote", "queue_name"])
        .unwrap()
}

fn queue_on(gauges: &IntGaugeVec) -> OperationQueue {
    OperationQueue::new(
        QueueLengthGauges { inner: gauges.clone() },
        "prepare_queue".to_string(),
        "ethereum".to_string(),
    )
}

fn failed(id: u64, retries: u32) -> Operation {
    Operation { retries, ..Operation::new(id, 3, None) }
}

#[test]
fn new_queue_is_empty_and_keeps_its_label() {
    let queue = queue_on(&gauges());
    assert!(queue.is_empty());
    assert_eq!(queue.len(), 0);
    assert_eq!(queue.label(), "prepare_queue");
    assert_eq!(queue.operations(), &Vec::<Operation>::new());
}

#[test]
fn push_puts_fewer_failures_first_and_keeps_arrival_order_among_equals() {
    let mut queue = queue_on(&gauges());
    queue.push(failed(1, 2));
    queue.push(failed(2, 0));
    queue.push(failed(3, 1));
    queue.push(failed(4, 0));
    queue.push(failed(5, 2));
    assert_eq!(
        queue.operations(),
        &vec![failed(2, 0), failed(4, 0), failed(3, 1), failed(1, 2), failed(5, 2)]
    );
    assert_eq!(queue.len(), 5);
    assert!(!queue.is_empty());
}

#[test]
fn never_retried_operation_overtakes_retried_ones() {
    let mut queue = queue_on(&gauges());
    queue.push(failed(1, 7));
    queue.push(failed(2, 1));
    queue.push(failed(3, 0));
    assert_eq!(queue.pop_many(1), vec![failed(3, 0)]);
    assert_eq!(queue.pop_many(1), vec![failed(2, 1)]);
    assert_eq!(queue.pop_many(1), vec![failed(1, 7)]);
}

#[test]
fn pop_many_takes_at_most_the_limit_from_the_front() {
    let mut queue = queue_on(&gauges());
    for id in 1..=5 {
        queue.push(failed(id, 0));
    }
    assert_eq!(queue.pop_many(2), vec![failed(1, 0), failed(2, 0)]);
    assert_eq!(queue.operations(), &vec![failed(3, 0), failed(4, 0), failed(5, 0)]);
    assert_eq!(queue.pop_many(10), vec![failed(3, 0), failed(4, 0), failed(5, 0)]);
    assert!(queue.is_empty());
}

#[test]
fn pop_many_on_an_empty_queue_gives_nothing() {
    let mut queue = queue_on(&gauges());
    assert_eq!(queue.pop_many(3), Vec::<Operation>::new());
    assert!(queue.is_empty());
}

#[test]
fn pop_many_with_limit_zero_takes_nothing() {
    let mut queue = queue_on(&gauges());
    queue.push(failed(1, 0));
    assert_eq!(queue.pop_many(0), Vec::<Operation>::new());
    assert_eq!(queue.operations(), &vec![failed(1, 0)]);
}

#[test]
fn queue_reports_its_length_under_destination_and_label() {
    let gauges = gauges();
    let mut queue = queue_on(&gauges);
    let shown = || gauges.with_label_values(&["ethereum", "prepare_queue"]).get();
    queue.push(failed(1, 0));
    assert_eq!(shown(), 1);
    queue.push(failed(2, 0));
    queue.push(failed(3, 0));
    assert_eq!(shown(), 3);
    queue.pop_many(2);
    assert_eq!(shown(), 1);
    queue.pop_many(2);
    assert_eq!(shown(), 0);
    assert_eq!(gauges.with_label_values(&["ethereum", "submit_queue"]).get(), 0);
}

#[test]
fn gauge_with_other_labels_is_left_alone() {
    let odd = IntGaugeVec::new(Opts::new("submitter_queue_length", "operations waiting"), &["remote"])
        .unwrap();
    let mut queue = queue_on(&odd);
    queue.push(failed(1, 0));
    assert_eq!(queue.len(), 1);
    assert_eq!(odd.with_label_values(&["ethereum"]).get(), 0);
}

#[test]
fn retry_by_id_resets_the_operation_and_moves_it_forward() {
    let mut queue = queue_on(&gauges());
    queue.push(failed(1, 0));
    queue.push(failed(2, 1));
    queue.push(Operation { next_attempt_after: Some(5), ..failed(3, 4) });
    queue.push(failed(4, 9));
    queue.retry(MessageRetryRequest::MessageId(3));
    assert_eq!(
        queue.operations(),
        &vec![failed(1, 0), failed(3, 0), failed(2, 1), failed(4, 9)]
    );
}

#[test]
fn retry_by_domain_resets_every_operation_bound_for_it() {
    let mut queue = queue_on(&gauges());
    let elsewhere = Operation { destination: 8, ..failed(2, 3) };
    queue.push(failed(1, 2));
    queue.push(elsewhere);
    queue.push(failed(3, 5));
    queue.retry(MessageRetryRequest::DestinationDomain(3));
    assert_eq!(queue.operations(), &vec![failed(1, 0), failed(3, 0), elsewhere]);
}

#[test]
fn retry_that_matches_nothing_changes_nothing() {
    let mut queue = queue_on(&gauges());
    queue.push(failed(1, 0));
    queue.push(failed(2, 1));
    queue.retry(MessageRetryRequest::MessageId(77));
    assert_eq!(queue.operations(), &vec![failed(1, 0), failed(2, 1)]);
}

#[test]
fn retry_request_matching_goes_by_id_or_by_domain() {
    let op = failed(6, 1);
    assert!(MessageRetryRequest::MessageId(6).is_for(&op));
    assert!(!MessageRetryRequest::MessageId(7).is_for(&op));
    assert!(MessageRetryRequest::DestinationDomain(3).is_for(&op));
    assert!(!MessageRetryRequest::DestinationDomain(6).is_for(&op));
}
