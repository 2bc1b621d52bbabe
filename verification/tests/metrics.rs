use prometheus::{IntCounterVec, IntGaugeVec, Opts};
use serial_submitter::metrics::{
    gauge_value, CoreMetrics, HyperlaneDomain, OperationCounters, Phase, QueueLengthGauges,
    SerialSubmitterMetrics,
};

fn counters_with(labels: &[&str]) -> IntCounterVec {
    IntCounterVec::new(Opts::new("operations_processed_count", "done"), labels).unwrap()
}

fn gauges_with(labels: &[&str]) -> IntGaugeVec {
    IntGaugeVec::new(Opts::new("submitter_queue_length", "waiting"), labels).unwrap()
}

fn metrics_on(counters: &IntCounterVec, gauges: &IntGaugeVec, chain: &str) -> SerialSubmitterMetrics {
    let core = CoreMetrics::new(
        OperationCounters { inner: counters.clone() },
        QueueLengthGauges { inner: gauges.clone() },
    );
    SerialSubmitterMetrics::new(&core, &HyperlaneDomain::new(1, chain.to_string()))
}

#[test]
fn phases_are_counted_under_their_labels() {
    assert_eq!(Phase::Prepared.label(), "prepared");
    assert_eq!(Phase::Submitted.label(), "submitted");
    assert_eq!(Phase::Confirmed.label(), "confirmed");
    assert_eq!(Phase::Failed.label(), "failed");
    assert_eq!(Phase::Dropped.label(), "dropped");
}

#[test]
fn record_adds_to_the_counter_of_phase_and_destination() {
    let counters = counters_with(&["phase", "chain"]);
    let mut metrics = metrics_on(&counters, &gauges_with(&["remote", "queue_name"]), "arbitrum");
    metrics.record(Phase::Prepared, 1);
    metrics.record(Phase::Submitted, 5);
    metrics.record(Phase::Submitted, 2);
    metrics.record(Phase::Dropped, 0);
    let read = |phase: &str| counters.with_label_values(&[phase, "arbitrum"]).get();
    assert_eq!(read("prepared"), 1);
    assert_eq!(read("submitted"), 7);
    assert_eq!(read("confirmed"), 0);
    assert_eq!(read("failed"), 0);
    assert_eq!(read("dropped"), 0);
    assert_eq!(counters.with_label_values(&["prepared", "optimism"]).get(), 0);
    assert_eq!(metrics.destination(), "arbitrum");
}

#[test]
fn two_destinations_share_the_vector_and_count_apart() {
    let counters = counters_with(&["phase", "chain"]);
    let gauges = gauges_with(&["remote", "queue_name"]);
    let mut one = metrics_on(&counters, &gauges, "one");
    let mut two = metrics_on(&counters, &gauges, "two");
    one.record(Phase::Failed, 1);
    two.record(Phase::Failed, 3);
    assert_eq!(counters.with_label_values(&["failed", "one"]).get(), 1);
    assert_eq!(counters.with_label_values(&["failed", "two"]).get(), 3);
}

#[test]
fn counters_with_other_labels_are_left_alone() {
    let odd = counters_with(&["phase"]);
    let mut metrics = metrics_on(&odd, &gauges_with(&["remote", "queue_name"]), "arbitrum");
    metrics.record(Phase::Prepared, 1);
    assert_eq!(odd.with_label_values(&["prepared"]).get(), 0);
}

#[test]
fn gauge_shows_the_length_up_to_its_largest_value() {
    assert_eq!(gauge_value(0), 0);
    assert_eq!(gauge_value(17), 17);
    assert_eq!(gauge_value(usize::MAX), i64::try_from(usize::MAX).unwrap_or(i64::MAX));
}

#[test]
fn a_domain_has_a_number_and_a_name() {
    let domain = HyperlaneDomain::new(1399811149, "solana".to_string());
    assert_eq!(domain.id(), 1399811149);
    assert_eq!(domain.name(), "solana");
}
