//! Counters and gauges that record what the scheduler does.
//!
//! The counters live in prometheus vectors that other parts of a process may
//! share, so nothing here reads them back. What a [`SerialSubmitterMetrics`]
//! has recorded is kept beside them as a [`Tally`], which the contracts of the
//! scheduler speak of.

use vstd::prelude::*;

verus! {

/// The prometheus counters of processed operations, by phase and destination:
/// an `IntCounterVec` made with these two labels.
#[verifier::external_body]
#[derive(Debug)]
pub struct OperationCounters {
    pub inner: prometheus::IntCounterVec,
}

/// The prometheus gauges of queue lengths, by destination and queue name: an
/// `IntGaugeVec` made with these two labels.
#[verifier::external_body]
#[derive(Debug)]
pub struct QueueLengthGauges {
    pub inner: prometheus::IntGaugeVec,
}

/// Adds `by` to the counter that `counters` holds for `phase` and
/// `destination` (`MetricVec::get_metric_with_label_values`, then
/// `GenericCounter::inc_by`). Where the vector was made with another number of
/// labels the lookup fails and nothing is added.
#[verifier::external_body]
fn add_to_counter(counters: &OperationCounters, phase: &str, destination: &str, by: u64) {
    if let Ok(counter) = counters.inner.get_metric_with_label_values(&[phase, destination]) {
        counter.inc_by(by);
    }
}

/// Sets the gauge that `gauges` holds for `destination` and `queue` to
/// `length` (`MetricVec::get_metric_with_label_values`, then
/// `GenericGauge::set`). Where the vector was made with another number of
/// labels the lookup fails and nothing is set.
#[verifier::external_body]
fn set_gauge(gauges: &QueueLengthGauges, destination: &str, queue: &str, length: i64) {
    if let Ok(gauge) = gauges.inner.get_metric_with_label_values(&[destination, queue]) {
        gauge.set(length);
    }
}

/// A second handle on the same counters (`MetricVec::clone`). A `MetricVec`
/// is one shared pointer to its vector, and its clone is another pointer to
/// the same vector: the handle that comes back stands for the vector that
/// `counters` stands for.
#[verifier::external_body]
fn share_counters(counters: &OperationCounters) -> (shared: OperationCounters)
    ensures
        shared == *counters,
{
    OperationCounters { inner: counters.inner.clone() }
}

/// A second handle on the same gauges (`MetricVec::clone`). A `MetricVec` is
/// one shared pointer to its vector, and its clone is another pointer to the
/// same vector: the handle that comes back stands for the vector that
/// `gauges` stands for.
#[verifier::external_body]
fn share_gauges(gauges: &QueueLengthGauges) -> (shared: QueueLengthGauges)
    ensures
        shared == *gauges,
{
    QueueLengthGauges { inner: gauges.inner.clone() }
}

/// The value that a gauge shows for a queue of `length` operations: the
/// length, or the largest value of a gauge where the length is beyond it.
pub fn gauge_value(length: usize) -> (shown: i64)
    ensures
        shown == if length <= i64::MAX {
            length as int
        } else {
            i64::MAX as int
        },
{
    let wide: u64 = length as u64;
    if wide <= 0x7fff_ffff_ffff_ffff {
        wide as i64
    } else {
        0x7fff_ffff_ffff_ffff
    }
}

impl QueueLengthGauges {
    /// Reports that the queue `queue` of `destination` holds `length`
    /// operations.
    pub(crate) fn report(&self, destination: &str, queue: &str, length: usize) {
        set_gauge(self, destination, queue, gauge_value(length));
    }
}

/// The metric vectors of a process that the scheduler writes to.
pub struct CoreMetrics {
    operations_processed_count: OperationCounters,
    submitter_queue_length: QueueLengthGauges,
}

impl CoreMetrics {
    /// The counters of processed operations that the bundle holds.
    pub closed spec fn counters(&self) -> OperationCounters {
        self.operations_processed_count
    }

    /// The gauges of queue lengths that the bundle holds.
    pub closed spec fn gauges(&self) -> QueueLengthGauges {
        self.submitter_queue_length
    }

    /// Bundles the two vectors.
    pub fn new(
        operations_processed_count: OperationCounters,
        submitter_queue_length: QueueLengthGauges,
    ) -> (bundle: CoreMetrics)
        ensures
            bundle.counters() == operations_processed_count,
            bundle.gauges() == submitter_queue_length,
    {
        CoreMetrics { operations_processed_count, submitter_queue_length }
    }

    /// A handle on the counters of processed operations that the bundle
    /// holds.
    pub(crate) fn operations_processed_count(&self) -> (counters: OperationCounters)
        ensures
            counters == self.counters(),
    {
        share_counters(&self.operations_processed_count)
    }

    /// A handle on the gauges of queue lengths that the bundle holds.
    pub(crate) fn submitter_queue_length(&self) -> (gauges: QueueLengthGauges)
        ensures
            gauges == self.gauges(),
    {
        share_gauges(&self.submitter_queue_length)
    }
}

/// A destination chain: its number, and the name that labels its metrics.
#[derive(Debug)]
pub struct HyperlaneDomain {
    id: u32,
    name: String,
}

impl HyperlaneDomain {
    /// The number of the domain.
    pub closed spec fn spec_id(&self) -> u32 {
        self.id
    }

    /// The name of the domain.
    pub closed spec fn spec_name(&self) -> Seq<char> {
        self.name@
    }

    /// The domain with the given number and name.
    pub fn new(id: u32, name: String) -> (domain: HyperlaneDomain)
        ensures
            domain.spec_id() == id,
            domain.spec_name() == name@,
    {
        HyperlaneDomain { id, name }
    }

    /// The number of the domain.
    #[verifier::when_used_as_spec(spec_id)]
    pub fn id(&self) -> (id: u32)
        ensures
            id == self.spec_id(),
    {
        self.id
    }

    /// The name of the domain.
    pub fn name(&self) -> (name: &str)
        ensures
            name@ == self.spec_name(),
    {
        self.name.as_str()
    }
}

/// A transition of an operation that is counted.
#[derive(Clone, Copy, Debug, PartialEq, Eq, Structural)]
pub enum Phase {
    /// Preparation succeeded.
    Prepared,
    /// The operation was submitted.
    Submitted,
    /// The operation was confirmed and is complete.
    Confirmed,
    /// The operation was sent back to preparation.
    Failed,
    /// The operation was given up.
    Dropped,
}

impl Phase {
    /// The label under which the phase is counted.
    pub open spec fn spec_label(self) -> Seq<char> {
        match self {
            Phase::Prepared => "prepared"@,
            Phase::Submitted => "submitted"@,
            Phase::Confirmed => "confirmed"@,
            Phase::Failed => "failed"@,
            Phase::Dropped => "dropped"@,
        }
    }

    /// The label under which the phase is counted.
    pub fn label(self) -> (label: &'static str)
        ensures
            label@ == self.spec_label(),
    {
        match self {
            Phase::Prepared => "prepared",
            Phase::Submitted => "submitted",
            Phase::Confirmed => "confirmed",
            Phase::Failed => "failed",
            Phase::Dropped => "dropped",
        }
    }
}

/// How many transitions of each phase have been recorded.
pub struct Tally {
    pub ops_prepared: nat,
    pub ops_submitted: nat,
    pub ops_confirmed: nat,
    pub ops_failed: nat,
    pub ops_dropped: nat,
}

impl Tally {
    /// Nothing recorded yet.
    pub open spec fn zero() -> Tally {
        Tally { ops_prepared: 0, ops_submitted: 0, ops_confirmed: 0, ops_failed: 0, ops_dropped: 0 }
    }

    /// What has been recorded of `phase`.
    pub open spec fn of(self, phase: Phase) -> nat {
        match phase {
            Phase::Prepared => self.ops_prepared,
            Phase::Submitted => self.ops_submitted,
            Phase::Confirmed => self.ops_confirmed,
            Phase::Failed => self.ops_failed,
            Phase::Dropped => self.ops_dropped,
        }
    }

    /// The tally with `by` more transitions of `phase`.
    pub open spec fn plus(self, phase: Phase, by: nat) -> Tally {
        match phase {
            Phase::Prepared => Tally { ops_prepared: self.ops_prepared + by, ..self },
            Phase::Submitted => Tally { ops_submitted: self.ops_submitted + by, ..self },
            Phase::Confirmed => Tally { ops_confirmed: self.ops_confirmed + by, ..self },
            Phase::Failed => Tally { ops_failed: self.ops_failed + by, ..self },
            Phase::Dropped => Tally { ops_dropped: self.ops_dropped + by, ..self },
        }
    }
}

/// The metrics of one scheduler: the counters of its destination, and the
/// gauges that its queues report to.
pub struct SerialSubmitterMetrics {
    submitter_queue_length: QueueLengthGauges,
    operations_processed_count: OperationCounters,
    destination: String,
    tally: Ghost<Tally>,
}

impl View for SerialSubmitterMetrics {
    type V = Tally;

    /// What has been recorded through this value.
    closed spec fn view(&self) -> Tally {
        self.tally@
    }
}

impl SerialSubmitterMetrics {
    /// The name of the destination that labels what is recorded.
    pub closed spec fn spec_destination(&self) -> Seq<char> {
        self.destination@
    }

    /// The counters of processed operations that the metrics record to.
    pub closed spec fn counters(&self) -> OperationCounters {
        self.operations_processed_count
    }

    /// The gauges of queue lengths that the queues of the scheduler report
    /// to.
    pub closed spec fn gauges(&self) -> QueueLengthGauges {
        self.submitter_queue_length
    }

    /// The metrics of a scheduler for `destination`, with nothing recorded.
    /// They record to the counters of `metrics`, and the queues of the
    /// scheduler report to the gauges of `metrics`.
    pub fn new(metrics: &CoreMetrics, destination: &HyperlaneDomain) -> (made: Self)
        ensures
            made@ == Tally::zero(),
            made.spec_destination() == destination.spec_name(),
            made.counters() == metrics.counters(),
            made.gauges() == metrics.gauges(),
    {
        SerialSubmitterMetrics {
            submitter_queue_length: metrics.submitter_queue_length(),
            operations_processed_count: metrics.operations_processed_count(),
            destination: destination.name().to_string(),
            tally: Ghost(Tally::zero()),
        }
    }

    /// Records `by` transitions of `phase`.
    pub fn record(&mut self, phase: Phase, by: u64)
        ensures
            final(self)@ == old(self)@.plus(phase, by as nat),
            final(self).spec_destination() == old(self).spec_destination(),
            final(self).counters() == old(self).counters(),
            final(self).gauges() == old(self).gauges(),
    {
        add_to_counter(&self.operations_processed_count, phase.label(), self.destination.as_str(), by);
        self.tally = Ghost(self.tally@.plus(phase, by as nat));
    }

    /// The name of the destination that labels what is recorded.
    pub fn destination(&self) -> (name: &str)
        ensures
            name@ == self.spec_destination(),
    {
        self.destination.as_str()
    }

    /// A handle on the gauges that the queues of the scheduler report to.
    pub(crate) fn submitter_queue_length(&self) -> (gauges: QueueLengthGauges)
        ensures
            gauges == self.gauges(),
    {
        share_gauges(&self.submitter_queue_length)
    }
}

} // verus!
