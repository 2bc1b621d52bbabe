//! A staged delivery scheduler for one destination chain.
//!
//! Operations arrive, are prepared, are submitted through a single execution
//! slot, one by one or several in one transaction, and are confirmed. Between
//! the stages they wait in three queues, in priority order. The scheduler
//! never waits or calls out itself: its tasks ask it what to do, do it, and
//! report what came of it.
//!
//! [`model`] says what each step does, on plain values; [`serial_submitter`]
//! holds the scheduler that takes these steps; [`invariants`],
//! [`conservation`] and [`submission`] prove what holds of every state that it
//! can reach.

pub mod batch;
pub mod conservation;
pub mod invariants;
pub mod metrics;
pub mod model;
pub mod op_queue;
pub mod operation;
pub mod routing;
pub mod serial_submitter;
pub mod submission;

pub use crate::metrics::SerialSubmitterMetrics;
pub use crate::serial_submitter::{Pipeline, SerialSubmitter};
