//! Coordinator of a MapReduce cluster: job and task bookkeeping, scheduling of
//! tasks to polling workers, and recovery from worker failure.
//!
//! `coordinator` holds the calls; `state` says what each of them does to the
//! coordinator's state, seen as a mathematical value; `laws` holds what
//! follows for every run of the protocol.

pub mod coordinator;
pub mod href;
pub mod ids;
pub mod job;
pub mod laws;
pub mod message;
pub mod reap;
pub mod state;
pub mod task;
pub mod wellformed;
pub mod worker;
