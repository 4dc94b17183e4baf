//! Verified core of a fixed-size worker-thread pool.
//!
//! The pool family itself lives with the operating system: threads, locks,
//! condition variables and sleeps. What this crate verifies is everything the
//! pool decides and computes: the pending-task queue discipline, the
//! exponential back-off curve of the spinning wait strategy, the partition of
//! a work sequence into fixed-size batches, the per-iteration decisions of a
//! worker loop, and the bookkeeping protocol (queued, executing, completed,
//! done, terminated) that makes "wait until all submitted work is finished,
//! then join every worker" correct. A thin unverified shell drives threads
//! through these functions.

pub mod backoff;
pub mod chunking;
pub mod queue;
pub mod tracker;
pub mod worker;
pub mod workload;
