//! A microbenchmark harness for queue-like containers: it enqueues `n`
//! integers, dequeues them all, times every operation, and reduces the
//! samples to summary statistics.

pub mod bench;
pub mod clock;
pub mod queue;
pub mod stats;
