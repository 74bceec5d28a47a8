//! Adaptive sampling engine of a matrix-multiply throughput benchmark.
//!
//! The crate decides how many workload repetitions go into each timed sample,
//! when a phase of sampling stops, and how much arithmetic a sample stands for.
//! All quantities are integers: durations are counted in nanoseconds.

pub mod driver;
pub mod error;
pub mod flops;
pub mod sequencer;
pub mod stats;
pub mod stopping;
