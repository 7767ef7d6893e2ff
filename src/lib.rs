//! Measurement logic of a small filesystem benchmark: an exact accumulator of
//! timings, the bookkeeping of the latency and bandwidth runs, and the run's
//! configuration.
pub mod statistician;
pub mod config;
pub mod bench;
