//! Verified core of a shared-counter increment microbenchmark.
//!
//! The library holds everything about the benchmark that can be stated and
//! proved: the sweep configurations, the per-step logic of each increment
//! strategy, an operational model of a whole run over an arbitrary
//! interleaving of the workers, a model of the rendezvous barriers that
//! bracket the timed section, and the exact text of every report line.
//! The surrounding program supplies what a proof cannot reach: real OS
//! threads, the shared atomic cell, the wall clock, and the non-elidable
//! memory accesses that keep the measured loops from being optimized away.

pub mod config;
pub mod rendezvous;
pub mod report;
pub mod run_model;
pub mod step;
