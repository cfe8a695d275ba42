//! The host backend: every kernel strategy as a benchmark candidate, and the
//! scenarios that run or benchmark them.

pub mod candidates;
pub mod harness;
pub mod runner;
