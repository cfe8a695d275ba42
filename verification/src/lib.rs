//! Tensor kernels in several execution strategies, a deferred operator model,
//! and a harness that times interchangeable kernel candidates.
//!
//! All numbers are fixed-point: a signed 64-bit count of units of 10^-12 with
//! saturating arithmetic, so every kernel is a total, deterministic function
//! of its operands, and two strategies of one kernel return the same tensor
//! entry for entry.
//!
//! - [`shared`] holds the scalar arithmetic, the tensor with its kernels, the
//!   operator model, the measurement record and the benchmarking protocol.
//! - [`cpu`] holds the host candidates, their benchmark and the host scenarios.
//! - [`immediate`] holds what a device backend decides before it dispatches:
//!   the operators of each node, the launch geometry, the benchmark plans.
//! - [`convolution`] holds the host's one-dimensional convolution and the
//!   judgement of a device's result against it.
//!
//! The library prints nothing, draws nothing and awaits nothing. What reads a
//! clock is marked as such; everything else is proved against its contract.

pub mod shared;
pub mod cpu;
pub mod immediate;
pub mod convolution;
