//! Value types and kernels shared by every backend.

pub mod fixed;
pub mod sums;
pub mod tensor2d;
pub mod relu;
pub mod linear;
pub mod softmax;
pub mod fused;
pub mod comparison;
pub mod theorems;
pub mod performance_measurement;
pub mod benchmark_run;
pub mod clock;
pub mod configuration;
pub mod graph_operators;
