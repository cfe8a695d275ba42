//! The parameters of one run, fixed before it starts and read everywhere.

use vstd::prelude::*;

verus! {

/// Immutable run parameters.
#[derive(Debug, Clone, Copy)]
pub struct Configuration {
    /// How much of a debug run is traced: the evaluation sum above 1, the
    /// output above 2, the operands above 3.
    pub debug_level: u32,
    /// Benchmark every scenario's candidates instead of running it once.
    pub run_performance_benchmark: bool,
    /// Handed through to whoever renders a benchmark report.
    pub log_scale: bool,
    /// Rows and columns of the square operands a benchmark runs on.
    pub matrix_size: usize,
    /// Discarded executions of each candidate before it is measured.
    pub warmup_count: usize,
    /// Measured executions of each candidate.
    pub repetition_count: usize,
}

impl Default for Configuration {
    /// A single debug run that traces nothing; a benchmark, if switched on,
    /// would use 64 by 64 operands, 2 warm-up runs and 10 repetitions.
    fn default() -> (r: Configuration)
        ensures
            r.debug_level == 0,
            !r.run_performance_benchmark,
            !r.log_scale,
            r.matrix_size == 64,
            r.warmup_count == 2,
            r.repetition_count == 10,
    {
        Configuration {
            debug_level: 0,
            run_performance_benchmark: false,
            log_scale: false,
            matrix_size: 64,
            warmup_count: 2,
            repetition_count: 10,
        }
    }
}

} // verus!
