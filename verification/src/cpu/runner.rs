//! The host scenarios: the linear layer, rectification, normalization and the
//! fused pipeline, each either run once on small fixed operands and traced,
//! or benchmarked over all its candidates.
//!
//! A scenario prints and draws nothing. It returns what there is to show: the
//! trace of a debug run, cut to the configured verbosity, or the report of a
//! benchmark with the title and the place its chart belongs to.

use crate::cpu::candidates::CpuCandidate;
use crate::cpu::harness::{
    benchmark_function_vector, complete, executed_alike, BenchmarkError, Leftover,
};
use crate::shared::configuration::Configuration;
use crate::shared::fixed::{sat_mul, HALF, ONE, TENTH};
use crate::shared::fused::linear_relu_softmax_spec;
use crate::shared::linear::{dot_prefix, linear_spec};
use crate::shared::performance_measurement::PerformanceMeasurements;
use crate::shared::relu::relu_spec;
use crate::shared::softmax::softmax_spec;
use crate::shared::tensor2d::{fold_sum, Matrix, Tensor2D};
use vstd::prelude::*;

verus! {

/// A tensor with the heading it is shown under.
#[derive(Debug)]
pub struct NamedTensor {
    pub label: String,
    pub tensor: Tensor2D,
}

/// What a single debug run shows at the configured verbosity.
#[derive(Debug)]
pub struct DebugRun {
    /// The operands, in the order they were made; empty unless the level is above 3.
    pub operands: Vec<NamedTensor>,
    /// The result; absent unless the level is above 2.
    pub output: Option<Tensor2D>,
    /// The sum over the result; absent unless the level is above 1.
    pub evaluation_sum: Option<i64>,
}

/// The measurements of one benchmark and where its chart belongs.
#[derive(Debug)]
pub struct BenchmarkReport {
    pub title: String,
    pub directory: String,
    pub file_name: String,
    pub measurements: Vec<PerformanceMeasurements>,
    /// What every candidate, in order, made of its operands.
    pub leftovers: Vec<Leftover>,
    pub log_scale: bool,
}

/// What a scenario hands back.
#[derive(Debug)]
pub enum ScenarioOutcome {
    Debug(DebugRun),
    Benchmark(BenchmarkReport),
}

/// The debug run over `operands` with result `output`, cut to verbosity `level`.
pub open spec fn traced(run: DebugRun, level: u32, operands: Seq<(Seq<char>, Matrix)>, output: Matrix) -> bool {
    &&& run.operands@.len() == (if 3 < level {
        operands.len()
    } else {
        0
    })
    &&& forall|i: int|
        0 <= i < run.operands@.len() ==> (#[trigger] run.operands@[i]).label@ == operands[i].0
            && run.operands@[i].tensor@ == operands[i].1
    &&& run.output.is_some() <==> 2 < level
    &&& run.output.is_some() ==> run.output.unwrap()@ == output
    &&& run.evaluation_sum == (if 1 < level {
        Some(fold_sum(output.data))
    } else {
        None
    })
}

/// A benchmark under `config` can be run: its square operands fit a buffer.
pub open spec fn fits(config: Configuration) -> bool {
    config.matrix_size * config.matrix_size <= usize::MAX
}

/// Cuts a debug run to the verbosity `level`: the sum over the result is kept
/// above level 1, the result above level 2, the operands above level 3.
pub fn trace(level: u32, operands: Vec<NamedTensor>, output: Tensor2D) -> (run: DebugRun)
    ensures
        run.operands@ == (if 3 < level {
            operands@
        } else {
            Seq::<NamedTensor>::empty()
        }),
        run.output.is_some() <==> 2 < level,
        run.output.is_some() ==> run.output.unwrap()@ == output@,
        run.evaluation_sum == (if 1 < level {
            Some(fold_sum(output@.data))
        } else {
            None
        }),
{
    let evaluation_sum: Option<i64> = if 1 < level {
        Some(output.sum())
    } else {
        None
    };
    let shown: Vec<NamedTensor> = if 3 < level {
        operands
    } else {
        Vec::new()
    };
    let output: Option<Tensor2D> = if 2 < level {
        Some(output)
    } else {
        None
    };
    DebugRun { operands: shown, output, evaluation_sum }
}

/// A tensor under its heading.
pub fn named(label: &str, tensor: Tensor2D) -> (r: NamedTensor)
    ensures
        r.label@ == label@,
        r.tensor@ == tensor@,
{
    NamedTensor { label: label.to_owned(), tensor }
}

/// Runs a benchmark and wraps its measurements into a report.
fn report_benchmark(
    config: &Configuration,
    title: &str,
    file_name: &str,
    names: Vec<String>,
    functions: Vec<CpuCandidate>,
) -> (res: Result<BenchmarkReport, BenchmarkError>)
    requires
        names@.len() == functions@.len(),
    ensures
        res.is_ok() <==> fits(*config),
        res.is_err() ==> res == Err::<BenchmarkReport, BenchmarkError>(BenchmarkError::Size),
        res.is_ok() ==> {
            &&& res.unwrap().title@ == title@
            &&& res.unwrap().directory@ == "benchmarks/cpu/"@
            &&& res.unwrap().file_name@ == file_name@
            &&& res.unwrap().log_scale == config.log_scale
            &&& complete(res.unwrap().measurements@, names@, config.repetition_count as nat)
            &&& executed_alike(
                res.unwrap().leftovers@,
                functions@,
                config.matrix_size as nat,
                (config.warmup_count + config.repetition_count) as nat,
            )
        },
{
    let mut all_measurements: Vec<PerformanceMeasurements> = Vec::new();
    match benchmark_function_vector(config, names, functions, &mut all_measurements) {
        Ok(leftovers) => Ok(
            BenchmarkReport {
                title: title.to_owned(),
                directory: "benchmarks/cpu/".to_owned(),
                file_name: file_name.to_owned(),
                measurements: all_measurements,
                leftovers,
                log_scale: config.log_scale,
            },
        ),
        Err(e) => Err(e),
    }
}

/// The names of the linear candidates, in benchmark order.
pub open spec fn linear_names() -> Seq<Seq<char>> {
    seq![
        "shared::tensor2d::linear"@,
        "shared::tensor2d::linear_preallocated"@,
        "shared::tensor2d::linear_preallocated_inline"@,
        "shared::tensor2d::linear_local_accumulation"@,
        "shared::tensor2d::linear_optimized"@,
    ]
}

/// The names of the rectification candidates, in benchmark order.
pub open spec fn relu_names() -> Seq<Seq<char>> {
    seq![
        "shared::tensor2d::relu"@,
        "shared::tensor2d::relu_preallocated"@,
        "shared::tensor2d::relu_inplace"@,
        "shared::tensor2d::relu_inplace_inline"@,
    ]
}

/// The names of the normalization candidates, in benchmark order.
pub open spec fn softmax_names() -> Seq<Seq<char>> {
    seq![
        "shared::tensor2d::softmax"@,
        "shared::tensor2d::softmax_preallocated"@,
        "shared::tensor2d::softmax_inplace"@,
        "shared::tensor2d::softmax_inplace_inline"@,
    ]
}

/// The names of the pipeline candidates, in benchmark order.
pub open spec fn pipeline_names() -> Seq<Seq<char>> {
    seq![
        "shared::tensor2d::linear_relu_softmax"@,
        "shared::tensor2d::linear_relu_softmax_local_accumulation"@,
        "shared::tensor2d::linear_relu_softmax_fused_fission"@,
        "shared::tensor2d::linear_relu_softmax_fused"@,
        "shared::tensor2d::linear_local_accumulation_relu"@,
        "shared::tensor2d::linear_optimized_relu"@,
    ]
}

/// The linear candidates, in benchmark order.
pub open spec fn linear_candidates() -> Seq<CpuCandidate> {
    seq![
        CpuCandidate::NaiveLinear,
        CpuCandidate::PreallocatedLinear,
        CpuCandidate::InlineLinear,
        CpuCandidate::LocalAccumulationLinear,
        CpuCandidate::OptimizedLinear,
    ]
}

/// The rectification candidates, in benchmark order.
pub open spec fn relu_candidates() -> Seq<CpuCandidate> {
    seq![
        CpuCandidate::ReluNaive,
        CpuCandidate::ReluPreallocated,
        CpuCandidate::ReluInplace,
        CpuCandidate::ReluInplaceInline,
    ]
}

/// The normalization candidates, in benchmark order.
pub open spec fn softmax_candidates() -> Seq<CpuCandidate> {
    seq![
        CpuCandidate::SoftmaxNaive,
        CpuCandidate::SoftmaxPreallocated,
        CpuCandidate::SoftmaxInplace,
        CpuCandidate::SoftmaxInplaceInline,
    ]
}

/// The pipeline candidates, in benchmark order.
pub open spec fn pipeline_candidates() -> Seq<CpuCandidate> {
    seq![
        CpuCandidate::LinearReluSoftmaxNaive,
        CpuCandidate::LinearReluSoftmaxLocalAccumulation,
        CpuCandidate::LinearReluSoftmaxFusedFission,
        CpuCandidate::LinearReluSoftmaxFused,
        CpuCandidate::LinearLocalAccumulationRelu,
        CpuCandidate::LinearOptimizedRelu,
    ]
}

/// The report is that of a complete benchmark of these candidates under
/// these names: one record per name, in order, each with exactly the
/// configured number of samples, and for every candidate what all its
/// executions, warm-up runs included, made of operands that were the same for
/// every candidate.
pub open spec fn benchmark_of(
    report: BenchmarkReport,
    title: Seq<char>,
    file_name: Seq<char>,
    names: Seq<Seq<char>>,
    candidates: Seq<CpuCandidate>,
    config: Configuration,
) -> bool {
    &&& report.title@ == title
    &&& report.directory@ == "benchmarks/cpu/"@
    &&& report.file_name@ == file_name
    &&& report.log_scale == config.log_scale
    &&& report.measurements@.len() == names.len()
    &&& forall|i: int| 0 <= i < names.len() ==> (#[trigger] report.measurements@[i]).name@ == names[i]
    &&& forall|i: int|
        0 <= i < names.len() ==> (#[trigger] report.measurements@[i]).samples@.len() == config.repetition_count
    &&& executed_alike(
        report.leftovers@,
        candidates,
        config.matrix_size as nat,
        (config.warmup_count + config.repetition_count) as nat,
    )
}

/// Benchmarks the five linear strategies.
pub fn linear_benchmark(config: &Configuration) -> (res: Result<BenchmarkReport, BenchmarkError>)
    ensures
        res.is_ok() <==> fits(*config),
        res.is_err() ==> res == Err::<BenchmarkReport, BenchmarkError>(BenchmarkError::Size),
        res.is_ok() ==> benchmark_of(
            res.unwrap(),
            "CPU Benchmark - Linear"@,
            "cpu_linear_benchmark.png"@,
            linear_names(),
            linear_candidates(),
            *config,
        ),
{
    let mut names: Vec<String> = Vec::new();
    names.push("shared::tensor2d::linear".to_owned());
    names.push("shared::tensor2d::linear_preallocated".to_owned());
    names.push("shared::tensor2d::linear_preallocated_inline".to_owned());
    names.push("shared::tensor2d::linear_local_accumulation".to_owned());
    names.push("shared::tensor2d::linear_optimized".to_owned());
    let mut functions: Vec<CpuCandidate> = Vec::new();
    functions.push(CpuCandidate::NaiveLinear);
    functions.push(CpuCandidate::PreallocatedLinear);
    functions.push(CpuCandidate::InlineLinear);
    functions.push(CpuCandidate::LocalAccumulationLinear);
    functions.push(CpuCandidate::OptimizedLinear);
    assert(functions@ =~= linear_candidates());
    report_benchmark(config, "CPU Benchmark - Linear", "cpu_linear_benchmark.png", names, functions)
}

/// The linear scenario: a benchmark of the linear strategies, or one run of
/// the allocating strategy on a 4 by 3 input of 0.5, 3 by 4 weights of 1.0 and
/// a 4 by 4 bias of 0.1.
pub fn linear(config: &Configuration) -> (res: Result<ScenarioOutcome, BenchmarkError>)
    ensures
        res.is_err() <==> config.run_performance_benchmark && !fits(*config),
        res.is_err() ==> res == Err::<ScenarioOutcome, BenchmarkError>(BenchmarkError::Size),
        res.is_ok() ==> is_linear_outcome(res.unwrap(), *config),
{
    if config.run_performance_benchmark {
        return match linear_benchmark(config) {
            Ok(report) => Ok(ScenarioOutcome::Benchmark(report)),
            Err(e) => Err(e),
        };
    }
    let input = Tensor2D::new(HALF, 4, 3);
    let weights = Tensor2D::new(ONE, 3, 4);
    let bias = Tensor2D::new(TENTH, 4, 4);
    let output = match Tensor2D::linear(&input, &weights, &bias) {
        Ok(output) => output,
        Err(_) => vstd::pervasive::unreached(),
    };
    let mut operands: Vec<NamedTensor> = Vec::new();
    operands.push(named("Tensor2D input", input));
    operands.push(named("Tensor2D weights", weights));
    operands.push(named("Tensor2D bias", bias));
    Ok(ScenarioOutcome::Debug(trace(config.debug_level, operands, output)))
}

/// What the linear scenario hands back under `config`.
pub open spec fn is_linear_outcome(outcome: ScenarioOutcome, config: Configuration) -> bool {
    match outcome {
        ScenarioOutcome::Benchmark(report) => config.run_performance_benchmark && benchmark_of(
            report,
            "CPU Benchmark - Linear"@,
            "cpu_linear_benchmark.png"@,
            linear_names(),
            linear_candidates(),
            config,
        ),
        ScenarioOutcome::Debug(run) => !config.run_performance_benchmark && traced(
            run,
            config.debug_level,
            seq![
                ("Tensor2D input"@, Matrix::filled(HALF, 4, 3)),
                ("Tensor2D weights"@, Matrix::filled(ONE, 3, 4)),
                ("Tensor2D bias"@, Matrix::filled(TENTH, 4, 4)),
            ],
            linear_spec(Matrix::filled(HALF, 4, 3), Matrix::filled(ONE, 3, 4), Matrix::filled(TENTH, 4, 4)),
        ),
    }
}

/// The linear scenario's debug run computes a 4 by 4 matrix of 1.6 in every
/// cell: three products of 0.5 and 1.0, and a bias of 0.1.
pub proof fn lemma_linear_scenario()
    ensures
        linear_spec(Matrix::filled(HALF, 4, 3), Matrix::filled(ONE, 3, 4), Matrix::filled(TENTH, 4, 4))
            == Matrix::filled(1_600_000_000_000, 4, 4),
{
    let input = Matrix::filled(HALF, 4, 3);
    let weights = Matrix::filled(ONE, 3, 4);
    let bias = Matrix::filled(TENTH, 4, 4);
    let out = linear_spec(input, weights, bias);
    reveal_with_fuel(dot_prefix, 4);
    assert(sat_mul(HALF, ONE) == HALF);
    assert forall|idx: int| 0 <= idx < 16 implies out.data[idx] == 1_600_000_000_000 by {
        let r = idx / 4;
        let c = idx % 4;
        assert(0 <= r < 4 && 0 <= c < 4);
        assert(0 <= r * 3 + 2 < 12 && 0 <= 8 + c < 12 && 0 <= r * 4 + c < 16);
        assert(dot_prefix(input, weights, r, c, 3) == 1_500_000_000_000);
    }
    assert(out.data =~= Matrix::filled(1_600_000_000_000, 4, 4).data);
}

/// The rectification scenario's debug run computes a 4 by 3 matrix of zeros.
pub proof fn lemma_relu_scenario()
    ensures
        relu_spec(Matrix::filled((-HALF) as i64, 4, 3)) == Matrix::filled(0, 4, 3),
{
    assert(relu_spec(Matrix::filled((-HALF) as i64, 4, 3)).data =~= Matrix::filled(0, 4, 3).data);
}

/// Benchmarks the four rectification strategies.
pub fn relu_benchmark(config: &Configuration) -> (res: Result<BenchmarkReport, BenchmarkError>)
    ensures
        res.is_ok() <==> fits(*config),
        res.is_err() ==> res == Err::<BenchmarkReport, BenchmarkError>(BenchmarkError::Size),
        res.is_ok() ==> benchmark_of(
            res.unwrap(),
            "CPU Benchmark - ReLu"@,
            "cpu_relu_benchmark.png"@,
            relu_names(),
            relu_candidates(),
            *config,
        ),
{
    let mut names: Vec<String> = Vec::new();
    names.push("shared::tensor2d::relu".to_owned());
    names.push("shared::tensor2d::relu_preallocated".to_owned());
    names.push("shared::tensor2d::relu_inplace".to_owned());
    names.push("shared::tensor2d::relu_inplace_inline".to_owned());
    let mut functions: Vec<CpuCandidate> = Vec::new();
    functions.push(CpuCandidate::ReluNaive);
    functions.push(CpuCandidate::ReluPreallocated);
    functions.push(CpuCandidate::ReluInplace);
    functions.push(CpuCandidate::ReluInplaceInline);
    assert(functions@ =~= relu_candidates());
    report_benchmark(config, "CPU Benchmark - ReLu", "cpu_relu_benchmark.png", names, functions)
}

/// The rectification scenario: a benchmark of the rectification strategies,
/// or one run of the allocating strategy on a 4 by 3 input of -0.5.
pub fn relu(config: &Configuration) -> (res: Result<ScenarioOutcome, BenchmarkError>)
    ensures
        res.is_err() <==> config.run_performance_benchmark && !fits(*config),
        res.is_err() ==> res == Err::<ScenarioOutcome, BenchmarkError>(BenchmarkError::Size),
        res.is_ok() ==> is_relu_outcome(res.unwrap(), *config),
{
    if config.run_performance_benchmark {
        return match relu_benchmark(config) {
            Ok(report) => Ok(ScenarioOutcome::Benchmark(report)),
            Err(e) => Err(e),
        };
    }
    let input = Tensor2D::new(-HALF, 4, 3);
    let output = Tensor2D::relu(&input);
    let mut operands: Vec<NamedTensor> = Vec::new();
    operands.push(named("Tensor2D input", input));
    Ok(ScenarioOutcome::Debug(trace(config.debug_level, operands, output)))
}

/// What the rectification scenario hands back under `config`.
pub open spec fn is_relu_outcome(outcome: ScenarioOutcome, config: Configuration) -> bool {
    match outcome {
        ScenarioOutcome::Benchmark(report) => config.run_performance_benchmark && benchmark_of(
            report,
            "CPU Benchmark - ReLu"@,
            "cpu_relu_benchmark.png"@,
            relu_names(),
            relu_candidates(),
            config,
        ),
        ScenarioOutcome::Debug(run) => !config.run_performance_benchmark && traced(
            run,
            config.debug_level,
            seq![("Tensor2D input"@, Matrix::filled((-HALF) as i64, 4, 3))],
            relu_spec(Matrix::filled((-HALF) as i64, 4, 3)),
        ),
    }
}

/// Benchmarks the four normalization strategies.
pub fn softmax_benchmark(config: &Configuration) -> (res: Result<BenchmarkReport, BenchmarkError>)
    ensures
        res.is_ok() <==> fits(*config),
        res.is_err() ==> res == Err::<BenchmarkReport, BenchmarkError>(BenchmarkError::Size),
        res.is_ok() ==> benchmark_of(
            res.unwrap(),
            "CPU Benchmark - Softmax"@,
            "cpu_softmax_benchmark.png"@,
            softmax_names(),
            softmax_candidates(),
            *config,
        ),
{
    let mut names: Vec<String> = Vec::new();
    names.push("shared::tensor2d::softmax".to_owned());
    names.push("shared::tensor2d::softmax_preallocated".to_owned());
    names.push("shared::tensor2d::softmax_inplace".to_owned());
    names.push("shared::tensor2d::softmax_inplace_inline".to_owned());
    let mut functions: Vec<CpuCandidate> = Vec::new();
    functions.push(CpuCandidate::SoftmaxNaive);
    functions.push(CpuCandidate::SoftmaxPreallocated);
    functions.push(CpuCandidate::SoftmaxInplace);
    functions.push(CpuCandidate::SoftmaxInplaceInline);
    assert(functions@ =~= softmax_candidates());
    report_benchmark(config, "CPU Benchmark - Softmax", "cpu_softmax_benchmark.png", names, functions)
}

/// The normalization scenario: a benchmark of the normalization strategies,
/// or one run of the allocating strategy on a 4 by 3 input of -0.5.
pub fn softmax(config: &Configuration) -> (res: Result<ScenarioOutcome, BenchmarkError>)
    ensures
        res.is_err() <==> config.run_performance_benchmark && !fits(*config),
        res.is_err() ==> res == Err::<ScenarioOutcome, BenchmarkError>(BenchmarkError::Size),
        res.is_ok() ==> is_softmax_outcome(res.unwrap(), *config),
{
    if config.run_performance_benchmark {
        return match softmax_benchmark(config) {
            Ok(report) => Ok(ScenarioOutcome::Benchmark(report)),
            Err(e) => Err(e),
        };
    }
    let input = Tensor2D::new(-HALF, 4, 3);
    let output = Tensor2D::softmax(&input);
    let mut operands: Vec<NamedTensor> = Vec::new();
    operands.push(named("Tensor2D input", input));
    Ok(ScenarioOutcome::Debug(trace(config.debug_level, operands, output)))
}

/// What the normalization scenario hands back under `config`.
pub open spec fn is_softmax_outcome(outcome: ScenarioOutcome, config: Configuration) -> bool {
    match outcome {
        ScenarioOutcome::Benchmark(report) => config.run_performance_benchmark && benchmark_of(
            report,
            "CPU Benchmark - Softmax"@,
            "cpu_softmax_benchmark.png"@,
            softmax_names(),
            softmax_candidates(),
            config,
        ),
        ScenarioOutcome::Debug(run) => !config.run_performance_benchmark && traced(
            run,
            config.debug_level,
            seq![("Tensor2D input"@, Matrix::filled((-HALF) as i64, 4, 3))],
            softmax_spec(Matrix::filled((-HALF) as i64, 4, 3)),
        ),
    }
}

/// Benchmarks the six renderings of the pipeline, fused and unfused.
pub fn linear_relu_softmax_benchmark(config: &Configuration) -> (res: Result<BenchmarkReport, BenchmarkError>)
    ensures
        res.is_ok() <==> fits(*config),
        res.is_err() ==> res == Err::<BenchmarkReport, BenchmarkError>(BenchmarkError::Size),
        res.is_ok() ==> benchmark_of(
            res.unwrap(),
            "CPU Benchmark - Fused Linear/ReLu/Softmax"@,
            "cpu_linear_relu_softmax_fused_benchmark.png"@,
            pipeline_names(),
            pipeline_candidates(),
            *config,
        ),
{
    let mut names: Vec<String> = Vec::new();
    names.push("shared::tensor2d::linear_relu_softmax".to_owned());
    names.push("shared::tensor2d::linear_relu_softmax_local_accumulation".to_owned());
    names.push("shared::tensor2d::linear_relu_softmax_fused_fission".to_owned());
    names.push("shared::tensor2d::linear_relu_softmax_fused".to_owned());
    names.push("shared::tensor2d::linear_local_accumulation_relu".to_owned());
    names.push("shared::tensor2d::linear_optimized_relu".to_owned());
    let mut functions: Vec<CpuCandidate> = Vec::new();
    functions.push(CpuCandidate::LinearReluSoftmaxNaive);
    functions.push(CpuCandidate::LinearReluSoftmaxLocalAccumulation);
    functions.push(CpuCandidate::LinearReluSoftmaxFusedFission);
    functions.push(CpuCandidate::LinearReluSoftmaxFused);
    functions.push(CpuCandidate::LinearLocalAccumulationRelu);
    functions.push(CpuCandidate::LinearOptimizedRelu);
    assert(functions@ =~= pipeline_candidates());
    report_benchmark(
        config,
        "CPU Benchmark - Fused Linear/ReLu/Softmax",
        "cpu_linear_relu_softmax_fused_benchmark.png",
        names,
        functions,
    )
}

/// The pipeline scenario: a benchmark of the pipeline's renderings, or one run
/// of the fused kernel on a 4 by 3 input of 0.5, 3 by 4 weights of 1.0, a 4 by
/// 4 bias of 0.1 and a 4 by 4 output buffer that holds 0.1 beforehand.
pub fn linear_relu_softmax_fused(config: &Configuration) -> (res: Result<ScenarioOutcome, BenchmarkError>)
    ensures
        res.is_err() <==> config.run_performance_benchmark && !fits(*config),
        res.is_err() ==> res == Err::<ScenarioOutcome, BenchmarkError>(BenchmarkError::Size),
        res.is_ok() ==> is_pipeline_outcome(res.unwrap(), *config),
{
    if config.run_performance_benchmark {
        return match linear_relu_softmax_benchmark(config) {
            Ok(report) => Ok(ScenarioOutcome::Benchmark(report)),
            Err(e) => Err(e),
        };
    }
    let input = Tensor2D::new(HALF, 4, 3);
    let weights = Tensor2D::new(ONE, 3, 4);
    let bias = Tensor2D::new(TENTH, 4, 4);
    let buffer = Tensor2D::new(TENTH, 4, 4);
    let mut output = buffer.clone();
    let fused = Tensor2D::linear_relu_softmax_fused(&input, &weights, &bias, &mut output);
    assert(fused.is_ok());
    let mut operands: Vec<NamedTensor> = Vec::new();
    operands.push(named("Tensor2D input", input));
    operands.push(named("Tensor2D weights", weights));
    operands.push(named("Tensor2D bias", bias));
    operands.push(named("Tensor2D output", buffer));
    Ok(ScenarioOutcome::Debug(trace(config.debug_level, operands, output)))
}

/// What the pipeline scenario hands back under `config`.
pub open spec fn is_pipeline_outcome(outcome: ScenarioOutcome, config: Configuration) -> bool {
    match outcome {
        ScenarioOutcome::Benchmark(report) => config.run_performance_benchmark && benchmark_of(
            report,
            "CPU Benchmark - Fused Linear/ReLu/Softmax"@,
            "cpu_linear_relu_softmax_fused_benchmark.png"@,
            pipeline_names(),
            pipeline_candidates(),
            config,
        ),
        ScenarioOutcome::Debug(run) => !config.run_performance_benchmark && traced(
            run,
            config.debug_level,
            seq![
                ("Tensor2D input"@, Matrix::filled(HALF, 4, 3)),
                ("Tensor2D weights"@, Matrix::filled(ONE, 3, 4)),
                ("Tensor2D bias"@, Matrix::filled(TENTH, 4, 4)),
                ("Tensor2D output"@, Matrix::filled(TENTH, 4, 4)),
            ],
            linear_relu_softmax_spec(
                Matrix::filled(HALF, 4, 3),
                Matrix::filled(ONE, 3, 4),
                Matrix::filled(TENTH, 4, 4),
            ),
        ),
    }
}

/// Runs the four host scenarios in order: linear layer, rectification,
/// normalization, fused pipeline.
///
/// In benchmark mode the first scenario whose operands do not fit a buffer
/// ends the run; a debug run always succeeds.
pub fn execute(config: &Configuration) -> (res: Result<Vec<ScenarioOutcome>, BenchmarkError>)
    ensures
        res.is_err() <==> config.run_performance_benchmark && !fits(*config),
        res.is_err() ==> res == Err::<Vec<ScenarioOutcome>, BenchmarkError>(BenchmarkError::Size),
        res.is_ok() ==> {
            &&& res.unwrap()@.len() == 4
            &&& is_linear_outcome(res.unwrap()@[0], *config)
            &&& is_relu_outcome(res.unwrap()@[1], *config)
            &&& is_softmax_outcome(res.unwrap()@[2], *config)
            &&& is_pipeline_outcome(res.unwrap()@[3], *config)
        },
{
    let first = match linear(config) {
        Ok(outcome) => outcome,
        Err(e) => {
            return Err(e);
        },
    };
    let second = match relu(config) {
        Ok(outcome) => outcome,
        Err(e) => {
            return Err(e);
        },
    };
    let third = match softmax(config) {
        Ok(outcome) => outcome,
        Err(e) => {
            return Err(e);
        },
    };
    let fourth = match linear_relu_softmax_fused(config) {
        Ok(outcome) => outcome,
        Err(e) => {
            return Err(e);
        },
    };
    let mut outcomes: Vec<ScenarioOutcome> = Vec::new();
    outcomes.push(first);
    outcomes.push(second);
    outcomes.push(third);
    outcomes.push(fourth);
    Ok(outcomes)
}

} // verus!
