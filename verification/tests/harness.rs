use computational_graphs::cpu::candidates::{
    inline_linear_benchmark, linear_local_accumulation_relu_benchmark, linear_optimized_relu_benchmark,
    linear_relu_softmax_fused_benchmark, linear_relu_softmax_fused_fission_benchmark,
    linear_relu_softmax_local_accumulation_benchmark, linear_relu_softmax_naive_benchmark,
    local_accumulation_linear_benchmark, naive_linear_benchmark, optimized_linear_benchmark,
    preallocated_linear_benchmark, relu_inplace_benchmark, relu_inplace_inline_benchmark,
    relu_naive_benchmark, relu_preallocated_benchmark, softmax_inplace_benchmark,
    softmax_inplace_inline_benchmark, softmax_naive_benchmark, softmax_preallocated_benchmark,
    CpuCandidate,
};
use computational_graphs::cpu::harness::{benchmark_function_vector, BenchmarkError, Operands};
use computational_graphs::cpu::runner::{
    execute, linear, linear_benchmark, linear_relu_softmax_benchmark, linear_relu_softmax_fused, relu,
    relu_benchmark, softmax, softmax_benchmark, ScenarioOutcome,
};
use computational_graphs::shared::benchmark_run::{BenchmarkAction, BenchmarkRun};
use computational_graphs::shared::clock::{saturate_nanos, Stopwatch};
use computational_graphs::shared::configuration::Configuration;
use computational_graphs::shared::performance_measurement::{integer_sqrt, PerformanceMeasurements};
use computational_graphs::shared::tensor2d::{ShapeError, Tensor2D};

fn record_of(samples: &[u64]) -> PerformanceMeasurements {
    let mut record = PerformanceMeasurements::new("candidate".to_string());
    for s in samples {
        record.record(*s);
    }
    record
}

fn names(n: usize) -> Vec<String> {
    (0..n).map(|i| format!("candidate {}", i)).collect()
}

fn benchmark_config(size: usize, warmups: usize, repetitions: usize) -> Configuration {
    Configuration {
        debug_level: 0,
        run_performance_benchmark: true,
        log_scale: true,
        matrix_size: size,
        warmup_count: warmups,
        repetition_count: repetitions,
    }
}

#[test]
fn default_configuration() {
    let c = Configuration::default();
    assert_eq!(c.debug_level, 0);
    assert!(!c.run_performance_benchmark);
    assert!(!c.log_scale);
    assert_eq!(c.matrix_size, 64);
    assert_eq!(c.warmup_count, 2);
    assert_eq!(c.repetition_count, 10);
}

#[test]
fn records_start_empty() {
    let d = PerformanceMeasurements::default();
    assert_eq!(d.name, "");
    assert_eq!(d.count(), 0);
    let r = PerformanceMeasurements::new("x".to_string());
    assert_eq!(r.name, "x");
    assert_eq!(r.samples, Vec::<u64>::new());
    assert_eq!(r.min(), None);
    assert_eq!(r.max(), None);
    assert_eq!(r.mean(), None);
    assert_eq!(r.variance(), None);
    assert_eq!(r.standard_deviation(), None);
}

#[test]
fn records_keep_samples_in_order() {
    let r = record_of(&[5, 3, 9]);
    assert_eq!(r.samples, vec![5, 3, 9]);
    assert_eq!(r.count(), 3);
}

#[test]
fn records_clone_with_name_and_samples() {
    let r = record_of(&[5, 3, 9]);
    let c = r.clone();
    assert_eq!(c.name, "candidate");
    assert_eq!(c.samples, vec![5, 3, 9]);
}

#[test]
fn statistics_of_a_known_series() {
    let r = record_of(&[2, 4, 4, 4, 5, 5, 7, 9]);
    assert_eq!(r.min(), Some(2));
    assert_eq!(r.max(), Some(9));
    assert_eq!(r.mean(), Some(5));
    assert_eq!(r.variance(), Some(4));
    assert_eq!(r.standard_deviation(), Some(2));
}

#[test]
fn statistics_round_down() {
    let r = record_of(&[1, 2, 4]);
    // mean 7/3 -> 2; squared deviations 1, 0, 4 -> 5/3 -> 1; root 1
    assert_eq!(r.mean(), Some(2));
    assert_eq!(r.variance(), Some(1));
    assert_eq!(r.standard_deviation(), Some(1));
    let single = record_of(&[17]);
    assert_eq!(single.mean(), Some(17));
    assert_eq!(single.variance(), Some(0));
    assert_eq!(single.standard_deviation(), Some(0));
}

#[test]
fn statistics_of_extreme_samples_do_not_overflow() {
    let r = record_of(&[0, u64::MAX, 0, u64::MAX]);
    assert_eq!(r.min(), Some(0));
    assert_eq!(r.max(), Some(u64::MAX));
    let mean = u64::MAX / 2;
    assert_eq!(r.mean(), Some(mean));
    // deviations are mean and mean + 1, twice each
    let low = mean as u128 * mean as u128;
    let high = (mean as u128 + 1) * (mean as u128 + 1);
    assert_eq!(r.variance(), Some(low / 2 + high / 2 + (low % 2 + high % 2) / 2));
    assert_eq!(r.standard_deviation(), Some(mean));
    let all = record_of(&[u64::MAX; 5]);
    assert_eq!(all.mean(), Some(u64::MAX));
    assert_eq!(all.variance(), Some(0));
}

#[test]
fn integer_square_roots() {
    assert_eq!(integer_sqrt(0), 0);
    assert_eq!(integer_sqrt(1), 1);
    assert_eq!(integer_sqrt(3), 1);
    assert_eq!(integer_sqrt(4), 2);
    assert_eq!(integer_sqrt(99), 9);
    assert_eq!(integer_sqrt(100), 10);
    assert_eq!(integer_sqrt(u128::MAX), u64::MAX);
    assert_eq!(integer_sqrt((u64::MAX as u128) * (u64::MAX as u128) - 1), u64::MAX - 1);
}

#[test]
fn nanoseconds_saturate_at_64_bits() {
    assert_eq!(saturate_nanos(0), 0);
    assert_eq!(saturate_nanos(1_234), 1_234);
    assert_eq!(saturate_nanos(u64::MAX as u128), u64::MAX);
    assert_eq!(saturate_nanos(u64::MAX as u128 + 1), u64::MAX);
    assert_eq!(saturate_nanos(u128::MAX), u64::MAX);
}

#[test]
fn stopwatch_does_not_run_backwards() {
    let watch = Stopwatch::start();
    let first = watch.elapsed_nanos();
    let mut spin = 0u64;
    for i in 0..100_000u64 {
        spin = spin.wrapping_add(i * i);
    }
    assert_ne!(spin, 1);
    let second = watch.elapsed_nanos();
    assert!(first <= second);
    assert!(second < 20_000_000_000);
}

#[test]
fn run_asks_for_warmups_then_measurements() {
    let mut run = BenchmarkRun::new(names(2), 2, 3);
    let mut actions = Vec::new();
    let mut elapsed = 100;
    while !run.is_finished() {
        actions.push(run.next_action());
        run.report(elapsed);
        elapsed += 1;
    }
    assert_eq!(run.next_action(), BenchmarkAction::Finished);
    assert_eq!(
        actions,
        vec![
            BenchmarkAction::WarmUp { candidate: 0 },
            BenchmarkAction::WarmUp { candidate: 0 },
            BenchmarkAction::Measure { candidate: 0 },
            BenchmarkAction::Measure { candidate: 0 },
            BenchmarkAction::Measure { candidate: 0 },
            BenchmarkAction::WarmUp { candidate: 1 },
            BenchmarkAction::WarmUp { candidate: 1 },
            BenchmarkAction::Measure { candidate: 1 },
            BenchmarkAction::Measure { candidate: 1 },
            BenchmarkAction::Measure { candidate: 1 },
        ]
    );
    let records = run.into_measurements();
    assert_eq!(records.len(), 2);
    assert_eq!(records[0].name, "candidate 0");
    assert_eq!(records[1].name, "candidate 1");
    // the times reported for warm-up runs, 100, 101, 105 and 106, appear nowhere
    assert_eq!(records[0].samples, vec![102, 103, 104]);
    assert_eq!(records[1].samples, vec![107, 108, 109]);
}

#[test]
fn every_candidate_gets_exactly_the_repetitions() {
    for candidates in 0..4usize {
        for warmups in 0..3usize {
            for repetitions in 0..4usize {
                let mut run = BenchmarkRun::new(names(candidates), warmups, repetitions);
                let mut reported = 0usize;
                let mut expected: Vec<Vec<u64>> = vec![Vec::new(); candidates];
                loop {
                    match run.next_action() {
                        BenchmarkAction::Finished => break,
                        BenchmarkAction::WarmUp { candidate } => {
                            assert!(candidate < candidates);
                            run.report(reported as u64);
                        }
                        BenchmarkAction::Measure { candidate } => {
                            expected[candidate].push(reported as u64);
                            run.report(reported as u64);
                        }
                    }
                    reported += 1;
                }
                assert_eq!(reported, candidates * (warmups + repetitions));
                let records = run.measurements();
                assert_eq!(records.len(), candidates);
                for (i, record) in records.iter().enumerate() {
                    assert_eq!(record.samples.len(), repetitions);
                    assert_eq!(record.samples, expected[i]);
                }
            }
        }
    }
}

#[test]
fn run_without_executions_is_finished_at_once() {
    let run = BenchmarkRun::new(names(3), 0, 0);
    assert!(run.is_finished());
    assert_eq!(run.next_action(), BenchmarkAction::Finished);
    assert_eq!(run.into_measurements().len(), 3);
    let none = BenchmarkRun::new(Vec::new(), 2, 2);
    assert!(none.is_finished());
}

#[test]
fn unfinished_run_shows_what_it_has() {
    let mut run = BenchmarkRun::new(names(2), 1, 2);
    run.report(10);
    run.report(11);
    assert_eq!(run.next_action(), BenchmarkAction::Measure { candidate: 0 });
    assert!(!run.is_finished());
    let records = run.measurements();
    assert_eq!(records[0].samples, vec![11]);
    assert_eq!(records[1].samples, Vec::<u64>::new());
}

#[test]
fn operands_are_the_same_for_every_candidate() {
    let mut operands = Operands::new(3);
    assert_eq!(operands.input.data(), &vec![500_000_000_000i64; 9]);
    assert_eq!(operands.weights.data(), &vec![1_000_000_000_000i64; 9]);
    assert_eq!(operands.bias.data(), &vec![100_000_000_000i64; 9]);
    assert_eq!(operands.output.data(), &vec![0i64; 9]);
    CpuCandidate::SoftmaxInplace
        .run(&mut operands.input, &operands.weights, &operands.bias, &mut operands.output)
        .unwrap();
    CpuCandidate::OptimizedLinear
        .run(&mut operands.input, &operands.weights, &operands.bias, &mut operands.output)
        .unwrap();
    assert_ne!(operands.input.data(), &vec![500_000_000_000i64; 9]);
    assert_ne!(operands.output.data(), &vec![0i64; 9]);
    operands.refresh();
    assert_eq!((operands.input.rows(), operands.input.cols()), (3, 3));
    assert_eq!(operands.input.data(), &vec![500_000_000_000i64; 9]);
    assert_eq!(operands.output.data(), &vec![0i64; 9]);
    assert_eq!(operands.weights.data(), &vec![1_000_000_000_000i64; 9]);
    assert_eq!(operands.bias.data(), &vec![100_000_000_000i64; 9]);
}

#[test]
fn operands_are_prepared_for_the_first_execution_only() {
    let mut operands = Operands::new(2);
    CpuCandidate::ReluPreallocated
        .run(&mut operands.input, &operands.weights, &operands.bias, &mut operands.output)
        .unwrap();
    CpuCandidate::SoftmaxInplace
        .run(&mut operands.input, &operands.weights, &operands.bias, &mut operands.output)
        .unwrap();
    let input = operands.input.data().clone();
    let output = operands.output.data().clone();
    assert_eq!(output, vec![500_000_000_000i64; 4]);
    operands.prepare(false);
    assert_eq!(operands.input.data(), &input);
    assert_eq!(operands.output.data(), &output);
    operands.prepare(true);
    assert_eq!(operands.input.data(), &vec![500_000_000_000i64; 4]);
    assert_eq!(operands.output.data(), &vec![0i64; 4]);
    assert_eq!(operands.weights.data(), &vec![1_000_000_000_000i64; 4]);
    assert_eq!(operands.bias.data(), &vec![100_000_000_000i64; 4]);
}

#[test]
fn run_says_when_a_candidate_starts() {
    let mut run = BenchmarkRun::new(names(2), 1, 2);
    let mut starts = Vec::new();
    let mut ends = Vec::new();
    assert!(run.at_boundary());
    while !run.is_finished() {
        starts.push(run.starts_candidate());
        run.report(1);
        ends.push(run.at_boundary());
    }
    assert_eq!(starts, vec![true, false, false, true, false, false]);
    assert_eq!(ends, vec![false, false, true, false, false, true]);
    let mut unwarmed = BenchmarkRun::new(names(2), 0, 1);
    assert!(unwarmed.starts_candidate());
    unwarmed.report(1);
    assert!(unwarmed.starts_candidate());
}

#[test]
fn every_candidate_starts_from_the_same_operands() {
    let config = benchmark_config(3, 1, 2);
    let functions = vec![
        CpuCandidate::SoftmaxInplace,
        CpuCandidate::OptimizedLinear,
        CpuCandidate::ReluPreallocated,
        CpuCandidate::ReluNaive,
    ];
    let mut records = Vec::new();
    let leftovers = benchmark_function_vector(&config, names(4), functions, &mut records).unwrap();
    assert_eq!(leftovers.len(), 4);

    // three normalizations in place, one on top of the other, of a fresh input
    let mut thrice = Tensor2D::new(500_000_000_000, 3, 3);
    thrice.softmax_inplace();
    thrice.softmax_inplace();
    thrice.softmax_inplace();
    assert_eq!(leftovers[0].input.data(), thrice.data());
    assert_eq!(leftovers[0].output.data(), &vec![0i64; 9]);
    // the linear layer of a fresh input, not of the normalized one
    assert_eq!(leftovers[1].input.data(), &vec![500_000_000_000i64; 9]);
    assert_eq!(leftovers[1].output.data(), &vec![1_600_000_000_000i64; 9]);
    // rectification into a fresh buffer, not into the linear layer's
    assert_eq!(leftovers[2].input.data(), &vec![500_000_000_000i64; 9]);
    assert_eq!(leftovers[2].output.data(), &vec![500_000_000_000i64; 9]);
    // a candidate that writes nowhere leaves fresh operands
    assert_eq!(leftovers[3].input.data(), &vec![500_000_000_000i64; 9]);
    assert_eq!(leftovers[3].output.data(), &vec![0i64; 9]);
}

#[test]
fn candidates_that_are_not_executed_leave_fresh_operands() {
    let config = benchmark_config(2, 0, 0);
    let mut records = Vec::new();
    let leftovers = benchmark_function_vector(
        &config,
        names(2),
        vec![CpuCandidate::SoftmaxInplace, CpuCandidate::OptimizedLinear],
        &mut records,
    )
    .unwrap();
    assert_eq!(records.len(), 2);
    assert_eq!(leftovers.len(), 2);
    for leftover in &leftovers {
        assert_eq!(leftover.input.data(), &vec![500_000_000_000i64; 4]);
        assert_eq!(leftover.output.data(), &vec![0i64; 4]);
    }
}

#[test]
fn harness_fills_one_record_per_candidate() {
    let config = benchmark_config(3, 2, 5);
    let functions = vec![
        CpuCandidate::NaiveLinear,
        CpuCandidate::ReluInplace,
        CpuCandidate::SoftmaxPreallocated,
        CpuCandidate::LinearReluSoftmaxFused,
    ];
    let mut records = vec![PerformanceMeasurements::default()];
    benchmark_function_vector(&config, names(4), functions, &mut records).unwrap();
    assert_eq!(records.len(), 4);
    for (i, record) in records.iter().enumerate() {
        assert_eq!(record.name, format!("candidate {}", i));
        assert_eq!(record.samples.len(), 5);
    }
}

#[test]
fn harness_refuses_names_that_do_not_match() {
    let config = benchmark_config(3, 1, 1);
    let mut records = vec![PerformanceMeasurements::new("kept".to_string())];
    let result = benchmark_function_vector(&config, names(2), vec![CpuCandidate::ReluNaive], &mut records);
    assert_eq!(result.err(), Some(BenchmarkError::NameCount));
    assert_eq!(records.len(), 1);
    assert_eq!(records[0].name, "kept");
}

#[test]
fn harness_refuses_operands_too_large_for_a_buffer() {
    let config = benchmark_config(usize::MAX, 1, 1);
    let mut records = Vec::new();
    let result = benchmark_function_vector(&config, names(1), vec![CpuCandidate::ReluNaive], &mut records);
    assert_eq!(result.err(), Some(BenchmarkError::Size));
    assert_eq!(records.len(), 0);
}

#[test]
fn candidates_that_allocate_leave_their_operands_alone() {
    let mut input = Tensor2D::new(-500_000_000_000, 2, 2);
    let weights = Tensor2D::new(1_000_000_000_000, 2, 2);
    let bias = Tensor2D::new(100_000_000_000, 2, 2);
    let mut output = Tensor2D::new(7, 2, 2);
    naive_linear_benchmark(&mut input, &weights, &bias, &mut output).unwrap();
    relu_naive_benchmark(&mut input, &weights, &bias, &mut output).unwrap();
    softmax_naive_benchmark(&mut input, &weights, &bias, &mut output).unwrap();
    linear_relu_softmax_naive_benchmark(&mut input, &weights, &bias, &mut output).unwrap();
    assert_eq!(input.data(), &vec![-500_000_000_000i64; 4]);
    assert_eq!(output.data(), &vec![7i64; 4]);
}

#[test]
fn linear_candidates_fill_the_output() {
    let weights = Tensor2D::new(1_000_000_000_000, 3, 4);
    let bias = Tensor2D::new(100_000_000_000, 4, 4);
    let table: Vec<fn(&mut Tensor2D, &Tensor2D, &Tensor2D, &mut Tensor2D) -> Result<(), ShapeError>> = vec![
        preallocated_linear_benchmark,
        inline_linear_benchmark,
        local_accumulation_linear_benchmark,
        optimized_linear_benchmark,
        linear_local_accumulation_relu_benchmark,
        linear_optimized_relu_benchmark,
    ];
    for candidate in table {
        let mut input = Tensor2D::new(500_000_000_000, 4, 3);
        let mut output = Tensor2D::new(0, 4, 4);
        candidate(&mut input, &weights, &bias, &mut output).unwrap();
        assert_eq!(output.data(), &vec![1_600_000_000_000i64; 16]);
        assert_eq!(input.data(), &vec![500_000_000_000i64; 12]);
    }
}

#[test]
fn pipeline_candidates_fill_the_output() {
    let weights = Tensor2D::new(1_000_000_000_000, 3, 4);
    let bias = Tensor2D::new(100_000_000_000, 4, 4);
    let table: Vec<fn(&mut Tensor2D, &Tensor2D, &Tensor2D, &mut Tensor2D) -> Result<(), ShapeError>> = vec![
        linear_relu_softmax_local_accumulation_benchmark,
        linear_relu_softmax_fused_fission_benchmark,
        linear_relu_softmax_fused_benchmark,
    ];
    for candidate in table {
        let mut input = Tensor2D::new(500_000_000_000, 4, 3);
        let mut output = Tensor2D::new(0, 4, 4);
        candidate(&mut input, &weights, &bias, &mut output).unwrap();
        assert_eq!(output.data(), &vec![250_000_000_000i64; 16]);
    }
}

#[test]
fn elementwise_candidates_write_where_they_should() {
    let weights = Tensor2D::new(0, 1, 1);
    let bias = Tensor2D::new(0, 1, 1);
    let mut input = Tensor2D::new(-500_000_000_000, 2, 2);
    let mut output = Tensor2D::new(7, 2, 2);
    relu_preallocated_benchmark(&mut input, &weights, &bias, &mut output).unwrap();
    assert_eq!(output.data(), &vec![0i64; 4]);
    assert_eq!(input.data(), &vec![-500_000_000_000i64; 4]);
    softmax_preallocated_benchmark(&mut input, &weights, &bias, &mut output).unwrap();
    assert_eq!(output.data(), &vec![500_000_000_000i64; 4]);
    let mut wrong = Tensor2D::new(7, 1, 4);
    assert_eq!(
        relu_preallocated_benchmark(&mut input, &weights, &bias, &mut wrong),
        Err(ShapeError::Output)
    );
    assert_eq!(
        softmax_preallocated_benchmark(&mut input, &weights, &bias, &mut wrong),
        Err(ShapeError::Output)
    );

    let mut a = Tensor2D::new(-500_000_000_000, 2, 2);
    relu_inplace_benchmark(&mut a, &weights, &bias, &mut output).unwrap();
    assert_eq!(a.data(), &vec![0i64; 4]);
    let mut b = Tensor2D::new(-500_000_000_000, 2, 2);
    relu_inplace_inline_benchmark(&mut b, &weights, &bias, &mut output).unwrap();
    assert_eq!(b.data(), &vec![0i64; 4]);
    let mut c = Tensor2D::new(-500_000_000_000, 2, 2);
    softmax_inplace_benchmark(&mut c, &weights, &bias, &mut output).unwrap();
    assert_eq!(c.data(), &vec![500_000_000_000i64; 4]);
    let mut d = Tensor2D::new(-500_000_000_000, 2, 2);
    softmax_inplace_inline_benchmark(&mut d, &weights, &bias, &mut output).unwrap();
    assert_eq!(d.data(), &vec![500_000_000_000i64; 4]);
    assert_eq!(output.data(), &vec![500_000_000_000i64; 4]);
}

#[test]
fn table_entries_run_their_candidates() {
    let weights = Tensor2D::new(1_000_000_000_000, 2, 2);
    let bias = Tensor2D::new(100_000_000_000, 2, 2);
    let all = [
        CpuCandidate::NaiveLinear,
        CpuCandidate::PreallocatedLinear,
        CpuCandidate::InlineLinear,
        CpuCandidate::LocalAccumulationLinear,
        CpuCandidate::OptimizedLinear,
        CpuCandidate::ReluNaive,
        CpuCandidate::ReluPreallocated,
        CpuCandidate::ReluInplace,
        CpuCandidate::ReluInplaceInline,
        CpuCandidate::SoftmaxNaive,
        CpuCandidate::SoftmaxPreallocated,
        CpuCandidate::SoftmaxInplace,
        CpuCandidate::SoftmaxInplaceInline,
        CpuCandidate::LinearReluSoftmaxNaive,
        CpuCandidate::LinearReluSoftmaxLocalAccumulation,
        CpuCandidate::LinearReluSoftmaxFusedFission,
        CpuCandidate::LinearReluSoftmaxFused,
        CpuCandidate::LinearLocalAccumulationRelu,
        CpuCandidate::LinearOptimizedRelu,
    ];
    let expected: [(i64, i64); 19] = [
        (-500_000_000_000, 7),
        (-500_000_000_000, -900_000_000_000),
        (-500_000_000_000, -900_000_000_000),
        (-500_000_000_000, -900_000_000_000),
        (-500_000_000_000, -900_000_000_000),
        (-500_000_000_000, 7),
        (-500_000_000_000, 0),
        (0, 7),
        (0, 7),
        (-500_000_000_000, 7),
        (-500_000_000_000, 500_000_000_000),
        (500_000_000_000, 7),
        (500_000_000_000, 7),
        (-500_000_000_000, 7),
        (-500_000_000_000, 500_000_000_000),
        (-500_000_000_000, 500_000_000_000),
        (-500_000_000_000, 500_000_000_000),
        (-500_000_000_000, 0),
        (-500_000_000_000, 0),
    ];
    for (candidate, (input_after, output_after)) in all.iter().zip(expected.iter()) {
        let mut input = Tensor2D::new(-500_000_000_000, 2, 2);
        let mut output = Tensor2D::new(7, 2, 2);
        candidate.run(&mut input, &weights, &bias, &mut output).unwrap();
        assert_eq!(input.data(), &vec![*input_after; 4], "{:?}", candidate);
        assert_eq!(output.data(), &vec![*output_after; 4], "{:?}", candidate);
    }
}

#[test]
fn table_entries_pass_refusals_on() {
    let weights = Tensor2D::new(1, 3, 2);
    let bias = Tensor2D::new(1, 2, 2);
    let mut input = Tensor2D::new(1, 2, 2);
    let mut output = Tensor2D::new(7, 2, 2);
    assert_eq!(
        CpuCandidate::NaiveLinear.run(&mut input, &weights, &bias, &mut output),
        Err(ShapeError::InnerDimension)
    );
    assert_eq!(
        CpuCandidate::LinearReluSoftmaxFused.run(&mut input, &weights, &bias, &mut output),
        Err(ShapeError::InnerDimension)
    );
    assert_eq!(CpuCandidate::ReluInplace.run(&mut input, &weights, &bias, &mut output), Ok(()));
    assert_eq!(output.data(), &vec![7i64; 4]);
}

#[test]
fn debug_run_of_linear_shows_what_the_level_allows() {
    let mut config = Configuration::default();
    for level in 0..6u32 {
        config.debug_level = level;
        match linear(&config).unwrap() {
            ScenarioOutcome::Debug(run) => {
                assert_eq!(run.operands.len(), if level > 3 { 3 } else { 0 });
                assert_eq!(run.output.is_some(), level > 2);
                assert_eq!(run.evaluation_sum, if level > 1 { Some(25_600_000_000_000) } else { None });
                if let Some(output) = run.output {
                    assert_eq!((output.rows(), output.cols()), (4, 4));
                    assert_eq!(output.data(), &vec![1_600_000_000_000i64; 16]);
                }
                if level > 3 {
                    assert_eq!(run.operands[0].label, "Tensor2D input");
                    assert_eq!(run.operands[0].tensor.data(), &vec![500_000_000_000i64; 12]);
                    assert_eq!(run.operands[1].label, "Tensor2D weights");
                    assert_eq!(run.operands[1].tensor.rows(), 3);
                    assert_eq!(run.operands[2].label, "Tensor2D bias");
                    assert_eq!(run.operands[2].tensor.data(), &vec![100_000_000_000i64; 16]);
                }
            }
            ScenarioOutcome::Benchmark(_) => panic!("a debug run was asked for"),
        }
    }
}

#[test]
fn debug_runs_of_the_other_scenarios() {
    let mut config = Configuration::default();
    config.debug_level = 4;
    match relu(&config).unwrap() {
        ScenarioOutcome::Debug(run) => {
            assert_eq!(run.operands.len(), 1);
            assert_eq!(run.operands[0].tensor.data(), &vec![-500_000_000_000i64; 12]);
            assert_eq!(run.output.unwrap().data(), &vec![0i64; 12]);
            assert_eq!(run.evaluation_sum, Some(0));
        }
        ScenarioOutcome::Benchmark(_) => panic!("a debug run was asked for"),
    }
    match softmax(&config).unwrap() {
        ScenarioOutcome::Debug(run) => {
            assert_eq!(run.operands.len(), 1);
            assert_eq!(run.output.unwrap().get(0, 0), Some(333_333_333_333));
            assert_eq!(run.evaluation_sum, Some(3_999_999_999_996));
        }
        ScenarioOutcome::Benchmark(_) => panic!("a debug run was asked for"),
    }
    match linear_relu_softmax_fused(&config).unwrap() {
        ScenarioOutcome::Debug(run) => {
            assert_eq!(run.operands.len(), 4);
            assert_eq!(run.operands[3].label, "Tensor2D output");
            assert_eq!(run.operands[3].tensor.data(), &vec![100_000_000_000i64; 16]);
            assert_eq!(run.output.unwrap().data(), &vec![250_000_000_000i64; 16]);
            assert_eq!(run.evaluation_sum, Some(4_000_000_000_000));
        }
        ScenarioOutcome::Benchmark(_) => panic!("a debug run was asked for"),
    }
}

#[test]
fn benchmarks_report_every_candidate() {
    let config = benchmark_config(4, 1, 3);
    let report = linear_benchmark(&config).unwrap();
    assert_eq!(report.title, "CPU Benchmark - Linear");
    assert_eq!(report.directory, "benchmarks/cpu/");
    assert_eq!(report.file_name, "cpu_linear_benchmark.png");
    assert!(report.log_scale);
    let listed: Vec<&str> = report.measurements.iter().map(|m| m.name.as_str()).collect();
    assert_eq!(
        listed,
        vec![
            "shared::tensor2d::linear",
            "shared::tensor2d::linear_preallocated",
            "shared::tensor2d::linear_preallocated_inline",
            "shared::tensor2d::linear_local_accumulation",
            "shared::tensor2d::linear_optimized",
        ]
    );
    for m in &report.measurements {
        assert_eq!(m.samples.len(), 3);
    }
    assert_eq!(report.leftovers.len(), 5);
    assert_eq!(report.leftovers[0].output.data(), &vec![0i64; 16]);
    for leftover in &report.leftovers[1..] {
        assert_eq!(leftover.input.data(), &vec![500_000_000_000i64; 16]);
        assert_eq!(leftover.output.data(), &vec![2_100_000_000_000i64; 16]);
    }
    let report = relu_benchmark(&config).unwrap();
    assert_eq!(report.title, "CPU Benchmark - ReLu");
    assert_eq!(report.file_name, "cpu_relu_benchmark.png");
    assert_eq!(report.measurements.len(), 4);
    assert_eq!(report.measurements[3].name, "shared::tensor2d::relu_inplace_inline");
    let report = softmax_benchmark(&config).unwrap();
    assert_eq!(report.title, "CPU Benchmark - Softmax");
    assert_eq!(report.file_name, "cpu_softmax_benchmark.png");
    assert_eq!(report.measurements.len(), 4);
    assert_eq!(report.measurements[1].name, "shared::tensor2d::softmax_preallocated");
    let report = linear_relu_softmax_benchmark(&config).unwrap();
    assert_eq!(report.title, "CPU Benchmark - Fused Linear/ReLu/Softmax");
    assert_eq!(report.file_name, "cpu_linear_relu_softmax_fused_benchmark.png");
    assert_eq!(report.measurements.len(), 6);
    assert_eq!(report.measurements[5].name, "shared::tensor2d::linear_optimized_relu");
    for m in &report.measurements {
        assert_eq!(m.samples.len(), 3);
    }
}

#[test]
fn execute_runs_the_four_scenarios_in_order() {
    let mut config = Configuration::default();
    config.debug_level = 2;
    let outcomes = execute(&config).unwrap();
    assert_eq!(outcomes.len(), 4);
    let sums: Vec<Option<i64>> = outcomes
        .iter()
        .map(|o| match o {
            ScenarioOutcome::Debug(run) => run.evaluation_sum,
            ScenarioOutcome::Benchmark(_) => None,
        })
        .collect();
    assert_eq!(sums, vec![Some(25_600_000_000_000), Some(0), Some(3_999_999_999_996), Some(4_000_000_000_000)]);
}

#[test]
fn execute_in_benchmark_mode_reports_four_benchmarks() {
    let config = benchmark_config(2, 1, 2);
    let outcomes = execute(&config).unwrap();
    let counts: Vec<usize> = outcomes
        .iter()
        .map(|o| match o {
            ScenarioOutcome::Benchmark(report) => report.measurements.len(),
            ScenarioOutcome::Debug(_) => 0,
        })
        .collect();
    assert_eq!(counts, vec![5, 4, 4, 6]);
    assert_eq!(execute(&benchmark_config(usize::MAX, 1, 2)).err(), Some(BenchmarkError::Size));
    let mut debug = benchmark_config(usize::MAX, 1, 2);
    debug.run_performance_benchmark = false;
    assert!(execute(&debug).is_ok());
}

#[test]
fn benchmark_errors_say_what_went_wrong() {
    assert_eq!(BenchmarkError::NameCount.message(), "there is not exactly one name per candidate");
    assert_eq!(
        BenchmarkError::Size.message(),
        "square operands of the configured size do not fit a buffer"
    );
}
