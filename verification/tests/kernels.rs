use computational_graphs::shared::fixed::ONE;
use computational_graphs::shared::tensor2d::{ShapeError, Tensor2D};

fn pattern(rows: usize, cols: usize, seed: u64) -> Tensor2D {
    let mut state = seed;
    let mut data = Vec::with_capacity(rows * cols);
    for _ in 0..rows * cols {
        state = state.wrapping_mul(6364136223846793005).wrapping_add(1442695040888963407);
        data.push((((state >> 33) as i64 % 4_000_001) - 2_000_000) * 1_000_000);
    }
    Tensor2D::from_vec(rows, cols, data).unwrap()
}

fn all_linear(input: &Tensor2D, weights: &Tensor2D, bias: &Tensor2D) -> Vec<Vec<i64>> {
    let rows = input.rows();
    let cols = weights.cols();
    let mut results = Vec::new();
    results.push(Tensor2D::linear(input, weights, bias).unwrap().data().clone());
    let mut out = Tensor2D::new(7, rows, cols);
    Tensor2D::linear_preallocated(input, weights, bias, &mut out).unwrap();
    results.push(out.data().clone());
    let mut out = Tensor2D::new(-7, rows, cols);
    Tensor2D::linear_preallocated_inline(input, weights, bias, &mut out).unwrap();
    results.push(out.data().clone());
    let mut out = Tensor2D::new(9, rows, cols);
    Tensor2D::linear_local_accumulation(input, weights, bias, &mut out).unwrap();
    results.push(out.data().clone());
    let mut out = Tensor2D::new(-9, rows, cols);
    Tensor2D::linear_optimized(input, weights, bias, &mut out).unwrap();
    results.push(out.data().clone());
    results
}

#[test]
fn new_fills_every_entry() {
    let t = Tensor2D::new(42, 3, 5);
    assert_eq!(t.rows(), 3);
    assert_eq!(t.cols(), 5);
    assert_eq!(t.data(), &vec![42i64; 15]);
    let empty = Tensor2D::new(42, 0, 5);
    assert_eq!(empty.data().len(), 0);
}

#[test]
fn from_vec_wants_one_entry_per_cell() {
    assert!(Tensor2D::from_vec(2, 3, vec![1, 2, 3, 4, 5, 6]).is_some());
    assert!(Tensor2D::from_vec(2, 3, vec![1, 2, 3, 4, 5]).is_none());
    assert!(Tensor2D::from_vec(usize::MAX, 2, vec![1, 2]).is_none());
}

#[test]
fn get_is_row_major() {
    let t = Tensor2D::from_vec(2, 3, vec![1, 2, 3, 4, 5, 6]).unwrap();
    assert_eq!(t.get(0, 0), Some(1));
    assert_eq!(t.get(0, 2), Some(3));
    assert_eq!(t.get(1, 0), Some(4));
    assert_eq!(t.get(1, 2), Some(6));
    assert_eq!(t.get(2, 0), None);
    assert_eq!(t.get(0, 3), None);
}

#[test]
fn clone_copies_shape_and_entries() {
    let t = pattern(3, 4, 1);
    let mut a = t.clone();
    assert_eq!((a.rows(), a.cols()), (3, 4));
    assert_eq!(a.data(), t.data());
    a.relu_inplace();
    assert_ne!(a.data(), t.data());
}

#[test]
fn sum_adds_all_entries_and_saturates() {
    let t = Tensor2D::from_vec(2, 2, vec![1, -2, 3, 40]).unwrap();
    assert_eq!(t.sum(), 42);
    assert_eq!(Tensor2D::new(5, 0, 0).sum(), 0);
    let big = Tensor2D::from_vec(1, 3, vec![i64::MAX, i64::MAX, -1]).unwrap();
    assert_eq!(big.sum(), i64::MAX - 1);
}

#[test]
fn linear_of_constant_operands_is_one_point_six() {
    let input = Tensor2D::new(500_000_000_000, 4, 3);
    let weights = Tensor2D::new(1_000_000_000_000, 3, 4);
    let bias = Tensor2D::new(100_000_000_000, 4, 4);
    let output = Tensor2D::linear(&input, &weights, &bias).unwrap();
    assert_eq!(output.rows(), 4);
    assert_eq!(output.cols(), 4);
    assert_eq!(output.data(), &vec![1_600_000_000_000i64; 16]);
    assert_eq!(output.sum(), 25_600_000_000_000);
}

#[test]
fn every_linear_strategy_returns_one_point_six() {
    let input = Tensor2D::new(500_000_000_000, 4, 3);
    let weights = Tensor2D::new(1_000_000_000_000, 3, 4);
    let bias = Tensor2D::new(100_000_000_000, 4, 4);
    for result in all_linear(&input, &weights, &bias) {
        assert_eq!(result, vec![1_600_000_000_000i64; 16]);
    }
}

#[test]
fn linear_multiplies_rows_by_columns() {
    // [1 2; 3 4] x [5 6; 7 8] + [0.5 0.5; 0.5 0.5]
    let input = Tensor2D::from_vec(2, 2, vec![ONE, 2 * ONE, 3 * ONE, 4 * ONE]).unwrap();
    let weights = Tensor2D::from_vec(2, 2, vec![5 * ONE, 6 * ONE, 7 * ONE, 8 * ONE]).unwrap();
    let bias = Tensor2D::new(500_000_000_000, 2, 2);
    let output = Tensor2D::linear(&input, &weights, &bias).unwrap();
    assert_eq!(output.data(), &vec![19_500_000_000_000, 22_500_000_000_000, 43_500_000_000_000, 50_500_000_000_000]);
}

#[test]
fn linear_strategies_agree_on_all_shapes() {
    let mut seed = 11;
    for rows in 0..5usize {
        for inner in 0..5usize {
            for cols in 0..5usize {
                seed += 1;
                let input = pattern(rows, inner, seed);
                let weights = pattern(inner, cols, seed + 1000);
                let bias = pattern(rows, cols, seed + 2000);
                let results = all_linear(&input, &weights, &bias);
                for result in &results {
                    assert_eq!(result.len(), rows * cols);
                    assert_eq!(result, &results[0]);
                }
            }
        }
    }
}

#[test]
fn linear_saturates_instead_of_wrapping() {
    let input = Tensor2D::new(i64::MAX, 1, 2);
    let weights = Tensor2D::new(i64::MAX, 2, 1);
    let bias = Tensor2D::new(i64::MAX, 1, 1);
    for result in all_linear(&input, &weights, &bias) {
        assert_eq!(result, vec![i64::MAX]);
    }
    let negative = Tensor2D::new(i64::MIN, 2, 1);
    for result in all_linear(&input, &negative, &Tensor2D::new(0, 1, 1)) {
        assert_eq!(result, vec![i64::MIN]);
    }
}

#[test]
fn linear_refuses_inner_dimension_mismatch() {
    let input = Tensor2D::new(1, 4, 3);
    let weights = Tensor2D::new(1, 2, 4);
    let bias = Tensor2D::new(1, 4, 4);
    assert_eq!(Tensor2D::linear(&input, &weights, &bias).err(), Some(ShapeError::InnerDimension));
    let mut out = Tensor2D::new(5, 4, 4);
    assert_eq!(
        Tensor2D::linear_preallocated(&input, &weights, &bias, &mut out),
        Err(ShapeError::InnerDimension)
    );
    assert_eq!(out.data(), &vec![5i64; 16]);
}

#[test]
fn linear_refuses_bias_of_wrong_shape() {
    let input = Tensor2D::new(1, 4, 3);
    let weights = Tensor2D::new(1, 3, 4);
    let bias = Tensor2D::new(1, 1, 4);
    assert_eq!(Tensor2D::linear(&input, &weights, &bias).err(), Some(ShapeError::Bias));
    let mut out = Tensor2D::new(5, 4, 4);
    assert_eq!(Tensor2D::linear_optimized(&input, &weights, &bias, &mut out), Err(ShapeError::Bias));
    assert_eq!(
        Tensor2D::linear_local_accumulation(&input, &weights, &bias, &mut out),
        Err(ShapeError::Bias)
    );
    assert_eq!(out.data(), &vec![5i64; 16]);
}

#[test]
fn preallocated_strategies_refuse_output_of_wrong_shape() {
    let input = Tensor2D::new(1, 4, 3);
    let weights = Tensor2D::new(1, 3, 4);
    let bias = Tensor2D::new(1, 4, 4);
    let mut out = Tensor2D::new(5, 4, 3);
    assert_eq!(Tensor2D::linear_preallocated(&input, &weights, &bias, &mut out), Err(ShapeError::Output));
    assert_eq!(
        Tensor2D::linear_preallocated_inline(&input, &weights, &bias, &mut out),
        Err(ShapeError::Output)
    );
    assert_eq!(
        Tensor2D::linear_local_accumulation(&input, &weights, &bias, &mut out),
        Err(ShapeError::Output)
    );
    assert_eq!(Tensor2D::linear_optimized(&input, &weights, &bias, &mut out), Err(ShapeError::Output));
    assert_eq!(
        Tensor2D::linear_local_accumulation_relu(&input, &weights, &bias, &mut out),
        Err(ShapeError::Output)
    );
    assert_eq!(Tensor2D::linear_optimized_relu(&input, &weights, &bias, &mut out), Err(ShapeError::Output));
    assert_eq!(
        Tensor2D::linear_relu_softmax_fused(&input, &weights, &bias, &mut out),
        Err(ShapeError::Output)
    );
    assert_eq!(
        Tensor2D::linear_relu_softmax_fused_fission(&input, &weights, &bias, &mut out),
        Err(ShapeError::Output)
    );
    assert_eq!(out.rows(), 4);
    assert_eq!(out.cols(), 3);
    assert_eq!(out.data(), &vec![5i64; 12]);
}

#[test]
fn relu_of_negative_input_is_zero() {
    let input = Tensor2D::new(-500_000_000_000, 4, 3);
    let output = Tensor2D::relu(&input);
    assert_eq!(output.rows(), 4);
    assert_eq!(output.cols(), 3);
    assert_eq!(output.data(), &vec![0i64; 12]);
    assert_eq!(input.data(), &vec![-500_000_000_000i64; 12]);
}

#[test]
fn relu_keeps_what_is_not_negative() {
    let input = Tensor2D::from_vec(1, 5, vec![i64::MIN, -1, 0, 1, i64::MAX]).unwrap();
    assert_eq!(Tensor2D::relu(&input).data(), &vec![0, 0, 0, 1, i64::MAX]);
}

#[test]
fn relu_variants_agree_and_keep_the_shape() {
    for seed in 0..20u64 {
        let rows = (seed % 4) as usize;
        let cols = (seed % 5) as usize;
        let input = pattern(rows, cols, seed);
        let expected = Tensor2D::relu(&input);
        let mut out = Tensor2D::new(3, rows, cols);
        Tensor2D::relu_preallocated(&input, &mut out).unwrap();
        assert_eq!(out.data(), expected.data());
        let mut a = input.clone();
        a.relu_inplace();
        assert_eq!((a.rows(), a.cols()), (rows, cols));
        assert_eq!(a.data(), expected.data());
        let mut b = input.clone();
        b.relu_inplace_inline();
        assert_eq!((b.rows(), b.cols()), (rows, cols));
        assert_eq!(b.data(), expected.data());
    }
}

#[test]
fn relu_preallocated_refuses_other_shape() {
    let input = Tensor2D::new(-1, 2, 3);
    let mut out = Tensor2D::new(9, 3, 2);
    assert_eq!(Tensor2D::relu_preallocated(&input, &mut out), Err(ShapeError::Output));
    assert_eq!(out.data(), &vec![9i64; 6]);
}

#[test]
fn softmax_of_equal_entries_is_uniform() {
    let input = Tensor2D::new(-500_000_000_000, 4, 3);
    let output = Tensor2D::softmax(&input);
    assert_eq!(output.data(), &vec![333_333_333_333i64; 12]);
    assert_eq!(output.sum(), 4 * ONE - 4);
    let four = Tensor2D::softmax(&Tensor2D::new(7, 2, 4));
    assert_eq!(four.data(), &vec![250_000_000_000i64; 8]);
}

#[test]
fn softmax_of_zero_one_two() {
    let input = Tensor2D::from_vec(1, 3, vec![0, ONE, 2 * ONE]).unwrap();
    assert_eq!(
        Tensor2D::softmax(&input).data(),
        &vec![90_030_572_343, 244_728_470_234, 665_240_957_422]
    );
}

#[test]
fn softmax_is_taken_row_by_row() {
    let input = Tensor2D::from_vec(2, 3, vec![0, ONE, 2 * ONE, 5, 5, 5]).unwrap();
    assert_eq!(
        Tensor2D::softmax(&input).data(),
        &vec![
            90_030_572_343,
            244_728_470_234,
            665_240_957_422,
            333_333_333_333,
            333_333_333_333,
            333_333_333_333
        ]
    );
}

#[test]
fn softmax_gives_equal_entries_equal_shares() {
    let input = Tensor2D::from_vec(1, 4, vec![3 * ONE, ONE, -2 * ONE, 3 * ONE]).unwrap();
    assert_eq!(
        Tensor2D::softmax(&input).data(),
        &vec![466_837_448_278, 63_179_577_551, 3_145_525_891, 466_837_448_278]
    );
    let tiny = Tensor2D::from_vec(1, 6, vec![1, 2, 3, 4, 5, 6]).unwrap();
    assert_eq!(Tensor2D::softmax(&tiny).data(), &vec![166_666_666_666i64; 6]);
}

#[test]
fn softmax_keeps_the_order_of_close_entries() {
    let input = Tensor2D::from_vec(1, 3, vec![-900_001_000_000, -900_000_000_000, 0]).unwrap();
    assert_eq!(
        Tensor2D::softmax(&input).data(),
        &vec![224_235_027_283, 224_235_251_513, 551_529_721_202]
    );
}

#[test]
fn softmax_keeps_the_order_on_patterns() {
    for seed in 0..60u64 {
        let cols = 2 + (seed % 9) as usize;
        let input = pattern(1, cols, seed + 900);
        let output = Tensor2D::softmax(&input);
        for p in 0..cols {
            for q in 0..cols {
                if input.data()[p] <= input.data()[q] {
                    assert!(output.data()[p] <= output.data()[q]);
                }
            }
        }
    }
}

#[test]
fn softmax_does_not_see_a_shift() {
    for seed in 0..30u64 {
        let rows = 1 + (seed % 3) as usize;
        let cols = 1 + (seed % 5) as usize;
        let input = pattern(rows, cols, seed + 1300);
        let shifts = pattern(rows, 1, seed + 1400);
        let mut shifted = Vec::new();
        for r in 0..rows {
            for c in 0..cols {
                shifted.push(input.get(r, c).unwrap() + 1000 * shifts.data()[r]);
            }
        }
        let shifted = Tensor2D::from_vec(rows, cols, shifted).unwrap();
        assert_eq!(Tensor2D::softmax(&shifted).data(), Tensor2D::softmax(&input).data());
    }
}

#[test]
fn softmax_rows_sum_to_one_for_large_magnitudes() {
    let input = Tensor2D::from_vec(
        3,
        3,
        vec![i64::MAX, i64::MIN, 0, i64::MAX, i64::MAX - ONE, i64::MIN, i64::MIN, i64::MIN, i64::MIN],
    )
    .unwrap();
    let output = Tensor2D::softmax(&input);
    assert_eq!(
        output.data(),
        &vec![
            ONE,
            0,
            0,
            731_058_579_776,
            268_941_420_223,
            0,
            333_333_333_333,
            333_333_333_333,
            333_333_333_333
        ]
    );
    for r in 0..3 {
        let row: i64 = (0..3).map(|c| output.get(r, c).unwrap()).sum();
        assert!(ONE - 3 <= row && row <= ONE);
    }
}

#[test]
fn softmax_rows_sum_to_one_on_patterns() {
    for seed in 0..40u64 {
        let rows = 1 + (seed % 4) as usize;
        let cols = 1 + (seed % 7) as usize;
        let output = Tensor2D::softmax(&pattern(rows, cols, seed));
        for r in 0..rows {
            let mut sum = 0i64;
            for c in 0..cols {
                let v = output.get(r, c).unwrap();
                assert!(0 <= v && v <= ONE);
                sum += v;
            }
            assert!(ONE - cols as i64 <= sum && sum <= ONE);
            assert!(((sum - ONE) as f64 / 1e12).abs() <= 1e-6);
        }
    }
}

#[test]
fn softmax_of_a_wide_row_sums_to_one_within_tolerance() {
    let cols = 100_003usize;
    let data: Vec<i64> = (0..cols as i64).map(|i| (i % 7) * 300_000_000_000).collect();
    let output = Tensor2D::softmax(&Tensor2D::from_vec(1, cols, data).unwrap());
    let sum: i64 = output.data().iter().sum();
    assert!(ONE - cols as i64 <= sum && sum <= ONE);
    assert!(((sum - ONE) as f64 / 1e12).abs() <= 1e-6);
}

#[test]
fn softmax_of_no_columns_is_empty() {
    let input = Tensor2D::new(1, 3, 0);
    let output = Tensor2D::softmax(&input);
    assert_eq!((output.rows(), output.cols()), (3, 0));
    assert_eq!(output.data().len(), 0);
}

#[test]
fn softmax_variants_agree_and_keep_the_shape() {
    for seed in 0..20u64 {
        let rows = (seed % 4) as usize;
        let cols = (seed % 5) as usize;
        let input = pattern(rows, cols, seed + 77);
        let expected = Tensor2D::softmax(&input);
        let mut out = Tensor2D::new(3, rows, cols);
        Tensor2D::softmax_preallocated(&input, &mut out).unwrap();
        assert_eq!(out.data(), expected.data());
        let mut a = input.clone();
        a.softmax_inplace();
        assert_eq!((a.rows(), a.cols()), (rows, cols));
        assert_eq!(a.data(), expected.data());
        let mut b = input.clone();
        b.softmax_inplace_inline();
        assert_eq!((b.rows(), b.cols()), (rows, cols));
        assert_eq!(b.data(), expected.data());
    }
}

#[test]
fn softmax_preallocated_refuses_other_shape() {
    let input = Tensor2D::new(-1, 2, 3);
    let mut out = Tensor2D::new(9, 2, 2);
    assert_eq!(Tensor2D::softmax_preallocated(&input, &mut out), Err(ShapeError::Output));
    assert_eq!(out.data(), &vec![9i64; 4]);
}

#[test]
fn fused_kernels_equal_the_kernels_in_sequence() {
    let mut seed = 500;
    for rows in 0..4usize {
        for inner in 0..4usize {
            for cols in 0..4usize {
                seed += 3;
                let input = pattern(rows, inner, seed);
                let weights = pattern(inner, cols, seed + 1);
                let bias = pattern(rows, cols, seed + 2);
                let summed = Tensor2D::linear(&input, &weights, &bias).unwrap();
                let rectified = Tensor2D::relu(&summed);
                let normalized = Tensor2D::softmax(&rectified);

                let mut out = Tensor2D::new(1, rows, cols);
                Tensor2D::linear_local_accumulation_relu(&input, &weights, &bias, &mut out).unwrap();
                assert_eq!(out.data(), rectified.data());
                let mut out = Tensor2D::new(2, rows, cols);
                Tensor2D::linear_optimized_relu(&input, &weights, &bias, &mut out).unwrap();
                assert_eq!(out.data(), rectified.data());
                let mut out = Tensor2D::new(3, rows, cols);
                Tensor2D::linear_relu_softmax_fused(&input, &weights, &bias, &mut out).unwrap();
                assert_eq!(out.data(), normalized.data());
                let mut out = Tensor2D::new(4, rows, cols);
                Tensor2D::linear_relu_softmax_fused_fission(&input, &weights, &bias, &mut out).unwrap();
                assert_eq!(out.data(), normalized.data());
            }
        }
    }
}

#[test]
fn fused_pipeline_of_constant_operands_is_uniform() {
    let input = Tensor2D::new(500_000_000_000, 4, 3);
    let weights = Tensor2D::new(1_000_000_000_000, 3, 4);
    let bias = Tensor2D::new(100_000_000_000, 4, 4);
    let mut output = Tensor2D::new(100_000_000_000, 4, 4);
    Tensor2D::linear_relu_softmax_fused(&input, &weights, &bias, &mut output).unwrap();
    assert_eq!(output.data(), &vec![250_000_000_000i64; 16]);
    assert_eq!(output.sum(), 4 * ONE);
}

fn from_floats(rows: usize, cols: usize, values: &[f64]) -> Tensor2D {
    let data = values.iter().map(|x| (x * 1e12).round() as i64).collect();
    Tensor2D::from_vec(rows, cols, data).unwrap()
}

fn to_floats(tensor: &Tensor2D) -> Vec<f64> {
    tensor.data().iter().map(|x| *x as f64 / 1e12).collect()
}

fn floats(count: usize, seed: u64) -> Vec<f64> {
    pattern(1, count, seed).data().iter().map(|x| *x as f64 / 1e12).collect()
}

#[test]
fn scenarios_read_in_floating_point() {
    let input = from_floats(4, 3, &[0.5; 12]);
    let weights = from_floats(3, 4, &[1.0; 12]);
    let bias = from_floats(4, 4, &[0.1; 16]);
    for result in all_linear(&input, &weights, &bias) {
        for value in result {
            assert_eq!((value as f64 / 1e12) as f32, 1.6f32);
        }
    }
    let negative = from_floats(4, 3, &[-0.5; 12]);
    assert_eq!(to_floats(&Tensor2D::relu(&negative)), vec![0.0; 12]);
}

#[test]
fn linear_follows_floating_point_within_tolerance() {
    for seed in 0..30u64 {
        let rows = 1 + (seed % 3) as usize;
        let inner = 1 + (seed % 5) as usize;
        let cols = 1 + (seed % 4) as usize;
        let a = floats(rows * inner, seed);
        let w = floats(inner * cols, seed + 100);
        let b = floats(rows * cols, seed + 200);
        let output = Tensor2D::linear(
            &from_floats(rows, inner, &a),
            &from_floats(inner, cols, &w),
            &from_floats(rows, cols, &b),
        )
        .unwrap();
        let got = to_floats(&output);
        for r in 0..rows {
            for c in 0..cols {
                let mut exact = b[r * cols + c];
                for k in 0..inner {
                    exact += a[r * inner + k] * w[k * cols + c];
                }
                assert!((got[r * cols + c] - exact).abs() <= 1e-5);
            }
        }
    }
}

#[test]
fn softmax_follows_floating_point_within_tolerance() {
    for seed in 0..30u64 {
        let rows = 1 + (seed % 3) as usize;
        let cols = 1 + (seed % 4) as usize;
        let x = floats(rows * cols, seed + 300);
        let got = to_floats(&Tensor2D::softmax(&from_floats(rows, cols, &x)));
        for r in 0..rows {
            let row = &x[r * cols..(r + 1) * cols];
            let max = row.iter().cloned().fold(f64::NEG_INFINITY, f64::max);
            let sum: f64 = row.iter().map(|v| (v - max).exp()).sum();
            let mut total = 0.0;
            for c in 0..cols {
                let exact = (row[c] - max).exp() / sum;
                assert!((got[r * cols + c] - exact).abs() <= 1e-5);
                total += got[r * cols + c];
            }
            assert!((total - 1.0).abs() <= 1e-6);
        }
    }
}

#[test]
fn refusals_say_what_went_wrong() {
    assert_eq!(ShapeError::InnerDimension.message(), "the input's columns do not match the weights' rows");
    assert_eq!(ShapeError::Bias.message(), "the bias is not shaped like the product of input and weights");
    assert_eq!(ShapeError::Output.message(), "the output buffer is not shaped like the result");
}
