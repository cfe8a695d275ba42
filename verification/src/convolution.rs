//! One-dimensional convolution on the host, with zeros beyond both ends of
//! the signal: the ground truth a device convolution is judged against.

use crate::shared::comparison::{are_vectors_equivalent, close, mean_square_error, squared_errors, EPSILON};
use crate::shared::fixed::{add_fixed, mul_fixed, sat_add, sat_mul};
use crate::shared::sums::total;
use vstd::prelude::*;

verus! {

/// The contribution of filter tap `f` to output position `i`: the product of
/// the tap and the signal entry it lies over, or zero where it lies beyond the signal.
pub open spec fn tap(signal: Seq<i64>, filter: Seq<i64>, i: int, f: int) -> i64 {
    let position = i - filter.len() / 2 + f;
    if 0 <= position < signal.len() {
        sat_mul(signal[position], filter[f])
    } else {
        0
    }
}

/// The first `n` taps of output position `i`, added up in the order of the taps.
pub open spec fn taps_prefix(signal: Seq<i64>, filter: Seq<i64>, i: int, n: nat) -> i64
    decreases n,
{
    if n == 0 {
        0
    } else {
        sat_add(taps_prefix(signal, filter, i, (n - 1) as nat), tap(signal, filter, i, n - 1))
    }
}

/// The signal convolved with the filter, the filter centred on each position.
pub open spec fn convolution_spec(signal: Seq<i64>, filter: Seq<i64>) -> Seq<i64> {
    Seq::new(signal.len(), |i: int| taps_prefix(signal, filter, i, filter.len()))
}

/// Convolves `signal` with `filter`, whose length is meant to be odd, treating
/// the signal as zero beyond its ends.
pub fn convolution_cpu(signal: &Vec<i64>, filter: &Vec<i64>) -> (output: Vec<i64>)
    ensures
        output@ == convolution_spec(signal@, filter@),
{
    let filter_offset: usize = filter.len() / 2;
    let n: usize = signal.len();
    let taps: usize = filter.len();
    let mut output: Vec<i64> = Vec::with_capacity(n);
    let mut signal_index: usize = 0;
    while signal_index < n
        invariant
            signal_index <= n,
            n == signal@.len(),
            taps == filter@.len(),
            filter_offset == taps / 2,
            output@.len() == signal_index,
            forall|i: int|
                0 <= i < signal_index ==> output@[i] == taps_prefix(signal@, filter@, i, filter@.len()),
        decreases n - signal_index,
    {
        let mut acc: i64 = 0;
        let mut filter_index: usize = 0;
        while filter_index < taps
            invariant
                filter_index <= taps,
                signal_index < n,
                n == signal@.len(),
                taps == filter@.len(),
                filter_offset == taps / 2,
                acc == taps_prefix(signal@, filter@, signal_index as int, filter_index as nat),
            decreases taps - filter_index,
        {
            let reach: u128 = signal_index as u128 + filter_index as u128;
            if reach >= filter_offset as u128 && reach - (filter_offset as u128) < n as u128 {
                let position: usize = (reach - filter_offset as u128) as usize;
                acc = add_fixed(acc, mul_fixed(signal[position], filter[filter_index]));
            } else {
                acc = add_fixed(acc, 0);
            }
            filter_index += 1;
        }
        output.push(acc);
        signal_index += 1;
    }
    assert(output@ =~= convolution_spec(signal@, filter@));
    output
}

/// Convolves five ones with the filter 0.25, 0.5, -0.25 and says whether the
/// result is 0.25, 0.5, 0.5, 0.5, 0.75 within the comparison tolerance.
pub fn test_ground_truth() -> (r: bool)
    ensures
        r,
        r == close(
            convolution_spec(
                seq![1_000_000_000_000i64, 1_000_000_000_000, 1_000_000_000_000, 1_000_000_000_000, 1_000_000_000_000],
                seq![250_000_000_000i64, 500_000_000_000, (-250_000_000_000) as i64],
            ),
            seq![250_000_000_000i64, 500_000_000_000, 500_000_000_000, 500_000_000_000, 750_000_000_000],
            EPSILON as int,
        ),
{
    let mut signal: Vec<i64> = Vec::new();
    signal.push(1_000_000_000_000);
    signal.push(1_000_000_000_000);
    signal.push(1_000_000_000_000);
    signal.push(1_000_000_000_000);
    signal.push(1_000_000_000_000);
    let mut filter: Vec<i64> = Vec::new();
    filter.push(250_000_000_000);
    filter.push(500_000_000_000);
    filter.push(-250_000_000_000);
    let mut ground_truth_output: Vec<i64> = Vec::new();
    ground_truth_output.push(250_000_000_000);
    ground_truth_output.push(500_000_000_000);
    ground_truth_output.push(500_000_000_000);
    ground_truth_output.push(500_000_000_000);
    ground_truth_output.push(750_000_000_000);
    let output: Vec<i64> = convolution_cpu(&signal, &filter);
    assert(signal@ =~= seq![1_000_000_000_000i64, 1_000_000_000_000, 1_000_000_000_000, 1_000_000_000_000, 1_000_000_000_000]);
    assert(filter@ =~= seq![250_000_000_000i64, 500_000_000_000, (-250_000_000_000) as i64]);
    assert(ground_truth_output@ =~= seq![250_000_000_000i64, 500_000_000_000, 500_000_000_000, 500_000_000_000, 750_000_000_000]);
    proof {
        reveal_with_fuel(taps_prefix, 4);
        assert(sat_mul(1_000_000_000_000, 250_000_000_000) == 250_000_000_000);
        assert(sat_mul(1_000_000_000_000, 500_000_000_000) == 500_000_000_000);
        assert(sat_mul(1_000_000_000_000, (-250_000_000_000) as i64) == -250_000_000_000);
        assert(output@[0] == 250_000_000_000);
        assert(output@[1] == 500_000_000_000);
        assert(output@[2] == 500_000_000_000);
        assert(output@[3] == 500_000_000_000);
        assert(output@[4] == 750_000_000_000);
    }
    are_vectors_equivalent(&output, &ground_truth_output)
}

/// How a device's convolution compares with the ground truth.
#[derive(Debug, Clone, Copy, PartialEq, Eq, Structural)]
pub struct Verdict {
    /// The mean squared error; absent if the lengths differ or both are empty.
    pub mean_square_error: Option<i64>,
    /// Whether the two agree element by element within the tolerance.
    pub success: bool,
}

/// Compares a candidate's output with the ground truth.
pub fn judge(ground_truth: &Vec<i64>, candidate: &Vec<i64>) -> (verdict: Verdict)
    ensures
        verdict.success == close(ground_truth@, candidate@, EPSILON as int),
        verdict.mean_square_error.is_some() <==> ground_truth@.len() == candidate@.len() && candidate@.len() > 0,
        verdict.mean_square_error.is_some() ==> verdict.mean_square_error.unwrap() == total(
            squared_errors(ground_truth@, candidate@),
        ) / (ground_truth@.len() as int),
{
    Verdict {
        mean_square_error: mean_square_error(ground_truth, candidate),
        success: are_vectors_equivalent(ground_truth, candidate),
    }
}

} // verus!
