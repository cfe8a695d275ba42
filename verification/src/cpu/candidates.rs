//! Every host kernel strategy behind one call signature, so that a benchmark
//! can exchange one for another.
//!
//! A candidate takes an input it may overwrite, weights, a bias and an output
//! buffer, and uses of them what its kernel needs.

use crate::shared::fused::{linear_relu_softmax_spec, linear_relu_spec};
use crate::shared::linear::{linear_error, linear_spec, operand_error};
use crate::shared::relu::relu_spec;
use crate::shared::softmax::softmax_spec;
use crate::shared::tensor2d::{Matrix, ShapeError, Tensor2D};
use vstd::prelude::*;

verus! {

/// The result a kernel owes: the refusal, if there is one, and success otherwise.
pub open spec fn answers(refusal: Option<ShapeError>, res: Result<(), ShapeError>) -> bool {
    match refusal {
        Some(e) => res == Err::<(), ShapeError>(e),
        None => res.is_ok(),
    }
}

/// The reason an element-wise kernel cannot write into `output`, if any.
pub open spec fn buffer_error(input: Matrix, output: Matrix) -> Option<ShapeError> {
    if output.same_shape(input) {
        None
    } else {
        Some(ShapeError::Output)
    }
}

/// Linear layer into a fresh tensor that is dropped; no operand changes.
pub fn naive_linear_benchmark(
    input: &mut Tensor2D,
    weights: &Tensor2D,
    bias: &Tensor2D,
    _output: &mut Tensor2D,
) -> (res: Result<(), ShapeError>)
    ensures
        answers(operand_error(old(input)@, weights@, bias@), res),
        final(input)@ == old(input)@,
        final(_output)@ == old(_output)@,
{
    match Tensor2D::linear(input, weights, bias) {
        Ok(_) => Ok(()),
        Err(e) => Err(e),
    }
}

/// Linear layer into `output`, the running sum kept in the buffer.
pub fn preallocated_linear_benchmark(
    input: &mut Tensor2D,
    weights: &Tensor2D,
    bias: &Tensor2D,
    output: &mut Tensor2D,
) -> (res: Result<(), ShapeError>)
    ensures
        answers(linear_error(old(input)@, weights@, bias@, old(output)@), res),
        final(input)@ == old(input)@,
        res.is_ok() ==> final(output)@ == linear_spec(old(input)@, weights@, bias@),
        res.is_err() ==> final(output)@ == old(output)@,
{
    Tensor2D::linear_preallocated(input, weights, bias, output)
}

/// Linear layer into `output`, the running sum kept in the buffer, offsets inlined.
pub fn inline_linear_benchmark(
    input: &mut Tensor2D,
    weights: &Tensor2D,
    bias: &Tensor2D,
    output: &mut Tensor2D,
) -> (res: Result<(), ShapeError>)
    ensures
        answers(linear_error(old(input)@, weights@, bias@, old(output)@), res),
        final(input)@ == old(input)@,
        res.is_ok() ==> final(output)@ == linear_spec(old(input)@, weights@, bias@),
        res.is_err() ==> final(output)@ == old(output)@,
{
    Tensor2D::linear_preallocated_inline(input, weights, bias, output)
}

/// Linear layer into `output`, the running sum kept in a local scalar.
pub fn local_accumulation_linear_benchmark(
    input: &mut Tensor2D,
    weights: &Tensor2D,
    bias: &Tensor2D,
    output: &mut Tensor2D,
) -> (res: Result<(), ShapeError>)
    ensures
        answers(linear_error(old(input)@, weights@, bias@, old(output)@), res),
        final(input)@ == old(input)@,
        res.is_ok() ==> final(output)@ == linear_spec(old(input)@, weights@, bias@),
        res.is_err() ==> final(output)@ == old(output)@,
{
    Tensor2D::linear_local_accumulation(input, weights, bias, output)
}

/// Linear layer into `output`, local running sum and offsets that advance by addition.
pub fn optimized_linear_benchmark(
    input: &mut Tensor2D,
    weights: &Tensor2D,
    bias: &Tensor2D,
    output: &mut Tensor2D,
) -> (res: Result<(), ShapeError>)
    ensures
        answers(linear_error(old(input)@, weights@, bias@, old(output)@), res),
        final(input)@ == old(input)@,
        res.is_ok() ==> final(output)@ == linear_spec(old(input)@, weights@, bias@),
        res.is_err() ==> final(output)@ == old(output)@,
{
    Tensor2D::linear_optimized(input, weights, bias, output)
}

/// Rectification into a fresh tensor that is dropped; no operand changes.
pub fn relu_naive_benchmark(
    input: &mut Tensor2D,
    _weights: &Tensor2D,
    _bias: &Tensor2D,
    _output: &mut Tensor2D,
) -> (res: Result<(), ShapeError>)
    ensures
        res.is_ok(),
        final(input)@ == old(input)@,
        final(_output)@ == old(_output)@,
{
    let _dropped = Tensor2D::relu(input);
    Ok(())
}

/// Rectification of `input` into `output`.
pub fn relu_preallocated_benchmark(
    input: &mut Tensor2D,
    _weights: &Tensor2D,
    _bias: &Tensor2D,
    output: &mut Tensor2D,
) -> (res: Result<(), ShapeError>)
    ensures
        answers(buffer_error(old(input)@, old(output)@), res),
        final(input)@ == old(input)@,
        res.is_ok() ==> final(output)@ == relu_spec(old(input)@),
        res.is_err() ==> final(output)@ == old(output)@,
{
    Tensor2D::relu_preallocated(input, output)
}

/// Rectification of `input` in place.
pub fn relu_inplace_benchmark(
    input: &mut Tensor2D,
    _weights: &Tensor2D,
    _bias: &Tensor2D,
    _output: &mut Tensor2D,
) -> (res: Result<(), ShapeError>)
    ensures
        res.is_ok(),
        final(input)@ == relu_spec(old(input)@),
        final(_output)@ == old(_output)@,
{
    input.relu_inplace();
    Ok(())
}

/// Rectification of `input` in place, comparison inlined.
pub fn relu_inplace_inline_benchmark(
    input: &mut Tensor2D,
    _weights: &Tensor2D,
    _bias: &Tensor2D,
    _output: &mut Tensor2D,
) -> (res: Result<(), ShapeError>)
    ensures
        res.is_ok(),
        final(input)@ == relu_spec(old(input)@),
        final(_output)@ == old(_output)@,
{
    input.relu_inplace_inline();
    Ok(())
}

/// Normalization into a fresh tensor that is dropped; no operand changes.
pub fn softmax_naive_benchmark(
    input: &mut Tensor2D,
    _weights: &Tensor2D,
    _bias: &Tensor2D,
    _output: &mut Tensor2D,
) -> (res: Result<(), ShapeError>)
    ensures
        res.is_ok(),
        final(input)@ == old(input)@,
        final(_output)@ == old(_output)@,
{
    let _dropped = Tensor2D::softmax(input);
    Ok(())
}

/// Normalization of `input` into `output`.
pub fn softmax_preallocated_benchmark(
    input: &mut Tensor2D,
    _weights: &Tensor2D,
    _bias: &Tensor2D,
    output: &mut Tensor2D,
) -> (res: Result<(), ShapeError>)
    ensures
        answers(buffer_error(old(input)@, old(output)@), res),
        final(input)@ == old(input)@,
        res.is_ok() ==> final(output)@ == softmax_spec(old(input)@),
        res.is_err() ==> final(output)@ == old(output)@,
{
    Tensor2D::softmax_preallocated(input, output)
}

/// Normalization of `input` in place.
pub fn softmax_inplace_benchmark(
    input: &mut Tensor2D,
    _weights: &Tensor2D,
    _bias: &Tensor2D,
    _output: &mut Tensor2D,
) -> (res: Result<(), ShapeError>)
    ensures
        res.is_ok(),
        final(input)@ == softmax_spec(old(input)@),
        final(_output)@ == old(_output)@,
{
    input.softmax_inplace();
    Ok(())
}

/// Normalization of `input` in place, all passes inlined.
pub fn softmax_inplace_inline_benchmark(
    input: &mut Tensor2D,
    _weights: &Tensor2D,
    _bias: &Tensor2D,
    _output: &mut Tensor2D,
) -> (res: Result<(), ShapeError>)
    ensures
        res.is_ok(),
        final(input)@ == softmax_spec(old(input)@),
        final(_output)@ == old(_output)@,
{
    input.softmax_inplace_inline();
    Ok(())
}

/// The whole pipeline through three fresh tensors that are dropped; no operand changes.
pub fn linear_relu_softmax_naive_benchmark(
    input: &mut Tensor2D,
    weights: &Tensor2D,
    bias: &Tensor2D,
    _output: &mut Tensor2D,
) -> (res: Result<(), ShapeError>)
    ensures
        answers(operand_error(old(input)@, weights@, bias@), res),
        final(input)@ == old(input)@,
        final(_output)@ == old(_output)@,
{
    match Tensor2D::linear(input, weights, bias) {
        Ok(output_linear) => {
            let output_relu = Tensor2D::relu(&output_linear);
            let _output_softmax = Tensor2D::softmax(&output_relu);
            Ok(())
        },
        Err(e) => Err(e),
    }
}

/// The whole pipeline as three passes over `output`: the linear layer with a
/// local running sum, then rectification and normalization in place.
pub fn linear_relu_softmax_local_accumulation_benchmark(
    input: &mut Tensor2D,
    weights: &Tensor2D,
    bias: &Tensor2D,
    output: &mut Tensor2D,
) -> (res: Result<(), ShapeError>)
    ensures
        answers(linear_error(old(input)@, weights@, bias@, old(output)@), res),
        final(input)@ == old(input)@,
        res.is_ok() ==> final(output)@ == linear_relu_softmax_spec(old(input)@, weights@, bias@),
        res.is_err() ==> final(output)@ == old(output)@,
{
    match Tensor2D::linear_local_accumulation(input, weights, bias, output) {
        Ok(()) => {
            output.relu_inplace_inline();
            output.softmax_inplace_inline();
            Ok(())
        },
        Err(e) => Err(e),
    }
}

/// The whole pipeline as three kernels with a tensor between each two.
pub fn linear_relu_softmax_fused_fission_benchmark(
    input: &mut Tensor2D,
    weights: &Tensor2D,
    bias: &Tensor2D,
    output: &mut Tensor2D,
) -> (res: Result<(), ShapeError>)
    ensures
        answers(linear_error(old(input)@, weights@, bias@, old(output)@), res),
        final(input)@ == old(input)@,
        res.is_ok() ==> final(output)@ == linear_relu_softmax_spec(old(input)@, weights@, bias@),
        res.is_err() ==> final(output)@ == old(output)@,
{
    Tensor2D::linear_relu_softmax_fused_fission(input, weights, bias, output)
}

/// The whole pipeline as one fused kernel.
pub fn linear_relu_softmax_fused_benchmark(
    input: &mut Tensor2D,
    weights: &Tensor2D,
    bias: &Tensor2D,
    output: &mut Tensor2D,
) -> (res: Result<(), ShapeError>)
    ensures
        answers(linear_error(old(input)@, weights@, bias@, old(output)@), res),
        final(input)@ == old(input)@,
        res.is_ok() ==> final(output)@ == linear_relu_softmax_spec(old(input)@, weights@, bias@),
        res.is_err() ==> final(output)@ == old(output)@,
{
    Tensor2D::linear_relu_softmax_fused(input, weights, bias, output)
}

/// Linear layer and rectification fused, local running sum.
pub fn linear_local_accumulation_relu_benchmark(
    input: &mut Tensor2D,
    weights: &Tensor2D,
    bias: &Tensor2D,
    output: &mut Tensor2D,
) -> (res: Result<(), ShapeError>)
    ensures
        answers(linear_error(old(input)@, weights@, bias@, old(output)@), res),
        final(input)@ == old(input)@,
        res.is_ok() ==> final(output)@ == linear_relu_spec(old(input)@, weights@, bias@),
        res.is_err() ==> final(output)@ == old(output)@,
{
    Tensor2D::linear_local_accumulation_relu(input, weights, bias, output)
}

/// Linear layer and rectification fused, offsets that advance by addition.
pub fn linear_optimized_relu_benchmark(
    input: &mut Tensor2D,
    weights: &Tensor2D,
    bias: &Tensor2D,
    output: &mut Tensor2D,
) -> (res: Result<(), ShapeError>)
    ensures
        answers(linear_error(old(input)@, weights@, bias@, old(output)@), res),
        final(input)@ == old(input)@,
        res.is_ok() ==> final(output)@ == linear_relu_spec(old(input)@, weights@, bias@),
        res.is_err() ==> final(output)@ == old(output)@,
{
    Tensor2D::linear_optimized_relu(input, weights, bias, output)
}

/// The table of host candidates: one entry per kernel strategy.
#[derive(Debug, Clone, Copy, PartialEq, Eq, Structural)]
pub enum CpuCandidate {
    NaiveLinear,
    PreallocatedLinear,
    InlineLinear,
    LocalAccumulationLinear,
    OptimizedLinear,
    ReluNaive,
    ReluPreallocated,
    ReluInplace,
    ReluInplaceInline,
    SoftmaxNaive,
    SoftmaxPreallocated,
    SoftmaxInplace,
    SoftmaxInplaceInline,
    LinearReluSoftmaxNaive,
    LinearReluSoftmaxLocalAccumulation,
    LinearReluSoftmaxFusedFission,
    LinearReluSoftmaxFused,
    LinearLocalAccumulationRelu,
    LinearOptimizedRelu,
}

/// What one execution of a candidate does: whether it refuses its operands,
/// and what the input and the output buffer hold afterwards.
pub ghost struct Effect {
    pub refusal: Option<ShapeError>,
    pub input: Matrix,
    pub output: Matrix,
}

impl CpuCandidate {
    /// The reason the candidate refuses these operands, if any.
    pub open spec fn refusal(self, input: Matrix, weights: Matrix, bias: Matrix, output: Matrix) -> Option<
        ShapeError,
    > {
        match self {
            CpuCandidate::NaiveLinear | CpuCandidate::LinearReluSoftmaxNaive => operand_error(
                input,
                weights,
                bias,
            ),
            CpuCandidate::PreallocatedLinear
            | CpuCandidate::InlineLinear
            | CpuCandidate::LocalAccumulationLinear
            | CpuCandidate::OptimizedLinear
            | CpuCandidate::LinearReluSoftmaxLocalAccumulation
            | CpuCandidate::LinearReluSoftmaxFusedFission
            | CpuCandidate::LinearReluSoftmaxFused
            | CpuCandidate::LinearLocalAccumulationRelu
            | CpuCandidate::LinearOptimizedRelu => linear_error(input, weights, bias, output),
            CpuCandidate::ReluPreallocated | CpuCandidate::SoftmaxPreallocated => buffer_error(input, output),
            CpuCandidate::ReluNaive
            | CpuCandidate::ReluInplace
            | CpuCandidate::ReluInplaceInline
            | CpuCandidate::SoftmaxNaive
            | CpuCandidate::SoftmaxInplace
            | CpuCandidate::SoftmaxInplaceInline => None,
        }
    }

    /// What the candidate leaves in the input and the output buffer when it
    /// accepts its operands.
    pub open spec fn result(self, input: Matrix, weights: Matrix, bias: Matrix, output: Matrix) -> (Matrix, Matrix) {
        match self {
            CpuCandidate::NaiveLinear
            | CpuCandidate::ReluNaive
            | CpuCandidate::SoftmaxNaive
            | CpuCandidate::LinearReluSoftmaxNaive => (input, output),
            CpuCandidate::PreallocatedLinear
            | CpuCandidate::InlineLinear
            | CpuCandidate::LocalAccumulationLinear
            | CpuCandidate::OptimizedLinear => (input, linear_spec(input, weights, bias)),
            CpuCandidate::ReluPreallocated => (input, relu_spec(input)),
            CpuCandidate::ReluInplace | CpuCandidate::ReluInplaceInline => (relu_spec(input), output),
            CpuCandidate::SoftmaxPreallocated => (input, softmax_spec(input)),
            CpuCandidate::SoftmaxInplace | CpuCandidate::SoftmaxInplaceInline => (softmax_spec(input), output),
            CpuCandidate::LinearReluSoftmaxLocalAccumulation
            | CpuCandidate::LinearReluSoftmaxFusedFission
            | CpuCandidate::LinearReluSoftmaxFused => (input, linear_relu_softmax_spec(input, weights, bias)),
            CpuCandidate::LinearLocalAccumulationRelu | CpuCandidate::LinearOptimizedRelu => (
                input,
                linear_relu_spec(input, weights, bias),
            ),
        }
    }

    /// What one execution does to its operands.
    pub open spec fn effect(self, input: Matrix, weights: Matrix, bias: Matrix, output: Matrix) -> Effect {
        match self.refusal(input, weights, bias, output) {
            Some(e) => Effect { refusal: Some(e), input, output },
            None => Effect {
                refusal: None,
                input: self.result(input, weights, bias, output).0,
                output: self.result(input, weights, bias, output).1,
            },
        }
    }

    /// Executes the candidate once.
    pub fn run(self, input: &mut Tensor2D, weights: &Tensor2D, bias: &Tensor2D, output: &mut Tensor2D) -> (res:
        Result<(), ShapeError>)
        ensures
            answers(self.effect(old(input)@, weights@, bias@, old(output)@).refusal, res),
            final(input)@ == self.effect(old(input)@, weights@, bias@, old(output)@).input,
            final(output)@ == self.effect(old(input)@, weights@, bias@, old(output)@).output,
    {
        match self {
            CpuCandidate::NaiveLinear => naive_linear_benchmark(input, weights, bias, output),
            CpuCandidate::PreallocatedLinear => preallocated_linear_benchmark(input, weights, bias, output),
            CpuCandidate::InlineLinear => inline_linear_benchmark(input, weights, bias, output),
            CpuCandidate::LocalAccumulationLinear => local_accumulation_linear_benchmark(
                input,
                weights,
                bias,
                output,
            ),
            CpuCandidate::OptimizedLinear => optimized_linear_benchmark(input, weights, bias, output),
            CpuCandidate::ReluNaive => relu_naive_benchmark(input, weights, bias, output),
            CpuCandidate::ReluPreallocated => relu_preallocated_benchmark(input, weights, bias, output),
            CpuCandidate::ReluInplace => relu_inplace_benchmark(input, weights, bias, output),
            CpuCandidate::ReluInplaceInline => relu_inplace_inline_benchmark(input, weights, bias, output),
            CpuCandidate::SoftmaxNaive => softmax_naive_benchmark(input, weights, bias, output),
            CpuCandidate::SoftmaxPreallocated => softmax_preallocated_benchmark(input, weights, bias, output),
            CpuCandidate::SoftmaxInplace => softmax_inplace_benchmark(input, weights, bias, output),
            CpuCandidate::SoftmaxInplaceInline => softmax_inplace_inline_benchmark(
                input,
                weights,
                bias,
                output,
            ),
            CpuCandidate::LinearReluSoftmaxNaive => linear_relu_softmax_naive_benchmark(
                input,
                weights,
                bias,
                output,
            ),
            CpuCandidate::LinearReluSoftmaxLocalAccumulation => linear_relu_softmax_local_accumulation_benchmark(
                input,
                weights,
                bias,
                output,
            ),
            CpuCandidate::LinearReluSoftmaxFusedFission => linear_relu_softmax_fused_fission_benchmark(
                input,
                weights,
                bias,
                output,
            ),
            CpuCandidate::LinearReluSoftmaxFused => linear_relu_softmax_fused_benchmark(
                input,
                weights,
                bias,
                output,
            ),
            CpuCandidate::LinearLocalAccumulationRelu => linear_local_accumulation_relu_benchmark(
                input,
                weights,
                bias,
                output,
            ),
            CpuCandidate::LinearOptimizedRelu => linear_optimized_relu_benchmark(input, weights, bias, output),
        }
    }
}

/// On four square operands of one size no candidate refuses, and the input
/// and the output buffer come back square and of that size.
pub proof fn lemma_square_operands(
    candidate: CpuCandidate,
    input: Matrix,
    weights: Matrix,
    bias: Matrix,
    output: Matrix,
    n: nat,
)
    requires
        input.rows == n && input.cols == n,
        weights.rows == n && weights.cols == n,
        bias.rows == n && bias.cols == n,
        output.rows == n && output.cols == n,
    ensures
        candidate.effect(input, weights, bias, output).refusal.is_none(),
        candidate.effect(input, weights, bias, output).input.rows == n,
        candidate.effect(input, weights, bias, output).input.cols == n,
        candidate.effect(input, weights, bias, output).output.rows == n,
        candidate.effect(input, weights, bias, output).output.cols == n,
{
}

} // verus!
