//! Dispatch nodes: how a tensor computation becomes transfers and kernel
//! launches, and how many blocks a launch needs.

use crate::shared::fused::linear_relu_softmax_spec;
use crate::shared::graph_operators::{
    evaluate_prefix, models, GraphError, GraphOperator, OperatorModel,
};
use crate::shared::linear::operand_error;
use crate::shared::tensor2d::{Matrix, ShapeError, Tensor2D};
use vstd::prelude::*;

verus! {

/// Threads per block of every kernel.
pub const BLOCK_SIZE: usize = 32;

/// The geometry of one kernel launch.
#[derive(Debug, Clone, Copy, PartialEq, Eq, Structural)]
pub struct KernelLaunch {
    pub block_size_x: usize,
    pub launch_blocks_x: u32,
    pub block_size_y: usize,
    pub launch_blocks_y: u32,
}

/// The least number of blocks of `block_size` threads that gives every one of
/// `count` elements a thread of its own.
pub open spec fn blocks_needed(count: nat, block_size: nat) -> nat {
    ((count + block_size - 1) / (block_size as int)) as nat
}

/// The blocks needed cover all elements, and one block fewer would not.
pub proof fn lemma_blocks_cover(count: nat, block_size: nat)
    requires
        block_size > 0,
    ensures
        blocks_needed(count, block_size) * block_size >= count,
        count > 0 ==> (blocks_needed(count, block_size) - 1) * block_size < count,
        count == 0 ==> blocks_needed(count, block_size) == 0,
{
    let n = count + block_size - 1;
    let d = block_size as int;
    let q = n / d;
    assert(n == q * d + n % d && 0 <= n % d < d) by (nonlinear_arith)
        requires
            q == n / d,
            d > 0,
    ;
    assert((q - 1) * d == q * d - d) by (nonlinear_arith);
    assert(q >= 0) by (nonlinear_arith)
        requires
            q == n / d,
            n >= 0,
            d > 0,
    ;
    if count == 0 {
        assert(q == 0) by (nonlinear_arith)
            requires
                q == n / d,
                0 <= n < d,
        ;
    }
}

/// The number of blocks a launch over `count` elements needs, if the block
/// size is positive and the number fits the device's 32-bit block count.
pub fn launch_blocks(count: usize, block_size: usize) -> (r: Option<u32>)
    ensures
        r.is_some() <==> block_size > 0 && blocks_needed(count as nat, block_size as nat) <= u32::MAX,
        r.is_some() ==> r.unwrap() == blocks_needed(count as nat, block_size as nat),
        r.is_some() ==> r.unwrap() * block_size >= count,
        r.is_some() && count > 0 ==> (r.unwrap() - 1) * block_size < count,
{
    if block_size == 0 {
        return None;
    }
    proof {
        lemma_blocks_cover(count as nat, block_size as nat);
    }
    let wide: u128 = (count as u128 + block_size as u128 - 1) / (block_size as u128);
    if wide > 0xffff_ffff {
        None
    } else {
        Some(wide as u32)
    }
}

/// The one-dimensional launch that covers `count` elements with blocks of
/// [`BLOCK_SIZE`] threads, if its block count fits 32 bits.
pub fn launch_over(count: usize) -> (r: Option<KernelLaunch>)
    ensures
        r.is_some() <==> blocks_needed(count as nat, BLOCK_SIZE as nat) <= u32::MAX,
        r.is_some() ==> r.unwrap() == (KernelLaunch {
            block_size_x: BLOCK_SIZE,
            launch_blocks_x: blocks_needed(count as nat, BLOCK_SIZE as nat) as u32,
            block_size_y: 1,
            launch_blocks_y: 1,
        }),
{
    match launch_blocks(count, BLOCK_SIZE) {
        Some(blocks) => Some(
            KernelLaunch { block_size_x: BLOCK_SIZE, launch_blocks_x: blocks, block_size_y: 1, launch_blocks_y: 1 },
        ),
        None => None,
    }
}

/// Takes what a node has downloaded into the caller's output buffer.
///
/// The buffer is reused as it is: a download of another shape than the
/// buffer's, or one that does not hold one entry per cell, is refused and the
/// buffer left as it was.
pub fn accept_download(output: &mut Tensor2D, rows: usize, cols: usize, data: &Vec<i64>) -> (res: Result<
    (),
    ShapeError,
>)
    ensures
        res.is_ok() <==> rows == old(output)@.rows && cols == old(output)@.cols && data@.len() == rows * cols,
        res.is_ok() ==> final(output)@ == (Matrix { rows: rows as nat, cols: cols as nat, data: data@ }),
        res.is_err() ==> res == Err::<(), ShapeError>(ShapeError::Output) && final(output)@ == old(output)@,
{
    proof {
        use_type_invariant(&*output);
    }
    if rows != output.rows || cols != output.cols || data.len() != output.data.len() {
        return Err(ShapeError::Output);
    }
    let n: usize = data.len();
    let mut i: usize = 0;
    while i < n
        invariant
            i <= n,
            n == data@.len(),
            output.data@.len() == n,
            output.rows == rows,
            output.cols == cols,
            n == output.rows * output.cols,
            forall|j: int| 0 <= j < i ==> output.data@[j] == data@[j],
        decreases n - i,
    {
        output.data[i] = data[i];
        i += 1;
    }
    assert(output.data@ =~= data@);
    Ok(())
}

/// The dispatch nodes of the immediate backend.
#[derive(Debug, Clone, Copy, PartialEq, Eq, Structural)]
pub enum ImmediateNode {
    /// The linear layer, one kernel.
    Linear,
    /// The linear layer and rectification, one fused kernel.
    LinearWithRelu,
    /// Rectification into an output buffer.
    Relu,
    /// Rectification of the uploaded buffer itself.
    ReluInplace,
    /// Normalization.
    Softmax,
    /// The pipeline as three kernels.
    LinearReluSoftmax,
    /// The pipeline as two kernels: fused linear layer and rectification, then normalization.
    LinearreluSoftmax,
    /// The pipeline as one fused kernel.
    LinearReluSoftmaxFused,
}

impl ImmediateNode {
    /// The number of kernels the node launches between its upload and its download.
    pub open spec fn kernel_count(self) -> nat {
        match self {
            ImmediateNode::LinearReluSoftmax => 3,
            ImmediateNode::LinearreluSoftmax => 2,
            _ => 1,
        }
    }

    /// The operators the node dispatches, transfers included, in order.
    pub open spec fn plan(self, input: Matrix, weights: Matrix, bias: Matrix) -> Seq<OperatorModel> {
        let upload = OperatorModel::HostToDevice { input };
        let download = OperatorModel::DeviceToHost;
        match self {
            ImmediateNode::Linear => seq![upload, OperatorModel::Linear { weights, bias }, download],
            ImmediateNode::LinearWithRelu => seq![upload, OperatorModel::LinearReLUFused { weights, bias }, download],
            ImmediateNode::Relu | ImmediateNode::ReluInplace => seq![upload, OperatorModel::ReLU, download],
            ImmediateNode::Softmax => seq![upload, OperatorModel::Softmax, download],
            ImmediateNode::LinearReluSoftmax => seq![
                upload,
                OperatorModel::Linear { weights, bias },
                OperatorModel::ReLU,
                OperatorModel::Softmax,
                download,
            ],
            ImmediateNode::LinearreluSoftmax => seq![
                upload,
                OperatorModel::LinearReLUFused { weights, bias },
                OperatorModel::Softmax,
                download,
            ],
            ImmediateNode::LinearReluSoftmaxFused => seq![
                upload,
                OperatorModel::LinearReLUSoftmaxFused { weights, bias },
                download,
            ],
        }
    }

    /// The operators the node dispatches for these operands: an upload of the
    /// input, its kernels, and a download of the result.
    pub fn operators(self, input: &Tensor2D, weights: &Tensor2D, bias: &Tensor2D) -> (r: Vec<GraphOperator>)
        ensures
            models(r@) == self.plan(input@, weights@, bias@),
            r@.len() == self.kernel_count() + 2,
    {
        let mut plan: Vec<GraphOperator> = Vec::new();
        plan.push(GraphOperator::HostToDevice { input: input.clone() });
        match self {
            ImmediateNode::Linear => {
                plan.push(GraphOperator::Linear { weights: weights.clone(), bias: bias.clone() });
            },
            ImmediateNode::LinearWithRelu => {
                plan.push(GraphOperator::LinearReLUFused { weights: weights.clone(), bias: bias.clone() });
            },
            ImmediateNode::Relu | ImmediateNode::ReluInplace => {
                plan.push(GraphOperator::ReLU);
            },
            ImmediateNode::Softmax => {
                plan.push(GraphOperator::Softmax);
            },
            ImmediateNode::LinearReluSoftmax => {
                plan.push(GraphOperator::Linear { weights: weights.clone(), bias: bias.clone() });
                plan.push(GraphOperator::ReLU);
                plan.push(GraphOperator::Softmax);
            },
            ImmediateNode::LinearreluSoftmax => {
                plan.push(GraphOperator::LinearReLUFused { weights: weights.clone(), bias: bias.clone() });
                plan.push(GraphOperator::Softmax);
            },
            ImmediateNode::LinearReluSoftmaxFused => {
                plan.push(
                    GraphOperator::LinearReLUSoftmaxFused { weights: weights.clone(), bias: bias.clone() },
                );
            },
        }
        plan.push(GraphOperator::DeviceToHost);
        assert(models(plan@) =~= self.plan(input@, weights@, bias@));
        plan
    }
}

/// What a pipeline node owes for its operands: the fused pipeline's result, or
/// the refusal of operands that do not fit.
pub open spec fn pipeline_result(input: Matrix, weights: Matrix, bias: Matrix) -> Result<
    Option<Matrix>,
    GraphError,
> {
    match operand_error(input, weights, bias) {
        Some(e) => Err(GraphError::Shape(e)),
        None => Ok(Some(linear_relu_softmax_spec(input, weights, bias))),
    }
}

/// The three pipeline nodes, however many kernels they launch, evaluate to
/// the same result: that of the host's fused kernel.
pub proof fn lemma_pipeline_nodes_agree(input: Matrix, weights: Matrix, bias: Matrix)
    ensures
        evaluate_prefix(ImmediateNode::LinearReluSoftmax.plan(input, weights, bias), 5) == pipeline_result(
            input,
            weights,
            bias,
        ),
        evaluate_prefix(ImmediateNode::LinearreluSoftmax.plan(input, weights, bias), 4) == pipeline_result(
            input,
            weights,
            bias,
        ),
        evaluate_prefix(ImmediateNode::LinearReluSoftmaxFused.plan(input, weights, bias), 3) == pipeline_result(
            input,
            weights,
            bias,
        ),
{
    reveal_with_fuel(evaluate_prefix, 6);
}

} // verus!
