//! The immediate scenarios' benchmarks: which candidates each one compares,
//! host kernels against device nodes, under which names, and where its chart
//! belongs. The host candidates stand here in the device candidates' call
//! signature, with a device handle they do not use.

use crate::immediate::nodes::ImmediateNode;
use crate::shared::configuration::Configuration;
use crate::shared::fixed::{add_fixed, mul_fixed, ONE};
use crate::shared::fused::{linear_relu_softmax_spec, linear_relu_spec};
use crate::shared::linear::{linear_error, linear_spec};
use crate::shared::relu::relu_spec;
use crate::shared::softmax::softmax_spec;
use crate::shared::tensor2d::{ShapeError, Tensor2D};
use crate::cpu::candidates::answers;
use vstd::prelude::*;

verus! {

/// Host linear layer with a local running sum.
pub fn cpu_linear_local_accumulation_benchmark<H>(
    _gpu_handles: &H,
    input: &mut Tensor2D,
    weights: &Tensor2D,
    bias: &Tensor2D,
    output: &mut Tensor2D,
) -> (res: Result<(), ShapeError>)
    ensures
        answers(linear_error(old(input)@, weights@, bias@, old(output)@), res),
        final(input)@ == old(input)@,
        res.is_ok() ==> final(output)@ == linear_spec(old(input)@, weights@, bias@),
        res.is_err() ==> final(output)@ == old(output)@,
{
    Tensor2D::linear_local_accumulation(input, weights, bias, output)
}

/// Host linear layer and rectification fused, with a local running sum.
pub fn cpu_linear_local_accumulation_relu_benchmark<H>(
    _gpu_handles: &H,
    input: &mut Tensor2D,
    weights: &Tensor2D,
    bias: &Tensor2D,
    output: &mut Tensor2D,
) -> (res: Result<(), ShapeError>)
    ensures
        answers(linear_error(old(input)@, weights@, bias@, old(output)@), res),
        final(input)@ == old(input)@,
        res.is_ok() ==> final(output)@ == linear_relu_spec(old(input)@, weights@, bias@),
        res.is_err() ==> final(output)@ == old(output)@,
{
    Tensor2D::linear_local_accumulation_relu(input, weights, bias, output)
}

/// Host rectification in place.
pub fn cpu_relu_inplace_benchmark<H>(
    _gpu_handles: &H,
    input: &mut Tensor2D,
    _weights: &Tensor2D,
    _bias: &Tensor2D,
    _output: &mut Tensor2D,
) -> (res: Result<(), ShapeError>)
    ensures
        res.is_ok(),
        final(input)@ == relu_spec(old(input)@),
        final(_output)@ == old(_output)@,
{
    input.relu_inplace();
    Ok(())
}

/// Host reduction over the input, followed by a little arithmetic on the sum
/// so that the reduction has a use; no operand changes.
pub fn cpu_sum_benchmark<H>(
    _gpu_handles: &H,
    input: &mut Tensor2D,
    _weights: &Tensor2D,
    _bias: &Tensor2D,
    _output: &mut Tensor2D,
) -> (res: Result<(), ShapeError>)
    ensures
        res.is_ok(),
        final(input)@ == old(input)@,
        final(_output)@ == old(_output)@,
{
    let result: i64 = input.sum();
    let _x: i64 = add_fixed(mul_fixed(2 * ONE, result), 5 * ONE);
    Ok(())
}

/// Host normalization in place.
pub fn cpu_softmax_inplace_benchmark<H>(
    _gpu_handles: &H,
    input: &mut Tensor2D,
    _weights: &Tensor2D,
    _bias: &Tensor2D,
    _output: &mut Tensor2D,
) -> (res: Result<(), ShapeError>)
    ensures
        res.is_ok(),
        final(input)@ == softmax_spec(old(input)@),
        final(_output)@ == old(_output)@,
{
    input.softmax_inplace();
    Ok(())
}

/// Host pipeline as one fused kernel.
pub fn cpu_linear_relu_softmax_fused_benchmark<H>(
    _gpu_handles: &H,
    input: &mut Tensor2D,
    weights: &Tensor2D,
    bias: &Tensor2D,
    output: &mut Tensor2D,
) -> (res: Result<(), ShapeError>)
    ensures
        answers(linear_error(old(input)@, weights@, bias@, old(output)@), res),
        final(input)@ == old(input)@,
        res.is_ok() ==> final(output)@ == linear_relu_softmax_spec(old(input)@, weights@, bias@),
        res.is_err() ==> final(output)@ == old(output)@,
{
    Tensor2D::linear_relu_softmax_fused(input, weights, bias, output)
}

/// A candidate of an immediate benchmark.
#[derive(Debug, Clone, Copy, PartialEq, Eq, Structural)]
pub enum ImmediateCandidate {
    CpuLinearLocalAccumulation,
    CpuLinearLocalAccumulationRelu,
    CpuReluInplace,
    CpuSum,
    CpuSoftmaxInplace,
    CpuLinearReluSoftmaxFused,
    /// A device node, dispatched and awaited.
    Node(ImmediateNode),
    /// The reduction over the input on the device.
    DeviceSum,
}

/// What an immediate benchmark compares and where its chart belongs.
#[derive(Debug)]
pub struct BenchmarkPlan {
    pub title: String,
    pub directory: String,
    pub file_name: String,
    pub names: Vec<String>,
    pub candidates: Vec<ImmediateCandidate>,
    pub log_scale: bool,
}

/// The plan has this title, this file name and these candidates under these
/// names, and takes its scale from `config`.
pub open spec fn plans(
    plan: BenchmarkPlan,
    title: Seq<char>,
    file_name: Seq<char>,
    names: Seq<Seq<char>>,
    candidates: Seq<ImmediateCandidate>,
    config: Configuration,
) -> bool {
    &&& plan.title@ == title
    &&& plan.directory@ == "benchmarks/immediate/"@
    &&& plan.file_name@ == file_name
    &&& plan.log_scale == config.log_scale
    &&& plan.candidates@ == candidates
    &&& plan.names@.len() == names.len()
    &&& names.len() == candidates.len()
    &&& forall|i: int| 0 <= i < names.len() ==> (#[trigger] plan.names@[i])@ == names[i]
}

/// Puts a plan together.
fn plan_of(
    config: &Configuration,
    title: &str,
    file_name: &str,
    names: Vec<String>,
    candidates: Vec<ImmediateCandidate>,
) -> (plan: BenchmarkPlan)
    ensures
        plan.title@ == title@,
        plan.directory@ == "benchmarks/immediate/"@,
        plan.file_name@ == file_name@,
        plan.log_scale == config.log_scale,
        plan.names == names,
        plan.candidates == candidates,
{
    BenchmarkPlan {
        title: title.to_owned(),
        directory: "benchmarks/immediate/".to_owned(),
        file_name: file_name.to_owned(),
        names,
        candidates,
        log_scale: config.log_scale,
    }
}

/// The linear benchmark: the host's linear layer, plain and with
/// rectification, against the device's.
pub fn linear_benchmark(config: &Configuration) -> (plan: BenchmarkPlan)
    ensures
        plans(
            plan,
            "Immediate Benchmark - Linear"@,
            "immediate_linear_benchmark.png"@,
            seq![
                "shared::tensor2d::linear_local_accumulation"@,
                "shared::tensor2d::linear_local_accumulation_relu"@,
                "immediate::nodes::linear_from_tensor_2d"@,
                "immediate::nodes::linear_with_relu_from_tensor_2d"@,
            ],
            seq![
                ImmediateCandidate::CpuLinearLocalAccumulation,
                ImmediateCandidate::CpuLinearLocalAccumulationRelu,
                ImmediateCandidate::Node(ImmediateNode::Linear),
                ImmediateCandidate::Node(ImmediateNode::LinearWithRelu),
            ],
            *config,
        ),
{
    let mut names: Vec<String> = Vec::new();
    names.push("shared::tensor2d::linear_local_accumulation".to_owned());
    names.push("shared::tensor2d::linear_local_accumulation_relu".to_owned());
    names.push("immediate::nodes::linear_from_tensor_2d".to_owned());
    names.push("immediate::nodes::linear_with_relu_from_tensor_2d".to_owned());
    let mut candidates: Vec<ImmediateCandidate> = Vec::new();
    candidates.push(ImmediateCandidate::CpuLinearLocalAccumulation);
    candidates.push(ImmediateCandidate::CpuLinearLocalAccumulationRelu);
    candidates.push(ImmediateCandidate::Node(ImmediateNode::Linear));
    candidates.push(ImmediateCandidate::Node(ImmediateNode::LinearWithRelu));
    let plan = plan_of(config, "Immediate Benchmark - Linear", "immediate_linear_benchmark.png", names, candidates);
    assert(plan.candidates@ =~= seq![
        ImmediateCandidate::CpuLinearLocalAccumulation,
        ImmediateCandidate::CpuLinearLocalAccumulationRelu,
        ImmediateCandidate::Node(ImmediateNode::Linear),
        ImmediateCandidate::Node(ImmediateNode::LinearWithRelu),
    ]);
    plan
}

/// The rectification benchmark: the host's in-place kernel against the
/// device's two nodes.
pub fn relu_benchmark(config: &Configuration) -> (plan: BenchmarkPlan)
    ensures
        plans(
            plan,
            "Immediate Benchmark - ReLu"@,
            "immediate_relu_benchmark.png"@,
            seq![
                "shared::tensor2d::relu_inplace"@,
                "immediate::nodes::relu_from_tensor_2d"@,
                "immediate::nodes::relu_inplace_from_tensor_2d"@,
            ],
            seq![
                ImmediateCandidate::CpuReluInplace,
                ImmediateCandidate::Node(ImmediateNode::Relu),
                ImmediateCandidate::Node(ImmediateNode::ReluInplace),
            ],
            *config,
        ),
{
    let mut names: Vec<String> = Vec::new();
    names.push("shared::tensor2d::relu_inplace".to_owned());
    names.push("immediate::nodes::relu_from_tensor_2d".to_owned());
    names.push("immediate::nodes::relu_inplace_from_tensor_2d".to_owned());
    let mut candidates: Vec<ImmediateCandidate> = Vec::new();
    candidates.push(ImmediateCandidate::CpuReluInplace);
    candidates.push(ImmediateCandidate::Node(ImmediateNode::Relu));
    candidates.push(ImmediateCandidate::Node(ImmediateNode::ReluInplace));
    let plan = plan_of(config, "Immediate Benchmark - ReLu", "immediate_relu_benchmark.png", names, candidates);
    assert(plan.candidates@ =~= seq![
        ImmediateCandidate::CpuReluInplace,
        ImmediateCandidate::Node(ImmediateNode::Relu),
        ImmediateCandidate::Node(ImmediateNode::ReluInplace),
    ]);
    plan
}

/// The reduction benchmark: the host's sum against the device's.
pub fn sum_benchmark(config: &Configuration) -> (plan: BenchmarkPlan)
    ensures
        plans(
            plan,
            "Immediate Benchmark - Sum"@,
            "immediate_sum_benchmark.png"@,
            seq!["shared::tensor2d::sum"@, "immediate::nodes::sum_from_tensor_2d"@],
            seq![ImmediateCandidate::CpuSum, ImmediateCandidate::DeviceSum],
            *config,
        ),
{
    let mut names: Vec<String> = Vec::new();
    names.push("shared::tensor2d::sum".to_owned());
    names.push("immediate::nodes::sum_from_tensor_2d".to_owned());
    let mut candidates: Vec<ImmediateCandidate> = Vec::new();
    candidates.push(ImmediateCandidate::CpuSum);
    candidates.push(ImmediateCandidate::DeviceSum);
    let plan = plan_of(config, "Immediate Benchmark - Sum", "immediate_sum_benchmark.png", names, candidates);
    assert(plan.candidates@ =~= seq![ImmediateCandidate::CpuSum, ImmediateCandidate::DeviceSum]);
    plan
}

/// The normalization benchmark: the host's in-place kernel against the device's node.
pub fn softmax_benchmark(config: &Configuration) -> (plan: BenchmarkPlan)
    ensures
        plans(
            plan,
            "Immediate Benchmark - Softmax"@,
            "immediate_softmax_benchmark.png"@,
            seq!["shared::tensor2d::softmax_inplace"@, "immediate::nodes::softmax"@],
            seq![ImmediateCandidate::CpuSoftmaxInplace, ImmediateCandidate::Node(ImmediateNode::Softmax)],
            *config,
        ),
{
    let mut names: Vec<String> = Vec::new();
    names.push("shared::tensor2d::softmax_inplace".to_owned());
    names.push("immediate::nodes::softmax".to_owned());
    let mut candidates: Vec<ImmediateCandidate> = Vec::new();
    candidates.push(ImmediateCandidate::CpuSoftmaxInplace);
    candidates.push(ImmediateCandidate::Node(ImmediateNode::Softmax));
    let plan = plan_of(
        config,
        "Immediate Benchmark - Softmax",
        "immediate_softmax_benchmark.png",
        names,
        candidates,
    );
    assert(plan.candidates@ =~= seq![
        ImmediateCandidate::CpuSoftmaxInplace,
        ImmediateCandidate::Node(ImmediateNode::Softmax),
    ]);
    plan
}

/// The pipeline benchmark: the host's fused kernel against the device's
/// pipeline as three kernels, as two, and as one.
pub fn linear_relu_softmax_fused_benchmark(config: &Configuration) -> (plan: BenchmarkPlan)
    ensures
        plans(
            plan,
            "Immediate Benchmark - Linear/ReLU/Softmax Fused"@,
            "immediate_linear_relu_softmax_fused_benchmark.png"@,
            seq![
                "shared::tensor2d::linear_relu_softmax_fused"@,
                "immediate::nodes::linear_relu_softmax_from_tensor_2d"@,
                "immediate::nodes::linearrelu_softmax_from_tensor_2d"@,
                "immediate::nodes::linearrelusoftmax_from_tensor_2d"@,
            ],
            seq![
                ImmediateCandidate::CpuLinearReluSoftmaxFused,
                ImmediateCandidate::Node(ImmediateNode::LinearReluSoftmax),
                ImmediateCandidate::Node(ImmediateNode::LinearreluSoftmax),
                ImmediateCandidate::Node(ImmediateNode::LinearReluSoftmaxFused),
            ],
            *config,
        ),
{
    let mut names: Vec<String> = Vec::new();
    names.push("shared::tensor2d::linear_relu_softmax_fused".to_owned());
    names.push("immediate::nodes::linear_relu_softmax_from_tensor_2d".to_owned());
    names.push("immediate::nodes::linearrelu_softmax_from_tensor_2d".to_owned());
    names.push("immediate::nodes::linearrelusoftmax_from_tensor_2d".to_owned());
    let mut candidates: Vec<ImmediateCandidate> = Vec::new();
    candidates.push(ImmediateCandidate::CpuLinearReluSoftmaxFused);
    candidates.push(ImmediateCandidate::Node(ImmediateNode::LinearReluSoftmax));
    candidates.push(ImmediateCandidate::Node(ImmediateNode::LinearreluSoftmax));
    candidates.push(ImmediateCandidate::Node(ImmediateNode::LinearReluSoftmaxFused));
    let plan = plan_of(
        config,
        "Immediate Benchmark - Linear/ReLU/Softmax Fused",
        "immediate_linear_relu_softmax_fused_benchmark.png",
        names,
        candidates,
    );
    assert(plan.candidates@ =~= seq![
        ImmediateCandidate::CpuLinearReluSoftmaxFused,
        ImmediateCandidate::Node(ImmediateNode::LinearReluSoftmax),
        ImmediateCandidate::Node(ImmediateNode::LinearreluSoftmax),
        ImmediateCandidate::Node(ImmediateNode::LinearReluSoftmaxFused),
    ]);
    plan
}

} // verus!
