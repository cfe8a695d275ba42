//! The deferred description of a pipeline: a closed set of operators, and what
//! each of them means for the tensor that flows through the pipeline.
//!
//! An operator is a pure description. A device backend executes it with
//! kernels of its own; the evaluation here, on the host, is the meaning that
//! every backend has to reproduce.

use crate::shared::fused::{linear_relu_softmax_spec, linear_relu_spec};
use crate::shared::linear::{check_operands, linear_spec, operand_error};
use crate::shared::relu::relu_spec;
use crate::shared::softmax::softmax_spec;
use crate::shared::tensor2d::{Matrix, ShapeError, Tensor2D};
use vstd::prelude::*;

verus! {

/// One step of a pipeline.
#[derive(Debug)]
pub enum GraphOperator {
    /// Does nothing; a placeholder.
    Empty,
    /// Makes `input` the tensor that flows through the pipeline.
    HostToDevice { input: Tensor2D },
    /// Hands the flowing tensor back to the host; it has no numeric effect.
    DeviceToHost,
    /// The linear layer of the flowing tensor with these weights and this bias.
    Linear { weights: Tensor2D, bias: Tensor2D },
    /// Rectification of the flowing tensor.
    ReLU,
    /// Normalization of the flowing tensor, row by row.
    Softmax,
    /// Linear layer and rectification as one step.
    LinearReLUFused { weights: Tensor2D, bias: Tensor2D },
    /// Linear layer, rectification and normalization as one step.
    LinearReLUSoftmaxFused { weights: Tensor2D, bias: Tensor2D },
}

/// The mathematical value of an operator.
pub ghost enum OperatorModel {
    Empty,
    HostToDevice { input: Matrix },
    DeviceToHost,
    Linear { weights: Matrix, bias: Matrix },
    ReLU,
    Softmax,
    LinearReLUFused { weights: Matrix, bias: Matrix },
    LinearReLUSoftmaxFused { weights: Matrix, bias: Matrix },
}

/// Why a pipeline could not be evaluated.
#[derive(Debug, Clone, Copy, PartialEq, Eq, Structural)]
pub enum GraphError {
    /// An operator needs a tensor and none has been transferred yet.
    NoOperand,
    /// A linear operator's weights or bias do not fit the flowing tensor.
    Shape(ShapeError),
}

impl GraphError {
    /// What went wrong, in words.
    pub open spec fn message_spec(self) -> Seq<char> {
        match self {
            GraphError::NoOperand => "an operator needs a tensor and none has been transferred"@,
            GraphError::Shape(e) => e.message_spec(),
        }
    }

    /// What went wrong, in words.
    pub fn message(&self) -> (r: &'static str)
        ensures
            r@ == self.message_spec(),
    {
        match self {
            GraphError::NoOperand => "an operator needs a tensor and none has been transferred",
            GraphError::Shape(e) => e.message(),
        }
    }
}

impl View for GraphOperator {
    type V = OperatorModel;

    /// The operator with every tensor replaced by its value.
    open spec fn view(&self) -> OperatorModel {
        match *self {
            GraphOperator::Empty => OperatorModel::Empty,
            GraphOperator::HostToDevice { input } => OperatorModel::HostToDevice { input: input@ },
            GraphOperator::DeviceToHost => OperatorModel::DeviceToHost,
            GraphOperator::Linear { weights, bias } => OperatorModel::Linear { weights: weights@, bias: bias@ },
            GraphOperator::ReLU => OperatorModel::ReLU,
            GraphOperator::Softmax => OperatorModel::Softmax,
            GraphOperator::LinearReLUFused { weights, bias } => OperatorModel::LinearReLUFused {
                weights: weights@,
                bias: bias@,
            },
            GraphOperator::LinearReLUSoftmaxFused { weights, bias } => OperatorModel::LinearReLUSoftmaxFused {
                weights: weights@,
                bias: bias@,
            },
        }
    }
}

impl Clone for GraphOperator {
    /// The same operator with copies of its tensors.
    fn clone(&self) -> (r: GraphOperator)
        ensures
            r@ == self@,
    {
        match self {
            GraphOperator::Empty => GraphOperator::Empty,
            GraphOperator::HostToDevice { input } => GraphOperator::HostToDevice { input: input.clone() },
            GraphOperator::DeviceToHost => GraphOperator::DeviceToHost,
            GraphOperator::Linear { weights, bias } => GraphOperator::Linear {
                weights: weights.clone(),
                bias: bias.clone(),
            },
            GraphOperator::ReLU => GraphOperator::ReLU,
            GraphOperator::Softmax => GraphOperator::Softmax,
            GraphOperator::LinearReLUFused { weights, bias } => GraphOperator::LinearReLUFused {
                weights: weights.clone(),
                bias: bias.clone(),
            },
            GraphOperator::LinearReLUSoftmaxFused { weights, bias } => GraphOperator::LinearReLUSoftmaxFused {
                weights: weights.clone(),
                bias: bias.clone(),
            },
        }
    }
}

/// What a linear operator, plain or fused, makes of the tensor `x` that flows
/// into it: `result`, if weights and bias fit `x`, and their refusal otherwise.
pub open spec fn through_linear(x: Matrix, weights: Matrix, bias: Matrix, result: Matrix) -> Result<
    Option<Matrix>,
    GraphError,
> {
    match operand_error(x, weights, bias) {
        Some(e) => Err(GraphError::Shape(e)),
        None => Ok(Some(result)),
    }
}

impl OperatorModel {
    /// The tensor that flows out of the operator, given the one that flows in.
    pub open spec fn apply(self, flowing: Option<Matrix>) -> Result<Option<Matrix>, GraphError> {
        match self {
            OperatorModel::Empty => Ok(flowing),
            OperatorModel::HostToDevice { input } => Ok(Some(input)),
            OperatorModel::DeviceToHost => match flowing {
                None => Err(GraphError::NoOperand),
                Some(x) => Ok(Some(x)),
            },
            OperatorModel::Linear { weights, bias } => match flowing {
                None => Err(GraphError::NoOperand),
                Some(x) => through_linear(x, weights, bias, linear_spec(x, weights, bias)),
            },
            OperatorModel::ReLU => match flowing {
                None => Err(GraphError::NoOperand),
                Some(x) => Ok(Some(relu_spec(x))),
            },
            OperatorModel::Softmax => match flowing {
                None => Err(GraphError::NoOperand),
                Some(x) => Ok(Some(softmax_spec(x))),
            },
            OperatorModel::LinearReLUFused { weights, bias } => match flowing {
                None => Err(GraphError::NoOperand),
                Some(x) => through_linear(x, weights, bias, linear_relu_spec(x, weights, bias)),
            },
            OperatorModel::LinearReLUSoftmaxFused { weights, bias } => match flowing {
                None => Err(GraphError::NoOperand),
                Some(x) => through_linear(x, weights, bias, linear_relu_softmax_spec(x, weights, bias)),
            },
        }
    }
}

/// The tensor that flows out of the first `n` operators of a pipeline that
/// starts with nothing transferred; the first failure ends the pipeline.
pub open spec fn evaluate_prefix(operators: Seq<OperatorModel>, n: nat) -> Result<Option<Matrix>, GraphError>
    decreases n,
{
    if n == 0 {
        Ok(None)
    } else {
        match evaluate_prefix(operators, (n - 1) as nat) {
            Ok(flowing) => operators[n - 1].apply(flowing),
            Err(e) => Err(e),
        }
    }
}

/// The values of a sequence of operators.
pub open spec fn models(operators: Seq<GraphOperator>) -> Seq<OperatorModel> {
    Seq::new(operators.len(), |i: int| operators[i]@)
}

/// Fusion changes no result: a fused operator maps every flowing tensor to
/// what its unfused operators give when applied one after the other, failures
/// included.
pub proof fn lemma_fused_operators(weights: Matrix, bias: Matrix, flowing: Option<Matrix>)
    ensures
        (OperatorModel::LinearReLUFused { weights, bias }).apply(flowing) == (match (OperatorModel::Linear {
            weights,
            bias,
        }).apply(flowing) {
            Ok(summed) => OperatorModel::ReLU.apply(summed),
            Err(e) => Err(e),
        }),
        (OperatorModel::LinearReLUSoftmaxFused { weights, bias }).apply(flowing) == (match (
        OperatorModel::LinearReLUFused { weights, bias }).apply(flowing) {
            Ok(rectified) => OperatorModel::Softmax.apply(rectified),
            Err(e) => Err(e),
        }),
{
}

/// Transfers are idempotent: a second upload of the same tensor, or a second
/// download, changes nothing.
pub proof fn lemma_transfers_idempotent(input: Matrix, flowing: Option<Matrix>)
    ensures
        (OperatorModel::HostToDevice { input }).apply(Some(input)) == Ok::<Option<Matrix>, GraphError>(
            Some(input),
        ),
        (OperatorModel::HostToDevice { input }).apply(flowing) == (OperatorModel::HostToDevice { input }).apply(
            Some(input),
        ),
        flowing.is_some() ==> OperatorModel::DeviceToHost.apply(flowing) == Ok::<Option<Matrix>, GraphError>(
            flowing,
        ),
{
}

impl GraphOperator {
    /// Applies the operator to the tensor that flows through the pipeline.
    pub fn apply(&self, flowing: Option<Tensor2D>) -> (res: Result<Option<Tensor2D>, GraphError>)
        ensures
            match self@.apply(flowing_model(flowing)) {
                Ok(expected) => res.is_ok() && flowing_model(res.unwrap()) == expected,
                Err(e) => res == Err::<Option<Tensor2D>, GraphError>(e),
            },
    {
        match self {
            GraphOperator::Empty => Ok(flowing),
            GraphOperator::HostToDevice { input } => Ok(Some(input.clone())),
            GraphOperator::DeviceToHost => match flowing {
                None => Err(GraphError::NoOperand),
                Some(x) => Ok(Some(x)),
            },
            GraphOperator::Linear { weights, bias } => match flowing {
                None => Err(GraphError::NoOperand),
                Some(x) => match Tensor2D::linear(&x, weights, bias) {
                    Ok(out) => Ok(Some(out)),
                    Err(e) => Err(GraphError::Shape(e)),
                },
            },
            GraphOperator::ReLU => match flowing {
                None => Err(GraphError::NoOperand),
                Some(x) => {
                    let mut x = x;
                    x.relu_inplace();
                    Ok(Some(x))
                },
            },
            GraphOperator::Softmax => match flowing {
                None => Err(GraphError::NoOperand),
                Some(x) => {
                    let mut x = x;
                    x.softmax_inplace();
                    Ok(Some(x))
                },
            },
            GraphOperator::LinearReLUFused { weights, bias } => match flowing {
                None => Err(GraphError::NoOperand),
                Some(x) => match check_operands(&x, weights, bias) {
                    Some(e) => Err(GraphError::Shape(e)),
                    None => {
                        let mut out = bias.clone();
                        let fused = Tensor2D::linear_local_accumulation_relu(&x, weights, bias, &mut out);
                        assert(fused.is_ok());
                        Ok(Some(out))
                    },
                },
            },
            GraphOperator::LinearReLUSoftmaxFused { weights, bias } => match flowing {
                None => Err(GraphError::NoOperand),
                Some(x) => match check_operands(&x, weights, bias) {
                    Some(e) => Err(GraphError::Shape(e)),
                    None => {
                        let mut out = bias.clone();
                        let fused = Tensor2D::linear_relu_softmax_fused(&x, weights, bias, &mut out);
                        assert(fused.is_ok());
                        Ok(Some(out))
                    },
                },
            },
        }
    }
}

/// The value of the tensor that flows through a pipeline, if there is one.
pub open spec fn flowing_model(flowing: Option<Tensor2D>) -> Option<Matrix> {
    match flowing {
        None => None,
        Some(t) => Some(t@),
    }
}

/// Evaluates a pipeline on the host, starting with nothing transferred, and
/// returns the tensor that flows out of its last operator. The first operator
/// that fails ends the evaluation with its error.
pub fn evaluate(operators: &Vec<GraphOperator>) -> (res: Result<Option<Tensor2D>, GraphError>)
    ensures
        match evaluate_prefix(models(operators@), operators@.len()) {
            Ok(expected) => res.is_ok() && flowing_model(res.unwrap()) == expected,
            Err(e) => res == Err::<Option<Tensor2D>, GraphError>(e),
        },
{
    let n: usize = operators.len();
    let ghost all = models(operators@);
    let mut flowing: Option<Tensor2D> = None;
    let mut i: usize = 0;
    while i < n
        invariant
            i <= n,
            n == operators@.len(),
            all == models(operators@),
            evaluate_prefix(all, i as nat) == Ok::<Option<Matrix>, GraphError>(flowing_model(flowing)),
        decreases n - i,
    {
        assert(all[i as int] == operators@[i as int]@);
        match operators[i].apply(flowing) {
            Ok(next) => {
                flowing = next;
            },
            Err(e) => {
                proof {
                    lemma_failure_is_final(all, (i + 1) as nat, n as nat);
                }
                return Err(e);
            },
        }
        i += 1;
    }
    Ok(flowing)
}

/// Once a prefix of a pipeline has failed, every longer prefix fails the same way.
pub proof fn lemma_failure_is_final(operators: Seq<OperatorModel>, failed: nat, n: nat)
    requires
        failed <= n,
        evaluate_prefix(operators, failed).is_err(),
    ensures
        evaluate_prefix(operators, n) == evaluate_prefix(operators, failed),
    decreases n,
{
    if failed < n {
        lemma_failure_is_final(operators, failed, (n - 1) as nat);
    }
}

} // verus!
