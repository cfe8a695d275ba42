//! The linear layer `input x weights + bias` in five execution strategies.
//!
//! Every strategy accumulates the products of one output cell in the order of
//! the reduction index and adds the bias last, so all of them return the same
//! tensor; they differ in where the output lives and where the running sum is kept.

use crate::shared::fixed::{add_fixed, mul_fixed, sat_add, sat_mul};
use crate::shared::tensor2d::{lemma_cell_index, offset, Matrix, ShapeError, Tensor2D};
use vstd::prelude::*;

verus! {

/// The first `n` products of row `r` of `input` and column `c` of `weights`,
/// added up in the order of the reduction index.
pub open spec fn dot_prefix(input: Matrix, weights: Matrix, r: int, c: int, n: nat) -> i64
    decreases n,
{
    if n == 0 {
        0
    } else {
        sat_add(
            dot_prefix(input, weights, r, c, (n - 1) as nat),
            sat_mul(input.at(r, n - 1), weights.at(n - 1, c)),
        )
    }
}

/// The output cell in row `r`, column `c`: the whole dot product, then the bias.
pub open spec fn linear_entry(input: Matrix, weights: Matrix, bias: Matrix, r: int, c: int) -> i64 {
    sat_add(dot_prefix(input, weights, r, c, input.cols), bias.at(r, c))
}

/// The output cell at row-major offset `idx`.
pub open spec fn linear_cell(input: Matrix, weights: Matrix, bias: Matrix, idx: int) -> i64 {
    linear_entry(input, weights, bias, idx / (weights.cols as int), idx % (weights.cols as int))
}

/// `input x weights + bias`.
pub open spec fn linear_spec(input: Matrix, weights: Matrix, bias: Matrix) -> Matrix {
    Matrix {
        rows: input.rows,
        cols: weights.cols,
        data: Seq::new(input.rows * weights.cols, |idx: int| linear_cell(input, weights, bias, idx)),
    }
}

/// The reason the three operands of a linear layer do not fit together, if any.
pub open spec fn operand_error(input: Matrix, weights: Matrix, bias: Matrix) -> Option<ShapeError> {
    if input.cols != weights.rows {
        Some(ShapeError::InnerDimension)
    } else if bias.rows != input.rows || bias.cols != weights.cols {
        Some(ShapeError::Bias)
    } else {
        None
    }
}

/// The reason a linear layer cannot write into `output`, if any.
pub open spec fn linear_error(input: Matrix, weights: Matrix, bias: Matrix, output: Matrix) -> Option<
    ShapeError,
> {
    if operand_error(input, weights, bias).is_some() {
        operand_error(input, weights, bias)
    } else if output.rows != input.rows || output.cols != weights.cols {
        Some(ShapeError::Output)
    } else {
        None
    }
}

/// Checks the three operands of a linear layer against each other.
pub(crate) fn check_operands(input: &Tensor2D, weights: &Tensor2D, bias: &Tensor2D) -> (res: Option<
    ShapeError,
>)
    ensures
        res == operand_error(input@, weights@, bias@),
{
    if input.cols != weights.rows {
        Some(ShapeError::InnerDimension)
    } else if bias.rows != input.rows || bias.cols != weights.cols {
        Some(ShapeError::Bias)
    } else {
        None
    }
}

/// Checks the operands of a linear layer and the buffer it is to fill.
pub(crate) fn check_linear(input: &Tensor2D, weights: &Tensor2D, bias: &Tensor2D, output: &Tensor2D) -> (res:
    Option<ShapeError>)
    ensures
        res == linear_error(input@, weights@, bias@, output@),
{
    match check_operands(input, weights, bias) {
        Some(e) => Some(e),
        None => {
            if output.rows != input.rows || output.cols != weights.cols {
                Some(ShapeError::Output)
            } else {
                None
            }
        },
    }
}

impl Tensor2D {
    /// The linear layer into a freshly allocated tensor.
    pub fn linear(input: &Tensor2D, weights: &Tensor2D, bias: &Tensor2D) -> (res: Result<Tensor2D, ShapeError>)
        ensures
            match operand_error(input@, weights@, bias@) {
                Some(e) => res == Err::<Tensor2D, ShapeError>(e),
                None => res.is_ok() && res.unwrap()@ == linear_spec(input@, weights@, bias@),
            },
    {
        proof {
            use_type_invariant(bias);
        }
        match check_operands(input, weights, bias) {
            Some(e) => Err(e),
            None => {
                assert(bias.data.len() <= usize::MAX);
                let mut output = Tensor2D::new(0, input.rows, weights.cols);
                let filled = Tensor2D::linear_preallocated(input, weights, bias, &mut output);
                assert(filled.is_ok());
                Ok(output)
            },
        }
    }

    /// The linear layer into a caller-supplied buffer, with the running sum of
    /// each cell kept in the buffer itself.
    ///
    /// Operands or a buffer of the wrong shape are refused and the buffer is left as it was.
    pub fn linear_preallocated(
        input: &Tensor2D,
        weights: &Tensor2D,
        bias: &Tensor2D,
        output: &mut Tensor2D,
    ) -> (res: Result<(), ShapeError>)
        ensures
            match linear_error(input@, weights@, bias@, old(output)@) {
                Some(e) => res == Err::<(), ShapeError>(e) && final(output)@ == old(output)@,
                None => res.is_ok() && final(output)@ == linear_spec(input@, weights@, bias@),
            },
    {
        proof {
            use_type_invariant(input);
            use_type_invariant(weights);
            use_type_invariant(bias);
            use_type_invariant(&*output);
        }
        match check_linear(input, weights, bias, output) {
            Some(e) => {
                return Err(e);
            },
            None => {},
        }
        let rows: usize = input.rows;
        let inner: usize = input.cols;
        let wcols: usize = weights.cols;
        assert(bias.data.len() <= usize::MAX);
        assert(input.data.len() <= usize::MAX);
        assert(weights.data.len() <= usize::MAX);
        let mut r: usize = 0;
        while r < rows
            invariant
                r <= rows,
                rows == input.rows,
                inner == input.cols,
                inner == weights.rows,
                wcols == weights.cols,
                input.data@.len() == rows * inner,
                weights.data@.len() == inner * wcols,
                bias.data@.len() == rows * wcols,
                bias.rows == rows,
                bias.cols == wcols,
                output.data@.len() == rows * wcols,
                output.rows == rows,
                output.cols == wcols,
                rows * wcols <= usize::MAX,
                rows * inner <= usize::MAX,
                inner * wcols <= usize::MAX,
                forall|j: int|
                    0 <= j < r * wcols ==> output.data@[j] == linear_cell(input@, weights@, bias@, j),
            decreases rows - r,
        {
            let mut c: usize = 0;
            while c < wcols
                invariant
                    c <= wcols,
                    r < rows,
                    rows == input.rows,
                    inner == input.cols,
                    inner == weights.rows,
                    wcols == weights.cols,
                    input.data@.len() == rows * inner,
                    weights.data@.len() == inner * wcols,
                    bias.data@.len() == rows * wcols,
                    bias.rows == rows,
                    bias.cols == wcols,
                    output.data@.len() == rows * wcols,
                    output.rows == rows,
                    output.cols == wcols,
                    rows * wcols <= usize::MAX,
                    rows * inner <= usize::MAX,
                    inner * wcols <= usize::MAX,
                    forall|j: int|
                        0 <= j < r * wcols + c ==> output.data@[j] == linear_cell(
                            input@,
                            weights@,
                            bias@,
                            j,
                        ),
                decreases wcols - c,
            {
                proof {
                    lemma_cell_index(r as int, c as int, rows as int, wcols as int);
                }
                let idx: usize = offset(r, c, wcols);
                output.data[idx] = 0;
                let mut k: usize = 0;
                while k < inner
                    invariant
                        k <= inner,
                        r < rows,
                        c < wcols,
                        idx == r * wcols + c,
                        idx < rows * wcols,
                        rows == input.rows,
                        inner == input.cols,
                        inner == weights.rows,
                        wcols == weights.cols,
                        input.data@.len() == rows * inner,
                        weights.data@.len() == inner * wcols,
                        output.data@.len() == rows * wcols,
                        output.rows == rows,
                        output.cols == wcols,
                        rows * wcols <= usize::MAX,
                        rows * inner <= usize::MAX,
                        inner * wcols <= usize::MAX,
                        output.data@[idx as int] == dot_prefix(input@, weights@, r as int, c as int, k as nat),
                        forall|j: int|
                            0 <= j < idx ==> output.data@[j] == linear_cell(input@, weights@, bias@, j),
                    decreases inner - k,
                {
                    proof {
                        lemma_cell_index(r as int, k as int, rows as int, inner as int);
                        lemma_cell_index(k as int, c as int, inner as int, wcols as int);
                    }
                    let a: i64 = input.data[offset(r, k, inner)];
                    let w: i64 = weights.data[offset(k, c, wcols)];
                    output.data[idx] = add_fixed(output.data[idx], mul_fixed(a, w));
                    k += 1;
                }
                output.data[idx] = add_fixed(output.data[idx], bias.data[idx]);
                c += 1;
            }
            proof {
                assert((r + 1) * wcols == r * wcols + wcols) by (nonlinear_arith);
            }
            r += 1;
        }
        assert(output.data@ =~= linear_spec(input@, weights@, bias@).data);
        Ok(())
    }

    /// The linear layer into a caller-supplied buffer, with the running sum kept in
    /// the buffer and every buffer offset computed in the loop body itself.
    ///
    /// Operands or a buffer of the wrong shape are refused and the buffer is left as it was.
    #[inline(always)]
    #[verifier::loop_isolation(false)]
    pub fn linear_preallocated_inline(
        input: &Tensor2D,
        weights: &Tensor2D,
        bias: &Tensor2D,
        output: &mut Tensor2D,
    ) -> (res: Result<(), ShapeError>)
        ensures
            match linear_error(input@, weights@, bias@, old(output)@) {
                Some(e) => res == Err::<(), ShapeError>(e) && final(output)@ == old(output)@,
                None => res.is_ok() && final(output)@ == linear_spec(input@, weights@, bias@),
            },
    {
        proof {
            use_type_invariant(input);
            use_type_invariant(weights);
            use_type_invariant(bias);
            use_type_invariant(&*output);
        }
        match check_linear(input, weights, bias, output) {
            Some(e) => {
                return Err(e);
            },
            None => {},
        }
        let rows: usize = input.rows;
        let inner: usize = input.cols;
        let wcols: usize = weights.cols;
        assert(bias.data.len() <= usize::MAX);
        assert(input.data.len() <= usize::MAX);
        assert(weights.data.len() <= usize::MAX);
        let mut r: usize = 0;
        while r < rows
            invariant
                r <= rows,
                output.data@.len() == rows * wcols,
                output.rows == rows,
                output.cols == wcols,
                forall|j: int|
                    0 <= j < r * wcols ==> output.data@[j] == linear_cell(input@, weights@, bias@, j),
            decreases rows - r,
        {
            let mut c: usize = 0;
            while c < wcols
                invariant
                    c <= wcols,
                    r < rows,
                    output.data@.len() == rows * wcols,
                    output.rows == rows,
                    output.cols == wcols,
                    forall|j: int|
                        0 <= j < r * wcols + c ==> output.data@[j] == linear_cell(
                            input@,
                            weights@,
                            bias@,
                            j,
                        ),
                decreases wcols - c,
            {
                proof {
                    lemma_cell_index(r as int, c as int, rows as int, wcols as int);
                    lemma_product_nonnegative(r as int, wcols as int);
                }
                output.data[r * wcols + c] = 0;
                let mut k: usize = 0;
                while k < inner
                    invariant
                        k <= inner,
                        r < rows,
                        c < wcols,
                        output.data@.len() == rows * wcols,
                        output.rows == rows,
                        output.cols == wcols,
                        output.data@[r * wcols + c] == dot_prefix(input@, weights@, r as int, c as int, k as nat),
                        forall|j: int|
                            0 <= j < r * wcols + c ==> output.data@[j] == linear_cell(
                                input@,
                                weights@,
                                bias@,
                                j,
                            ),
                    decreases inner - k,
                {
                    proof {
                        lemma_cell_index(r as int, k as int, rows as int, inner as int);
                        lemma_cell_index(k as int, c as int, inner as int, wcols as int);
                        lemma_product_nonnegative(r as int, inner as int);
                        lemma_product_nonnegative(k as int, wcols as int);
                    }
                    output.data[r * wcols + c] = add_fixed(
                        output.data[r * wcols + c],
                        mul_fixed(input.data[r * inner + k], weights.data[k * wcols + c]),
                    );
                    k += 1;
                }
                output.data[r * wcols + c] = add_fixed(output.data[r * wcols + c], bias.data[r * wcols + c]);
                c += 1;
            }
            proof {
                assert((r + 1) * wcols == r * wcols + wcols) by (nonlinear_arith);
            }
            r += 1;
        }
        assert(output.data@ =~= linear_spec(input@, weights@, bias@).data);
        Ok(())
    }

    /// The linear layer into a caller-supplied buffer, with the running sum of each
    /// cell kept in a local scalar and stored once.
    ///
    /// Operands or a buffer of the wrong shape are refused and the buffer is left as it was.
    #[verifier::loop_isolation(false)]
    pub fn linear_local_accumulation(
        input: &Tensor2D,
        weights: &Tensor2D,
        bias: &Tensor2D,
        output: &mut Tensor2D,
    ) -> (res: Result<(), ShapeError>)
        ensures
            match linear_error(input@, weights@, bias@, old(output)@) {
                Some(e) => res == Err::<(), ShapeError>(e) && final(output)@ == old(output)@,
                None => res.is_ok() && final(output)@ == linear_spec(input@, weights@, bias@),
            },
    {
        proof {
            use_type_invariant(input);
            use_type_invariant(weights);
            use_type_invariant(bias);
            use_type_invariant(&*output);
        }
        match check_linear(input, weights, bias, output) {
            Some(e) => {
                return Err(e);
            },
            None => {},
        }
        let rows: usize = input.rows;
        let wcols: usize = weights.cols;
        assert(bias.data.len() <= usize::MAX);
        let mut r: usize = 0;
        while r < rows
            invariant
                r <= rows,
                output.data@.len() == rows * wcols,
                output.rows == rows,
                output.cols == wcols,
                forall|j: int|
                    0 <= j < r * wcols ==> output.data@[j] == linear_cell(input@, weights@, bias@, j),
            decreases rows - r,
        {
            let mut c: usize = 0;
            while c < wcols
                invariant
                    c <= wcols,
                    r < rows,
                    output.data@.len() == rows * wcols,
                    output.rows == rows,
                    output.cols == wcols,
                    forall|j: int|
                        0 <= j < r * wcols + c ==> output.data@[j] == linear_cell(
                            input@,
                            weights@,
                            bias@,
                            j,
                        ),
                decreases wcols - c,
            {
                proof {
                    lemma_cell_index(r as int, c as int, rows as int, wcols as int);
                }
                let idx: usize = offset(r, c, wcols);
                let acc: i64 = dot_local(input, weights, r, c);
                output.data[idx] = add_fixed(acc, bias.data[idx]);
                c += 1;
            }
            proof {
                assert((r + 1) * wcols == r * wcols + wcols) by (nonlinear_arith);
            }
            r += 1;
        }
        assert(output.data@ =~= linear_spec(input@, weights@, bias@).data);
        Ok(())
    }

    /// The linear layer into a caller-supplied buffer, with a local running sum and
    /// buffer offsets that advance by addition, so the innermost loop multiplies
    /// only scalars.
    ///
    /// Operands or a buffer of the wrong shape are refused and the buffer is left as it was.
    #[verifier::loop_isolation(false)]
    pub fn linear_optimized(
        input: &Tensor2D,
        weights: &Tensor2D,
        bias: &Tensor2D,
        output: &mut Tensor2D,
    ) -> (res: Result<(), ShapeError>)
        ensures
            match linear_error(input@, weights@, bias@, old(output)@) {
                Some(e) => res == Err::<(), ShapeError>(e) && final(output)@ == old(output)@,
                None => res.is_ok() && final(output)@ == linear_spec(input@, weights@, bias@),
            },
    {
        proof {
            use_type_invariant(input);
            use_type_invariant(weights);
            use_type_invariant(bias);
            use_type_invariant(&*output);
        }
        match check_linear(input, weights, bias, output) {
            Some(e) => {
                return Err(e);
            },
            None => {},
        }
        let rows: usize = input.rows;
        let inner: usize = input.cols;
        let wcols: usize = weights.cols;
        assert(bias.data.len() <= usize::MAX);
        assert(input.data.len() <= usize::MAX);
        let mut r: usize = 0;
        let mut idx: usize = 0;
        let mut row_start: usize = 0;
        while r < rows
            invariant
                r <= rows,
                idx == r * wcols,
                row_start == r * inner,
                output.data@.len() == rows * wcols,
                output.rows == rows,
                output.cols == wcols,
                forall|j: int| 0 <= j < idx ==> output.data@[j] == linear_cell(input@, weights@, bias@, j),
            decreases rows - r,
        {
            let mut c: usize = 0;
            while c < wcols
                invariant
                    c <= wcols,
                    r < rows,
                    idx == r * wcols + c,
                    output.data@.len() == rows * wcols,
                    output.rows == rows,
                    output.cols == wcols,
                    forall|j: int|
                        0 <= j < idx ==> output.data@[j] == linear_cell(input@, weights@, bias@, j),
                decreases wcols - c,
            {
                proof {
                    lemma_cell_index(r as int, c as int, rows as int, wcols as int);
                }
                let acc: i64 = dot_running(input, weights, r, c, row_start);
                output.data[idx] = add_fixed(acc, bias.data[idx]);
                idx += 1;
                c += 1;
            }
            proof {
                assert((r + 1) * wcols == r * wcols + wcols) by (nonlinear_arith);
                assert((r + 1) * inner == r * inner + inner) by (nonlinear_arith);
                assert((r + 1) * inner <= rows * inner) by (nonlinear_arith)
                    requires
                        r + 1 <= rows,
                        0 <= inner,
                ;
            }
            row_start += inner;
            r += 1;
        }
        assert(output.data@ =~= linear_spec(input@, weights@, bias@).data);
        Ok(())
    }
}

/// A product of two non-negative numbers is non-negative.
pub(crate) proof fn lemma_product_nonnegative(a: int, b: int)
    requires
        0 <= a,
        0 <= b,
    ensures
        0 <= a * b,
{
    assert(0 <= a * b) by (nonlinear_arith)
        requires
            0 <= a,
            0 <= b,
    ;
}

/// The dot product of row `r` of `input` and column `c` of `weights`, kept in a local scalar.
#[inline]
#[verifier::loop_isolation(false)]
pub(crate) fn dot_local(input: &Tensor2D, weights: &Tensor2D, r: usize, c: usize) -> (acc: i64)
    requires
        input@.wf(),
        weights@.wf(),
        input@.cols == weights@.rows,
        r < input@.rows,
        c < weights@.cols,
    ensures
        acc == dot_prefix(input@, weights@, r as int, c as int, input@.cols),
{
    let inner: usize = input.cols;
    let wcols: usize = weights.cols;
    assert(input.data.len() <= usize::MAX);
    assert(weights.data.len() <= usize::MAX);
    let mut acc: i64 = 0;
    let mut k: usize = 0;
    while k < inner
        invariant
            k <= inner,
            inner == input.cols,
            wcols == weights.cols,
            inner == weights.rows,
            r < input.rows,
            c < wcols,
            input.data@.len() == input.rows * inner,
            weights.data@.len() == inner * wcols,
            acc == dot_prefix(input@, weights@, r as int, c as int, k as nat),
        decreases inner - k,
    {
        proof {
            lemma_cell_index(r as int, k as int, input.rows as int, inner as int);
            lemma_cell_index(k as int, c as int, inner as int, wcols as int);
        }
        acc = add_fixed(acc, mul_fixed(input.data[offset(r, k, inner)], weights.data[offset(k, c, wcols)]));
        k += 1;
    }
    acc
}

/// The dot product of the input row that starts at buffer offset `row_start` and
/// column `c` of `weights`, walking both buffers by addition.
#[inline]
#[verifier::loop_isolation(false)]
pub(crate) fn dot_running(input: &Tensor2D, weights: &Tensor2D, r: usize, c: usize, row_start: usize) -> (acc:
    i64)
    requires
        input@.wf(),
        weights@.wf(),
        input@.cols == weights@.rows,
        r < input@.rows,
        c < weights@.cols,
        row_start == r * input@.cols,
    ensures
        acc == dot_prefix(input@, weights@, r as int, c as int, input@.cols),
{
    let inner: usize = input.cols;
    let wcols: usize = weights.cols;
    assert(input.data.len() <= usize::MAX);
    assert(weights.data.len() <= usize::MAX);
    let mut acc: i64 = 0;
    let mut k: usize = 0;
    let mut a_idx: usize = row_start;
    let mut w_idx: usize = c;
    while k < inner
        invariant
            k <= inner,
            inner == input.cols,
            wcols == weights.cols,
            inner == weights.rows,
            r < input.rows,
            c < wcols,
            input.data@.len() == input.rows * inner,
            weights.data@.len() == inner * wcols,
            a_idx == r * inner + k,
            k < inner ==> w_idx == k * wcols + c,
            acc == dot_prefix(input@, weights@, r as int, c as int, k as nat),
        decreases inner - k,
    {
        proof {
            lemma_cell_index(r as int, k as int, input.rows as int, inner as int);
            lemma_cell_index(k as int, c as int, inner as int, wcols as int);
        }
        acc = add_fixed(acc, mul_fixed(input.data[a_idx], weights.data[w_idx]));
        k += 1;
        a_idx += 1;
        if k < inner {
            proof {
                lemma_cell_index(k as int, c as int, inner as int, wcols as int);
                assert(k * wcols == (k - 1) * wcols + wcols) by (nonlinear_arith);
            }
            w_idx += wcols;
        }
    }
    acc
}

} // verus!
