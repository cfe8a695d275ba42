//! Fused kernels: the linear layer followed by rectification, and by
//! normalization, in one pass over the output, with the unfused pipeline kept
//! beside them as a baseline.

use crate::shared::fixed::{add_fixed, rectify};
use crate::shared::linear::{check_linear, dot_local, dot_running, linear_error, linear_spec};
use crate::shared::relu::relu_spec;
use crate::shared::softmax::{softmax_cell, softmax_spec};
use crate::shared::tensor2d::{lemma_cell_index, offset, Matrix, ShapeError, Tensor2D};
use vstd::prelude::*;

verus! {

/// The linear layer followed by rectification.
pub open spec fn linear_relu_spec(input: Matrix, weights: Matrix, bias: Matrix) -> Matrix {
    relu_spec(linear_spec(input, weights, bias))
}

/// The linear layer followed by rectification and normalization.
pub open spec fn linear_relu_softmax_spec(input: Matrix, weights: Matrix, bias: Matrix) -> Matrix {
    softmax_spec(relu_spec(linear_spec(input, weights, bias)))
}

impl Tensor2D {
    /// Linear layer and rectification in one pass, with a local running sum:
    /// each cell is stored once, already rectified.
    ///
    /// Operands or a buffer of the wrong shape are refused and the buffer is left as it was.
    #[verifier::loop_isolation(false)]
    pub fn linear_local_accumulation_relu(
        input: &Tensor2D,
        weights: &Tensor2D,
        bias: &Tensor2D,
        output: &mut Tensor2D,
    ) -> (res: Result<(), ShapeError>)
        ensures
            match linear_error(input@, weights@, bias@, old(output)@) {
                Some(e) => res == Err::<(), ShapeError>(e) && final(output)@ == old(output)@,
                None => res.is_ok() && final(output)@ == linear_relu_spec(input@, weights@, bias@),
            },
    {
        proof {
            use_type_invariant(input);
            use_type_invariant(weights);
            use_type_invariant(bias);
            use_type_invariant(&*output);
        }
        match check_linear(input, weights, bias, output) {
            Some(e) => {
                return Err(e);
            },
            None => {},
        }
        let rows: usize = input.rows;
        let wcols: usize = weights.cols;
        let ghost mid = linear_relu_spec(input@, weights@, bias@);
        assert(bias.data.len() <= usize::MAX);
        let mut r: usize = 0;
        while r < rows
            invariant
                r <= rows,
                output.data@.len() == rows * wcols,
                output.rows == rows,
                output.cols == wcols,
                forall|j: int| 0 <= j < r * wcols ==> output.data@[j] == mid.data[j],
            decreases rows - r,
        {
            let mut c: usize = 0;
            while c < wcols
                invariant
                    c <= wcols,
                    r < rows,
                    output.data@.len() == rows * wcols,
                    output.rows == rows,
                    output.cols == wcols,
                    forall|j: int| 0 <= j < r * wcols + c ==> output.data@[j] == mid.data[j],
                decreases wcols - c,
            {
                proof {
                    lemma_cell_index(r as int, c as int, rows as int, wcols as int);
                }
                let idx: usize = offset(r, c, wcols);
                let acc: i64 = dot_local(input, weights, r, c);
                output.data[idx] = rectify(add_fixed(acc, bias.data[idx]));
                assert(output.data@[idx as int] == mid.data[idx as int]);
                c += 1;
            }
            proof {
                assert((r + 1) * wcols == r * wcols + wcols) by (nonlinear_arith);
            }
            r += 1;
        }
        assert(output.data@ =~= mid.data);
        Ok(())
    }

    /// Linear layer and rectification in one pass, with a local running sum and
    /// buffer offsets that advance by addition.
    ///
    /// Operands or a buffer of the wrong shape are refused and the buffer is left as it was.
    #[verifier::loop_isolation(false)]
    pub fn linear_optimized_relu(
        input: &Tensor2D,
        weights: &Tensor2D,
        bias: &Tensor2D,
        output: &mut Tensor2D,
    ) -> (res: Result<(), ShapeError>)
        ensures
            match linear_error(input@, weights@, bias@, old(output)@) {
                Some(e) => res == Err::<(), ShapeError>(e) && final(output)@ == old(output)@,
                None => res.is_ok() && final(output)@ == linear_relu_spec(input@, weights@, bias@),
            },
    {
        proof {
            use_type_invariant(input);
            use_type_invariant(weights);
            use_type_invariant(bias);
            use_type_invariant(&*output);
        }
        match check_linear(input, weights, bias, output) {
            Some(e) => {
                return Err(e);
            },
            None => {},
        }
        let rows: usize = input.rows;
        let inner: usize = input.cols;
        let wcols: usize = weights.cols;
        let ghost mid = linear_relu_spec(input@, weights@, bias@);
        assert(bias.data.len() <= usize::MAX);
        assert(input.data.len() <= usize::MAX);
        let mut r: usize = 0;
        let mut idx: usize = 0;
        let mut row_start: usize = 0;
        while r < rows
            invariant
                r <= rows,
                idx == r * wcols,
                row_start == r * inner,
                output.data@.len() == rows * wcols,
                output.rows == rows,
                output.cols == wcols,
                forall|j: int| 0 <= j < idx ==> output.data@[j] == mid.data[j],
            decreases rows - r,
        {
            let mut c: usize = 0;
            while c < wcols
                invariant
                    c <= wcols,
                    r < rows,
                    idx == r * wcols + c,
                    output.data@.len() == rows * wcols,
                    output.rows == rows,
                    output.cols == wcols,
                    forall|j: int| 0 <= j < idx ==> output.data@[j] == mid.data[j],
                decreases wcols - c,
            {
                proof {
                    lemma_cell_index(r as int, c as int, rows as int, wcols as int);
                }
                let acc: i64 = dot_running(input, weights, r, c, row_start);
                output.data[idx] = rectify(add_fixed(acc, bias.data[idx]));
                assert(output.data@[idx as int] == mid.data[idx as int]);
                idx += 1;
                c += 1;
            }
            proof {
                assert((r + 1) * wcols == r * wcols + wcols) by (nonlinear_arith);
                assert((r + 1) * inner == r * inner + inner) by (nonlinear_arith);
                assert((r + 1) * inner <= rows * inner) by (nonlinear_arith)
                    requires
                        r + 1 <= rows,
                        0 <= inner,
                ;
            }
            row_start += inner;
            r += 1;
        }
        assert(output.data@ =~= mid.data);
        Ok(())
    }

    /// Linear layer, rectification and normalization fused: each output row is
    /// computed, rectified and normalized before the next one is touched, and no
    /// intermediate tensor exists.
    ///
    /// Operands or a buffer of the wrong shape are refused and the buffer is left as it was.
    #[verifier::loop_isolation(false)]
    pub fn linear_relu_softmax_fused(
        input: &Tensor2D,
        weights: &Tensor2D,
        bias: &Tensor2D,
        output: &mut Tensor2D,
    ) -> (res: Result<(), ShapeError>)
        ensures
            match linear_error(input@, weights@, bias@, old(output)@) {
                Some(e) => res == Err::<(), ShapeError>(e) && final(output)@ == old(output)@,
                None => res.is_ok() && final(output)@ == linear_relu_softmax_spec(input@, weights@, bias@),
            },
    {
        proof {
            use_type_invariant(input);
            use_type_invariant(weights);
            use_type_invariant(bias);
            use_type_invariant(&*output);
        }
        match check_linear(input, weights, bias, output) {
            Some(e) => {
                return Err(e);
            },
            None => {},
        }
        let rows: usize = input.rows;
        let wcols: usize = weights.cols;
        let ghost mid = linear_relu_spec(input@, weights@, bias@);
        assert(bias.data.len() <= usize::MAX);
        if wcols == 0 {
            assert(rows * wcols == 0) by (nonlinear_arith)
                requires
                    wcols == 0,
            ;
            assert(output.data@ =~= softmax_spec(mid).data);
            return Ok(());
        }
        let mut r: usize = 0;
        while r < rows
            invariant
                r <= rows,
                output.data@.len() == rows * wcols,
                output.rows == rows,
                output.cols == wcols,
                forall|j: int| 0 <= j < r * wcols ==> output.data@[j] == softmax_cell(mid, j),
            decreases rows - r,
        {
            proof {
                lemma_cell_index(r as int, 0, rows as int, wcols as int);
                lemma_cell_index(r as int, wcols - 1, rows as int, wcols as int);
                assert((r + 1) * wcols == r * wcols + wcols) by (nonlinear_arith);
            }
            let start: usize = offset(r, 0, wcols);
            let mut c: usize = 0;
            while c < wcols
                invariant
                    c <= wcols,
                    r < rows,
                    output.data@.len() == rows * wcols,
                    output.rows == rows,
                    output.cols == wcols,
                    forall|j: int| 0 <= j < start ==> output.data@[j] == softmax_cell(mid, j),
                    forall|j: int| start <= j < start + c ==> output.data@[j] == mid.data[j],
                decreases wcols - c,
            {
                proof {
                    lemma_cell_index(r as int, c as int, rows as int, wcols as int);
                }
                let idx: usize = start + c;
                let acc: i64 = dot_local(input, weights, r, c);
                output.data[idx] = rectify(add_fixed(acc, bias.data[idx]));
                assert(output.data@[idx as int] == mid.data[idx as int]);
                c += 1;
            }
            proof {
                assert(output.data@.subrange(start as int, start + wcols) =~= mid.row(r as int));
            }
            output.normalize_row(start);
            proof {
                assert forall|j: int| 0 <= j < (r + 1) * wcols implies output.data@[j] == softmax_cell(mid, j) by {
                    if j >= start {
                        let c = j - start;
                        lemma_cell_index(r as int, c, rows as int, wcols as int);
                        assert(output.data@.subrange(start as int, start + wcols)[c] == output.data@[j]);
                    }
                }
            }
            r += 1;
        }
        assert(output.data@ =~= softmax_spec(mid).data);
        Ok(())
    }

    /// Linear layer, rectification and normalization as three separate passes,
    /// each through a tensor of its own: the baseline the fused kernel is measured against.
    ///
    /// Operands or a buffer of the wrong shape are refused and the buffer is left as it was.
    pub fn linear_relu_softmax_fused_fission(
        input: &Tensor2D,
        weights: &Tensor2D,
        bias: &Tensor2D,
        output: &mut Tensor2D,
    ) -> (res: Result<(), ShapeError>)
        ensures
            match linear_error(input@, weights@, bias@, old(output)@) {
                Some(e) => res == Err::<(), ShapeError>(e) && final(output)@ == old(output)@,
                None => res.is_ok() && final(output)@ == linear_relu_softmax_spec(input@, weights@, bias@),
            },
    {
        proof {
            use_type_invariant(bias);
        }
        match check_linear(input, weights, bias, output) {
            Some(e) => {
                return Err(e);
            },
            None => {},
        }
        assert(bias.data.len() <= usize::MAX);
        let mut summed = Tensor2D::new(0, input.rows, weights.cols);
        let first = Tensor2D::linear_local_accumulation(input, weights, bias, &mut summed);
        assert(first.is_ok());
        let rectified = Tensor2D::relu(&summed);
        Tensor2D::softmax_preallocated(&rectified, output)
    }
}

} // verus!
