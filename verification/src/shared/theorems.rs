//! What holds of the kernels whatever their operands.

use crate::shared::comparison::close;
use crate::shared::fixed::ONE;
use crate::shared::fused::{linear_relu_softmax_spec, linear_relu_spec};
use crate::shared::fixed::sat_mul;
use crate::shared::linear::{dot_prefix, linear_spec, operand_error};
use crate::shared::relu::relu_spec;
use crate::shared::softmax::{
    lemma_softmax_keeps_order, lemma_softmax_row_sum, lemma_softmax_shift, softmax_row, softmax_spec,
    widened,
};
use crate::shared::sums::total;
use crate::shared::sums::lemma_total_nonnegative;
use crate::shared::tensor2d::{fold_sum, lemma_cell_index, Matrix};
use vstd::prelude::*;

verus! {

/// The linear layer of well-formed, fitting operands is a well-formed matrix
/// with the input's rows and the weights' columns.
pub proof fn lemma_linear_shape(input: Matrix, weights: Matrix, bias: Matrix)
    requires
        operand_error(input, weights, bias).is_none(),
    ensures
        linear_spec(input, weights, bias).wf(),
        linear_spec(input, weights, bias).same_shape(bias),
{
}

/// Two linear strategies given the same operands return the same tensor, entry
/// for entry, and therefore tensors that agree within every tolerance.
///
/// `first` and `second` stand for the outputs of any two strategies, each of
/// which returns exactly the linear layer of its operands.
pub proof fn lemma_linear_strategies_agree(
    input: Matrix,
    weights: Matrix,
    bias: Matrix,
    first: Matrix,
    second: Matrix,
    epsilon: int,
)
    requires
        first == linear_spec(input, weights, bias),
        second == linear_spec(input, weights, bias),
        0 <= epsilon,
    ensures
        first == second,
        close(first.data, second.data, epsilon),
{
}

/// A fused kernel returns what the unfused kernels return when applied one
/// after the other, entry for entry, and therefore within every tolerance.
pub proof fn lemma_fused_is_sequential(input: Matrix, weights: Matrix, bias: Matrix, epsilon: int)
    requires
        0 <= epsilon,
    ensures
        linear_relu_spec(input, weights, bias) == relu_spec(linear_spec(input, weights, bias)),
        linear_relu_softmax_spec(input, weights, bias) == softmax_spec(
            relu_spec(linear_spec(input, weights, bias)),
        ),
        linear_relu_softmax_spec(input, weights, bias) == softmax_spec(linear_relu_spec(input, weights, bias)),
        close(
            linear_relu_softmax_spec(input, weights, bias).data,
            softmax_spec(relu_spec(linear_spec(input, weights, bias))).data,
            epsilon,
        ),
{
}

/// Rectification and normalization keep the shape of their operand and the
/// size of its buffer, so an in-place variant leaves its buffer's shape as it
/// was and holds what the allocating variant returns.
pub proof fn lemma_elementwise_keeps_shape(m: Matrix)
    requires
        m.wf(),
    ensures
        relu_spec(m).same_shape(m),
        relu_spec(m).wf(),
        softmax_spec(m).same_shape(m),
        softmax_spec(m).wf(),
{
}

/// Row `r` of a normalized matrix is the normalized row `r`.
pub proof fn lemma_softmax_rows(m: Matrix, r: int)
    requires
        m.wf(),
        0 <= r < m.rows,
    ensures
        softmax_spec(m).row(r) == softmax_row(m.row(r)),
{
    let out = softmax_spec(m);
    if m.cols > 0 {
        lemma_cell_index(r, m.cols - 1, m.rows as int, m.cols as int);
        assert forall|c: int| 0 <= c < m.cols implies out.row(r)[c] == softmax_row(m.row(r))[c] by {
            lemma_cell_index(r, c, m.rows as int, m.cols as int);
        }
    } else {
        assert(r * 0 == 0) by (nonlinear_arith);
    }
    assert(out.row(r) =~= softmax_row(m.row(r)));
}

/// The widest row whose rounded shares are sure to add up to 1.0 within the
/// tolerance of 0.000001: each share may fall short by less than one unit of
/// 10^-12.
pub const WIDEST_ROW_WITHIN_TOLERANCE: usize = 1_000_000;

/// Every row of a normalized matrix with at least one column adds up to at
/// most 1.0, and to no less than 1.0 minus one unit of 10^-12 for each of its
/// entries; every entry lies between 0.0 and 1.0, whatever the magnitude of
/// the operand's entries. For a row of at most a million entries the sum
/// therefore lies within 0.000001 of 1.0.
pub proof fn lemma_softmax_rows_sum_to_one(m: Matrix, r: int)
    requires
        m.wf(),
        0 <= r < m.rows,
        m.cols > 0,
    ensures
        ONE - m.cols <= total(widened(softmax_spec(m).row(r))) <= ONE,
        fold_sum(softmax_spec(m).row(r)) == total(widened(softmax_spec(m).row(r))),
        m.cols <= WIDEST_ROW_WITHIN_TOLERANCE ==> ONE - 1_000_000 <= fold_sum(softmax_spec(m).row(r)) <= ONE,
        forall|c: int| 0 <= c < m.cols ==> 0 <= #[trigger] softmax_spec(m).row(r)[c] <= ONE,
{
    lemma_softmax_rows(m, r);
    lemma_cell_index(r, m.cols - 1, m.rows as int, m.cols as int);
    lemma_softmax_row_sum(m.row(r));
    lemma_fold_sum_exact(softmax_row(m.row(r)));
}

/// Normalization keeps the order within every row: an entry that is not
/// larger than another entry of its row does not get a larger share, and equal
/// entries of a row get equal shares.
pub proof fn lemma_softmax_order(m: Matrix, r: int, p: int, q: int)
    requires
        m.wf(),
        0 <= r < m.rows,
        0 <= p < m.cols,
        0 <= q < m.cols,
        m.at(r, p) <= m.at(r, q),
    ensures
        softmax_spec(m).at(r, p) <= softmax_spec(m).at(r, q),
        m.at(r, p) == m.at(r, q) ==> softmax_spec(m).at(r, p) == softmax_spec(m).at(r, q),
{
    lemma_softmax_rows(m, r);
    lemma_cell_index(r, p, m.rows as int, m.cols as int);
    lemma_cell_index(r, q, m.rows as int, m.cols as int);
    lemma_cell_index(r, m.cols - 1, m.rows as int, m.cols as int);
    let row = m.row(r);
    assert(row[p] == m.at(r, p));
    assert(row[q] == m.at(r, q));
    lemma_softmax_keeps_order(row, p, q);
    assert(softmax_spec(m).row(r)[p] == softmax_spec(m).at(r, p));
    assert(softmax_spec(m).row(r)[q] == softmax_spec(m).at(r, q));
}

/// Normalization does not see a shift of a row: two matrices of one shape of
/// which every row of the second is the row of the first with one number, the
/// row's own, added to every entry are normalized to the same matrix.
pub proof fn lemma_softmax_rows_shift(a: Matrix, b: Matrix, shifts: Seq<int>)
    requires
        a.wf(),
        b.wf(),
        b.same_shape(a),
        shifts.len() == a.rows,
        forall|r: int, c: int| 0 <= r < a.rows && 0 <= c < a.cols ==> #[trigger] b.at(r, c) == a.at(r, c) + shifts[r],
    ensures
        softmax_spec(b) == softmax_spec(a),
{
    let cols = a.cols as int;
    assert forall|idx: int| 0 <= idx < a.rows * a.cols implies softmax_spec(b).data[idx] == softmax_spec(
        a,
    ).data[idx] by {
        if cols > 0 {
            let r = idx / cols;
            let c = idx % cols;
            assert(0 <= r < a.rows && 0 <= c < cols && idx == r * cols + c) by (nonlinear_arith)
                requires
                    0 <= idx < a.rows * cols,
                    cols > 0,
                    r == idx / cols,
                    c == idx % cols,
            ;
            lemma_cell_index(r, cols - 1, a.rows as int, cols);
            lemma_cell_index(r, 0, a.rows as int, cols);
            let row_a = a.row(r);
            let row_b = b.row(r);
            assert forall|j: int| 0 <= j < row_a.len() implies row_b[j] == row_a[j] + shifts[r] by {
                lemma_cell_index(r, j, a.rows as int, cols);
                assert(row_a[j] == a.at(r, j));
                assert(row_b[j] == b.at(r, j));
            }
            lemma_softmax_shift(row_a, row_b, shifts[r]);
        }
    }
    assert(softmax_spec(b).data =~= softmax_spec(a).data);
}

/// Where no entry is negative and the exact sum fits a scalar, the saturating
/// sum is the exact sum.
pub proof fn lemma_fold_sum_exact(s: Seq<i64>)
    requires
        forall|j: int| 0 <= j < s.len() ==> 0 <= #[trigger] s[j],
        total(widened(s)) <= i64::MAX,
    ensures
        fold_sum(s) == total(widened(s)),
    decreases s.len(),
{
    if s.len() > 0 {
        let front = s.drop_last();
        assert(widened(s).drop_last() =~= widened(front));
        assert(widened(s).last() == s.last());
        assert forall|j: int| 0 <= j < widened(front).len() implies 0 <= #[trigger] widened(front)[j] by {
            assert(front[j] == s[j]);
        }
        lemma_total_nonnegative(widened(front));
        lemma_fold_sum_exact(front);
    }
}

/// The products that make up the output cell in row `r`, column `c`, in the
/// order of the reduction index, as unbounded integers.
pub open spec fn products(input: Matrix, weights: Matrix, r: int, c: int) -> Seq<int> {
    Seq::new(input.cols, |k: int| sat_mul(input.at(r, k), weights.at(k, c)) as int)
}

/// Where no running sum leaves the range of a scalar, saturation plays no
/// part: the dot product is the exact sum of its products, a number that does
/// not depend on the order in which they are added.
pub proof fn lemma_dot_is_exact_sum(input: Matrix, weights: Matrix, r: int, c: int, n: nat)
    requires
        n <= input.cols,
        forall|k: int|
            0 <= k <= n ==> i64::MIN <= #[trigger] total(products(input, weights, r, c).take(k)) <= i64::MAX,
    ensures
        dot_prefix(input, weights, r, c, n) == total(products(input, weights, r, c).take(n as int)),
    decreases n,
{
    let p = products(input, weights, r, c);
    if n > 0 {
        lemma_dot_is_exact_sum(input, weights, r, c, (n - 1) as nat);
        assert(p.take(n as int).drop_last() =~= p.take(n - 1));
        assert(p.take(n as int).last() == p[n - 1]);
        assert(i64::MIN <= total(p.take(n as int)) <= i64::MAX);
        assert(i64::MIN <= total(p.take(n - 1)) <= i64::MAX);
    }
}

} // verus!
