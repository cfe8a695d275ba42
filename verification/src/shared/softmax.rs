//! Normalization: every row becomes a distribution.
//!
//! Each entry is weighted by `e^-(m - x)`, where `m` is the largest entry of its
//! row, so every exponent is at most zero and the largest entry always has
//! weight 1.0. Every weight is divided by the total of the weights and rounded
//! down. Equal entries get equal shares, a larger entry never gets a smaller
//! share, and a row falls short of 1.0 by less than one unit of 10^-12 for
//! each of its entries.

use crate::shared::fixed::{
    distance, exp_neg, exp_neg_fixed, lemma_exp_neg_bounds, lemma_exp_neg_monotone, ONE,
};
use crate::shared::sums::{lemma_total_bounds, lemma_total_prefix, total};
use crate::shared::tensor2d::{lemma_cell_index, Matrix, ShapeError, Tensor2D};
use vstd::prelude::*;

verus! {

/// The first position of the largest entry of a row.
pub open spec fn row_argmax(row: Seq<i64>) -> int
    decreases row.len(),
{
    if row.len() <= 1 {
        0
    } else {
        let best = row_argmax(row.drop_last());
        if row.last() > row[best] {
            row.len() - 1
        } else {
            best
        }
    }
}

/// The largest entry of a non-empty row.
pub open spec fn row_max(row: Seq<i64>) -> i64 {
    row[row_argmax(row)]
}

/// The weight `e^-(m - x)` of every entry of a row.
pub open spec fn exp_weights(row: Seq<i64>) -> Seq<int> {
    Seq::new(row.len(), |j: int| exp_neg(row_max(row) - row[j]))
}

/// Every weight as a share of `whole`, rounded down.
pub open spec fn shares(weights: Seq<int>, whole: int) -> Seq<int> {
    Seq::new(weights.len(), |j: int| weights[j] * ONE / whole)
}

/// The normalized row: every weight as a share of the total of the weights.
pub open spec fn softmax_row(row: Seq<i64>) -> Seq<i64> {
    Seq::new(row.len(), |j: int| shares(exp_weights(row), total(exp_weights(row)))[j] as i64)
}

/// The cell of the normalized matrix at row-major offset `idx`.
pub open spec fn softmax_cell(m: Matrix, idx: int) -> i64 {
    softmax_row(m.row(idx / (m.cols as int)))[idx % (m.cols as int)]
}

/// The matrix with every row normalized.
pub open spec fn softmax_spec(m: Matrix) -> Matrix {
    Matrix { rows: m.rows, cols: m.cols, data: Seq::new(m.rows * m.cols, |idx: int| softmax_cell(m, idx)) }
}

/// The entries of a row as unbounded integers.
pub open spec fn widened(row: Seq<i64>) -> Seq<int> {
    Seq::new(row.len(), |j: int| row[j] as int)
}

/// The first largest entry of a non-empty row is an entry, and no entry exceeds it.
pub proof fn lemma_row_argmax(row: Seq<i64>)
    requires
        row.len() > 0,
    ensures
        0 <= row_argmax(row) < row.len(),
        forall|j: int| 0 <= j < row.len() ==> #[trigger] row[j] <= row_max(row),
    decreases row.len(),
{
    if row.len() > 1 {
        let front = row.drop_last();
        lemma_row_argmax(front);
        assert forall|j: int| 0 <= j < row.len() implies #[trigger] row[j] <= row_max(row) by {
            if j < row.len() - 1 {
                assert(front[j] == row[j]);
                assert(front[row_argmax(front)] == row[row_argmax(front)]);
            }
        }
    }
}

/// Shares rounded down never add up to more than the whole, and fall short of
/// it by less than one unit each: the first `n` shares of non-negative weights,
/// times the whole, lie within the first `n` weights times 1.0 and no more than
/// `n` times the whole below.
pub proof fn lemma_shares_prefix(weights: Seq<int>, whole: int, n: int)
    requires
        whole > 0,
        0 <= n <= weights.len(),
        forall|j: int| 0 <= j < weights.len() ==> 0 <= #[trigger] weights[j],
    ensures
        0 <= total(shares(weights, whole).take(n)),
        total(shares(weights, whole).take(n)) * whole <= total(weights.take(n)) * ONE,
        total(shares(weights, whole).take(n)) * whole >= total(weights.take(n)) * ONE - n * whole,
    decreases n,
{
    if n > 0 {
        lemma_shares_prefix(weights, whole, n - 1);
        let q = shares(weights, whole);
        assert(q.take(n).drop_last() =~= q.take(n - 1));
        assert(weights.take(n).drop_last() =~= weights.take(n - 1));
        let w = weights[n - 1];
        let a = total(q.take(n - 1));
        let b = total(weights.take(n - 1));
        let share = w * ONE / whole;
        assert(q[n - 1] == share);
        let x = w * ONE;
        assert(0 <= x) by (nonlinear_arith)
            requires
                x == w * ONE,
                w >= 0,
        ;
        assert(0 <= share && share * whole <= x && x - whole <= share * whole) by (nonlinear_arith)
            requires
                share == x / whole,
                whole > 0,
                x >= 0,
        ;
        assert((a + share) * whole == a * whole + share * whole) by (nonlinear_arith);
        assert((b + w) * ONE == b * ONE + w * ONE) by (nonlinear_arith);
        assert(n * whole == (n - 1) * whole + whole) by (nonlinear_arith);
    } else {
        assert(0 * whole == 0);
    }
}

/// The weights of a non-empty row lie between 0.0 and 1.0, the first largest
/// entry has weight 1.0, and the total is at least 1.0.
pub proof fn lemma_exp_weights(row: Seq<i64>)
    requires
        row.len() > 0,
    ensures
        forall|j: int| 0 <= j < row.len() ==> 0 <= #[trigger] exp_weights(row)[j] <= ONE,
        exp_weights(row)[row_argmax(row)] == ONE,
        ONE <= total(exp_weights(row)) <= row.len() * ONE,
{
    lemma_row_argmax(row);
    let w = exp_weights(row);
    assert forall|j: int| 0 <= j < row.len() implies 0 <= #[trigger] w[j] <= ONE by {
        assert(row[j] <= row_max(row));
        lemma_exp_neg_bounds(row_max(row) - row[j]);
    }
    lemma_exp_neg_bounds(0);
    lemma_total_bounds(w, ONE as int);
    assert(w[row_argmax(row)] <= total(w));
}

/// The shares of a non-empty row lie between 0.0 and 1.0; they add up to at
/// most 1.0 and to no less than 1.0 minus one unit for each entry.
pub proof fn lemma_row_shares(row: Seq<i64>)
    requires
        row.len() > 0,
    ensures
        forall|j: int|
            0 <= j < row.len() ==> 0 <= #[trigger] shares(exp_weights(row), total(exp_weights(row)))[j] <= ONE,
        ONE - row.len() <= total(shares(exp_weights(row), total(exp_weights(row)))) <= ONE,
{
    lemma_exp_weights(row);
    let w = exp_weights(row);
    let whole = total(w);
    let q = shares(w, whole);
    assert forall|j: int| 0 <= j < row.len() implies 0 <= #[trigger] q[j] <= ONE by {
        let x = w[j];
        let y = x * ONE;
        assert(0 <= y <= whole * ONE) by (nonlinear_arith)
            requires
                0 <= x <= ONE,
                whole >= ONE,
                y == x * ONE,
        ;
        assert(0 <= y / whole <= ONE) by (nonlinear_arith)
            requires
                0 <= y <= whole * ONE,
                whole > 0,
        ;
    }
    let n = row.len() as int;
    lemma_shares_prefix(w, whole, n);
    assert(q.take(n) =~= q);
    assert(w.take(n) =~= w);
    let tq = total(q);
    assert(tq <= ONE && tq >= ONE - n) by (nonlinear_arith)
        requires
            tq * whole <= whole * ONE,
            tq * whole >= whole * ONE - n * whole,
            whole > 0,
    ;
}

/// Every entry of a normalized row lies between 0.0 and 1.0. The entries of a
/// non-empty row add up to at most 1.0, and to no less than 1.0 minus one unit
/// of 10^-12 for each entry.
pub proof fn lemma_softmax_row_sum(row: Seq<i64>)
    requires
        row.len() > 0,
    ensures
        forall|j: int| 0 <= j < row.len() ==> 0 <= #[trigger] softmax_row(row)[j] <= ONE,
        ONE - row.len() <= total(widened(softmax_row(row))) <= ONE,
{
    lemma_row_shares(row);
    let q = shares(exp_weights(row), total(exp_weights(row)));
    assert(widened(softmax_row(row)) =~= q);
}

/// Normalization keeps the order of a row's entries: an entry that is not
/// larger than another does not get a larger share, and equal entries get
/// equal shares.
pub proof fn lemma_softmax_keeps_order(row: Seq<i64>, p: int, q: int)
    requires
        0 <= p < row.len(),
        0 <= q < row.len(),
        row[p] <= row[q],
    ensures
        softmax_row(row)[p] <= softmax_row(row)[q],
        row[p] == row[q] ==> softmax_row(row)[p] == softmax_row(row)[q],
{
    lemma_row_argmax(row);
    lemma_row_shares(row);
    lemma_exp_weights(row);
    let w = exp_weights(row);
    let whole = total(w);
    assert(row[q] <= row_max(row));
    lemma_exp_neg_monotone(row_max(row) - row[q], row_max(row) - row[p]);
    let a = w[p] * ONE;
    let b = w[q] * ONE;
    assert(0 <= a <= b) by (nonlinear_arith)
        requires
            0 <= w[p] <= w[q],
            a == w[p] * ONE,
            b == w[q] * ONE,
    ;
    assert(a / whole <= b / whole) by (nonlinear_arith)
        requires
            0 <= a <= b,
            whole > 0,
    ;
    assert(shares(w, whole)[p] == a / whole);
    assert(shares(w, whole)[q] == b / whole);
}

/// Adding one number to every entry of a row moves its first largest entry
/// with it and leaves its position where it was.
pub proof fn lemma_row_argmax_shift(row: Seq<i64>, shifted: Seq<i64>, c: int)
    requires
        shifted.len() == row.len(),
        forall|j: int| 0 <= j < row.len() ==> shifted[j] == row[j] + c,
    ensures
        row_argmax(shifted) == row_argmax(row),
    decreases row.len(),
{
    if row.len() > 1 {
        let front = row.drop_last();
        let shifted_front = shifted.drop_last();
        assert forall|j: int| 0 <= j < front.len() implies shifted_front[j] == front[j] + c by {
            assert(shifted_front[j] == shifted[j]);
            assert(front[j] == row[j]);
        }
        lemma_row_argmax_shift(front, shifted_front, c);
        lemma_row_argmax(front);
    }
}

/// Normalization does not see a shift: adding one number to every entry of a
/// row changes no share.
pub proof fn lemma_softmax_shift(row: Seq<i64>, shifted: Seq<i64>, c: int)
    requires
        shifted.len() == row.len(),
        forall|j: int| 0 <= j < row.len() ==> shifted[j] == row[j] + c,
    ensures
        softmax_row(shifted) == softmax_row(row),
{
    if row.len() > 0 {
        lemma_row_argmax_shift(row, shifted, c);
        lemma_row_argmax(row);
        assert(exp_weights(shifted) =~= exp_weights(row));
    }
    assert(softmax_row(shifted) =~= softmax_row(row));
}

impl Tensor2D {
    /// The position, within its row, of the first largest entry of the row that
    /// starts at buffer offset `start`.
    pub(crate) fn row_best(&self, start: usize) -> (best: usize)
        requires
            self@.cols > 0,
            start + self@.cols <= self@.data.len(),
        ensures
            best < self@.cols,
            best == row_argmax(self@.data.subrange(start as int, start + self@.cols)),
    {
        let cols: usize = self.cols;
        let ghost row = self.data@.subrange(start as int, start + cols);
        assert(self.data.len() <= usize::MAX);
        let mut best: usize = 0;
        let mut j: usize = 1;
        while j < cols
            invariant
                1 <= j <= cols,
                cols == self.cols,
                start + cols <= self.data@.len(),
                self.data@.len() <= usize::MAX,
                row == self.data@.subrange(start as int, start + cols),
                best < j,
                best == row_argmax(row.take(j as int)),
            decreases cols - j,
        {
            proof {
                assert(row.take(j + 1).drop_last() =~= row.take(j as int));
            }
            if self.data[start + j] > self.data[start + best] {
                best = j;
            }
            j += 1;
        }
        proof {
            assert(row.take(cols as int) =~= row);
        }
        best
    }

    /// Replaces every entry `x` of the row that starts at `start` by its weight
    /// `e^-(top - x)` and returns the total of the weights.
    pub(crate) fn weigh_row(&mut self, start: usize, top: i64) -> (whole: u128)
        requires
            old(self)@.cols > 0,
            start + old(self)@.cols <= old(self)@.data.len(),
            top == row_max(old(self)@.data.subrange(start as int, start + old(self)@.cols)),
        ensures
            final(self)@.same_shape(old(self)@),
            final(self)@.data.len() == old(self)@.data.len(),
            forall|j: int|
                0 <= j < start || start + old(self)@.cols <= j < old(self)@.data.len() ==> final(self)@.data[j]
                    == old(self)@.data[j],
            widened(final(self)@.data.subrange(start as int, start + old(self)@.cols)) == exp_weights(
                old(self)@.data.subrange(start as int, start + old(self)@.cols),
            ),
            whole == total(exp_weights(old(self)@.data.subrange(start as int, start + old(self)@.cols))),
    {
        proof {
            use_type_invariant(&*self);
        }
        let cols: usize = self.cols;
        let ghost row = self.data@.subrange(start as int, start + cols);
        let ghost w = exp_weights(row);
        proof {
            lemma_row_argmax(row);
            lemma_exp_weights(row);
        }
        assert(self.data.len() <= usize::MAX);
        let mut whole: u128 = 0;
        let mut j: usize = 0;
        while j < cols
            invariant
                j <= cols,
                cols == old(self).cols,
                self.cols == cols,
                self.rows == old(self).rows,
                self.data@.len() == old(self).data@.len(),
                self.data@.len() == self.rows * self.cols,
                start + cols <= self.data@.len(),
                self.data@.len() <= usize::MAX,
                row == old(self).data@.subrange(start as int, start + cols),
                w == exp_weights(row),
                top == row_max(row),
                forall|i: int| 0 <= i < row.len() ==> #[trigger] row[i] <= row_max(row),
                forall|i: int| 0 <= i < row.len() ==> 0 <= #[trigger] w[i] <= ONE,
                forall|i: int|
                    0 <= i < start || start + cols <= i < old(self).data@.len() ==> self.data@[i] == old(
                        self,
                    ).data@[i],
                forall|i: int| 0 <= i < j ==> self.data@[start + i] == w[i],
                forall|i: int| j <= i < cols ==> self.data@[start + i] == row[i],
                whole == total(w.take(j as int)),
                whole <= j * 1_000_000_000_000,
            decreases cols - j,
        {
            let x: i64 = self.data[start + j];
            assert(x == row[j as int]);
            let weight: i64 = exp_neg_fixed(distance(top, x));
            proof {
                assert(w.take(j + 1).drop_last() =~= w.take(j as int));
                assert(w[j as int] == weight);
            }
            self.data[start + j] = weight;
            whole = whole + weight as u128;
            j += 1;
        }
        proof {
            assert(w.take(cols as int) =~= w);
            assert(widened(self.data@.subrange(start as int, start + cols)) =~= w);
        }
        whole
    }

    /// Replaces every weight of the row that starts at `start` by its share of
    /// `whole`, rounded down, and returns the total of the shares.
    pub(crate) fn share_row(&mut self, start: usize, whole: u128) -> (given: u64)
        requires
            old(self)@.cols > 0,
            start + old(self)@.cols <= old(self)@.data.len(),
            forall|j: int| start <= j < start + old(self)@.cols ==> 0 <= #[trigger] old(self)@.data[j] <= ONE,
            whole > 0,
            whole == total(widened(old(self)@.data.subrange(start as int, start + old(self)@.cols))),
        ensures
            final(self)@.same_shape(old(self)@),
            final(self)@.data.len() == old(self)@.data.len(),
            forall|j: int|
                0 <= j < start || start + old(self)@.cols <= j < old(self)@.data.len() ==> final(self)@.data[j]
                    == old(self)@.data[j],
            widened(final(self)@.data.subrange(start as int, start + old(self)@.cols)) == shares(
                widened(old(self)@.data.subrange(start as int, start + old(self)@.cols)),
                whole as int,
            ),
            given == total(
                shares(widened(old(self)@.data.subrange(start as int, start + old(self)@.cols)), whole as int),
            ),
            given <= ONE,
    {
        proof {
            use_type_invariant(&*self);
        }
        let cols: usize = self.cols;
        let ghost w = widened(self.data@.subrange(start as int, start + cols));
        let ghost q = shares(w, whole as int);
        proof {
            assert forall|i: int| 0 <= i < w.len() implies 0 <= #[trigger] w[i] <= ONE by {
                assert(w[i] == old(self)@.data[start + i]);
                assert(0 <= old(self)@.data[start + i] <= ONE);
            }
            lemma_shares_prefix(w, whole as int, cols as int);
            assert(q.take(cols as int) =~= q);
            assert(w.take(cols as int) =~= w);
            let tq = total(q);
            let wh = whole as int;
            assert(tq <= ONE) by (nonlinear_arith)
                requires
                    tq * wh <= wh * ONE,
                    wh > 0,
            ;
            assert forall|i: int| 0 <= i < q.len() implies 0 <= #[trigger] q[i] by {
                let x = w[i];
                assert(0 <= (x * ONE) / wh) by (nonlinear_arith)
                    requires
                        0 <= x,
                        wh > 0,
                        ONE == 1_000_000_000_000,
                ;
            }
        }
        assert(self.data.len() <= usize::MAX);
        let mut given: u64 = 0;
        let mut j: usize = 0;
        while j < cols
            invariant
                j <= cols,
                cols == old(self).cols,
                self.cols == cols,
                self.rows == old(self).rows,
                self.data@.len() == old(self).data@.len(),
                self.data@.len() == self.rows * self.cols,
                start + cols <= self.data@.len(),
                self.data@.len() <= usize::MAX,
                whole > 0,
                w == widened(old(self).data@.subrange(start as int, start + cols)),
                q == shares(w, whole as int),
                forall|i: int| 0 <= i < w.len() ==> 0 <= #[trigger] w[i] <= ONE,
                forall|i: int| 0 <= i < q.len() ==> 0 <= #[trigger] q[i],
                total(q) <= ONE,
                forall|i: int|
                    0 <= i < start || start + cols <= i < old(self).data@.len() ==> self.data@[i] == old(
                        self,
                    ).data@[i],
                forall|i: int| 0 <= i < j ==> self.data@[start + i] == q[i],
                forall|i: int| j <= i < cols ==> self.data@[start + i] == w[i],
                given == total(q.take(j as int)),
                given <= ONE,
            decreases cols - j,
        {
            let weight: i64 = self.data[start + j];
            assert(weight == w[j as int]);
            let share: u128 = (weight as u128 * 1_000_000_000_000) / whole;
            proof {
                assert(q[j as int] == share);
                assert(q.take(j + 1).drop_last() =~= q.take(j as int));
                lemma_total_prefix(q, j + 1);
            }
            self.data[start + j] = share as i64;
            given = given + share as u64;
            j += 1;
        }
        proof {
            assert(q.take(cols as int) =~= q);
            assert(widened(self.data@.subrange(start as int, start + cols)) =~= q);
        }
        given
    }

    /// Normalizes, in place, the row whose first entry is at buffer offset `start`.
    pub(crate) fn normalize_row(&mut self, start: usize)
        requires
            old(self)@.cols > 0,
            start + old(self)@.cols <= old(self)@.data.len(),
        ensures
            final(self)@.same_shape(old(self)@),
            final(self)@.data.len() == old(self)@.data.len(),
            forall|j: int|
                0 <= j < start || start + old(self)@.cols <= j < old(self)@.data.len() ==> final(self)@.data[j]
                    == old(self)@.data[j],
            final(self)@.data.subrange(start as int, start + old(self)@.cols) == softmax_row(
                old(self)@.data.subrange(start as int, start + old(self)@.cols),
            ),
    {
        let cols: usize = self.cols;
        let ghost row = self.data@.subrange(start as int, start + cols);
        proof {
            lemma_row_argmax(row);
            lemma_exp_weights(row);
            lemma_row_shares(row);
        }
        let best: usize = self.row_best(start);
        assert(self.data.len() <= usize::MAX);
        let top: i64 = self.data[start + best];
        assert(top == row[best as int]);
        let whole: u128 = self.weigh_row(start, top);
        proof {
            let weighed = self.data@.subrange(start as int, start + cols);
            assert forall|j: int| start <= j < start + cols implies 0 <= #[trigger] self.data@[j] <= ONE by {
                assert(widened(weighed)[j - start] == weighed[j - start]);
                assert(0 <= exp_weights(row)[j - start] <= ONE);
            }
        }
        let given: u64 = self.share_row(start, whole);
        proof {
            let shared = self.data@.subrange(start as int, start + cols);
            let q = shares(exp_weights(row), whole as int);
            assert forall|i: int| 0 <= i < cols implies shared[i] == #[trigger] softmax_row(row)[i] by {
                assert(widened(shared)[i] == shared[i]);
                assert(0 <= q[i] <= ONE);
            }
            assert(shared =~= softmax_row(row));
        }
    }

    /// Normalizes every row into a freshly allocated tensor.
    pub fn softmax(input: &Tensor2D) -> (r: Tensor2D)
        ensures
            r@ == softmax_spec(input@),
    {
        let mut output = input.clone();
        output.softmax_inplace();
        output
    }

    /// Normalizes every row into a caller-supplied buffer of the input's shape.
    ///
    /// A buffer of another shape is refused and left as it was.
    pub fn softmax_preallocated(input: &Tensor2D, output: &mut Tensor2D) -> (res: Result<(), ShapeError>)
        ensures
            res.is_ok() <==> old(output)@.same_shape(input@),
            res.is_err() ==> res == Err::<(), ShapeError>(ShapeError::Output) && final(output)@ == old(output)@,
            res.is_ok() ==> final(output)@ == softmax_spec(input@),
    {
        proof {
            use_type_invariant(input);
            use_type_invariant(&*output);
        }
        if output.rows != input.rows || output.cols != input.cols {
            return Err(ShapeError::Output);
        }
        let n: usize = input.data.len();
        let mut i: usize = 0;
        while i < n
            invariant
                i <= n,
                n == input.data@.len(),
                output.data@.len() == n,
                output.rows == input.rows,
                output.cols == input.cols,
                n == output.rows * output.cols,
                forall|j: int| 0 <= j < i ==> output.data@[j] == input.data@[j],
            decreases n - i,
        {
            output.data[i] = input.data[i];
            i += 1;
        }
        assert(output.data@ =~= input.data@);
        output.softmax_inplace();
        Ok(())
    }

    /// Normalizes every row of the tensor's own buffer, allocating nothing.
    pub fn softmax_inplace(&mut self)
        ensures
            final(self)@ == softmax_spec(old(self)@),
    {
        proof {
            use_type_invariant(&*self);
        }
        let rows: usize = self.rows;
        let cols: usize = self.cols;
        let ghost orig = self@;
        assert(self.data.len() <= usize::MAX);
        if cols == 0 {
            assert(rows * cols == 0) by (nonlinear_arith)
                requires
                    cols == 0,
            ;
            assert(self.data@ =~= softmax_spec(orig).data);
            return ;
        }
        let mut r: usize = 0;
        while r < rows
            invariant
                r <= rows,
                cols > 0,
                orig == old(self)@,
                self.rows == rows,
                self.cols == cols,
                self.data@.len() == rows * cols,
                orig.data.len() == rows * cols,
                orig.rows == rows,
                orig.cols == cols,
                rows * cols <= usize::MAX,
                r * cols <= rows * cols,
                forall|idx: int| 0 <= idx < r * cols ==> self.data@[idx] == softmax_cell(orig, idx),
                forall|idx: int| r * cols <= idx < rows * cols ==> self.data@[idx] == orig.data[idx],
            decreases rows - r,
        {
            proof {
                lemma_cell_index(r as int, cols - 1, rows as int, cols as int);
                assert((r + 1) * cols == r * cols + cols) by (nonlinear_arith);
            }
            let start: usize = r * cols;
            let ghost before = self.data@;
            self.normalize_row(start);
            proof {
                assert(before.subrange(start as int, start + cols) =~= orig.row(r as int));
                assert forall|idx: int| 0 <= idx < (r + 1) * cols implies self.data@[idx] == softmax_cell(
                    orig,
                    idx,
                ) by {
                    if idx >= start {
                        let c = idx - start;
                        lemma_cell_index(r as int, c, rows as int, cols as int);
                        assert(self.data@.subrange(start as int, start + cols)[c] == self.data@[idx]);
                    }
                }
            }
            r += 1;
        }
        assert(self.data@ =~= softmax_spec(orig).data);
    }

    /// Normalizes every row of the tensor's own buffer with all three passes over
    /// a row written out in the loop over the rows.
    #[inline(always)]
    pub fn softmax_inplace_inline(&mut self)
        ensures
            final(self)@ == softmax_spec(old(self)@),
    {
        proof {
            use_type_invariant(&*self);
        }
        let rows: usize = self.rows;
        let cols: usize = self.cols;
        let ghost orig = self@;
        assert(self.data.len() <= usize::MAX);
        if cols == 0 {
            assert(rows * cols == 0) by (nonlinear_arith)
                requires
                    cols == 0,
            ;
            assert(self.data@ =~= softmax_spec(orig).data);
            return ;
        }
        let mut r: usize = 0;
        let mut start: usize = 0;
        while r < rows
            invariant
                r <= rows,
                cols > 0,
                orig == old(self)@,
                self.rows == rows,
                self.cols == cols,
                self.data@.len() == rows * cols,
                orig.data.len() == rows * cols,
                orig.rows == rows,
                orig.cols == cols,
                rows * cols <= usize::MAX,
                start == r * cols,
                forall|idx: int| 0 <= idx < r * cols ==> self.data@[idx] == softmax_cell(orig, idx),
                forall|idx: int| r * cols <= idx < rows * cols ==> self.data@[idx] == orig.data[idx],
            decreases rows - r,
        {
            let ghost before = self.data@;
            let ghost row = before.subrange(start as int, start + cols);
            let ghost w = exp_weights(row);
            proof {
                lemma_cell_index(r as int, cols - 1, rows as int, cols as int);
                assert((r + 1) * cols == r * cols + cols) by (nonlinear_arith);
                assert(row =~= orig.row(r as int));
                lemma_row_argmax(row);
                lemma_exp_weights(row);
                lemma_row_shares(row);
            }
            let mut best: usize = 0;
            let mut j: usize = 1;
            while j < cols
                invariant
                    1 <= j <= cols,
                    r < rows,
                    cols > 0,
                    self.rows == rows,
                    self.cols == cols,
                    self.data@.len() == rows * cols,
                    rows * cols <= usize::MAX,
                    start == r * cols,
                    start + cols <= rows * cols,
                    before.len() == rows * cols,
                    row == before.subrange(start as int, start + cols),
                    self.data@ == before,
                    best < j,
                    best == row_argmax(row.take(j as int)),
                decreases cols - j,
            {
                proof {
                    assert(row.take(j + 1).drop_last() =~= row.take(j as int));
                }
                if self.data[start + j] > self.data[start + best] {
                    best = j;
                }
                j += 1;
            }
            proof {
                assert(row.take(cols as int) =~= row);
            }
            let top: i64 = self.data[start + best];
            let mut whole: u128 = 0;
            j = 0;
            while j < cols
                invariant
                    j <= cols,
                    r < rows,
                    cols > 0,
                    self.rows == rows,
                    self.cols == cols,
                    self.data@.len() == rows * cols,
                    rows * cols <= usize::MAX,
                    start == r * cols,
                    start + cols <= rows * cols,
                    before.len() == rows * cols,
                    row == before.subrange(start as int, start + cols),
                    w == exp_weights(row),
                    top == row_max(row),
                    forall|i: int| 0 <= i < row.len() ==> #[trigger] row[i] <= row_max(row),
                    forall|i: int| 0 <= i < row.len() ==> 0 <= #[trigger] w[i] <= ONE,
                    forall|i: int|
                        0 <= i < start || start + cols <= i < rows * cols ==> self.data@[i] == before[i],
                    forall|i: int| 0 <= i < j ==> self.data@[start + i] == w[i],
                    forall|i: int| j <= i < cols ==> self.data@[start + i] == row[i],
                    whole == total(w.take(j as int)),
                    whole <= j * 1_000_000_000_000,
                decreases cols - j,
            {
                let x: i64 = self.data[start + j];
                assert(x == row[j as int]);
                let weight: i64 = exp_neg_fixed(distance(top, x));
                proof {
                    assert(w.take(j + 1).drop_last() =~= w.take(j as int));
                    assert(w[j as int] == weight);
                }
                self.data[start + j] = weight;
                whole = whole + weight as u128;
                j += 1;
            }
            let ghost q = shares(w, whole as int);
            proof {
                assert(w.take(cols as int) =~= w);
            }
            let mut given: u64 = 0;
            j = 0;
            while j < cols
                invariant
                    j <= cols,
                    r < rows,
                    cols > 0,
                    self.rows == rows,
                    self.cols == cols,
                    self.data@.len() == rows * cols,
                    rows * cols <= usize::MAX,
                    start == r * cols,
                    start + cols <= rows * cols,
                    before.len() == rows * cols,
                    row == before.subrange(start as int, start + cols),
                    whole >= ONE,
                    w == exp_weights(row),
                    whole == total(w),
                    q == shares(w, whole as int),
                    forall|i: int| 0 <= i < row.len() ==> 0 <= #[trigger] w[i] <= ONE,
                    forall|i: int| 0 <= i < row.len() ==> 0 <= #[trigger] q[i] <= ONE,
                    total(q) <= ONE,
                    forall|i: int|
                        0 <= i < start || start + cols <= i < rows * cols ==> self.data@[i] == before[i],
                    forall|i: int| 0 <= i < j ==> self.data@[start + i] == q[i],
                    forall|i: int| j <= i < cols ==> self.data@[start + i] == w[i],
                    given == total(q.take(j as int)),
                    given <= ONE,
                decreases cols - j,
            {
                let weight: i64 = self.data[start + j];
                assert(weight == w[j as int]);
                let share: u128 = (weight as u128 * 1_000_000_000_000) / whole;
                proof {
                    assert(q[j as int] == share);
                    assert(q.take(j + 1).drop_last() =~= q.take(j as int));
                    lemma_total_prefix(q, j + 1);
                }
                self.data[start + j] = share as i64;
                given = given + share as u64;
                j += 1;
            }
            proof {
                assert(q.take(cols as int) =~= q);
                assert forall|i: int| 0 <= i < cols implies self.data@[start + i] == #[trigger] softmax_row(
                    row,
                )[i] by {
                    assert(0 <= q[i] <= ONE);
                }
                assert(self.data@.subrange(start as int, start + cols) =~= softmax_row(row));
                assert forall|idx: int| 0 <= idx < (r + 1) * cols implies self.data@[idx] == softmax_cell(
                    orig,
                    idx,
                ) by {
                    if idx >= start {
                        let c = idx - start;
                        lemma_cell_index(r as int, c, rows as int, cols as int);
                        assert(self.data@.subrange(start as int, start + cols)[c] == self.data@[idx]);
                    }
                }
            }
            start += cols;
            r += 1;
        }
        assert(self.data@ =~= softmax_spec(orig).data);
    }
}

} // verus!
