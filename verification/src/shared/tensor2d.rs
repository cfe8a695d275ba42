//! The two-dimensional tensor every kernel works on, and its mathematical model.

use crate::shared::fixed::{add_fixed, sat_add};
use vstd::arithmetic::div_mod::lemma_fundamental_div_mod_converse;
use vstd::prelude::*;

verus! {

/// The mathematical value of a tensor: its shape and its entries in row-major order.
pub ghost struct Matrix {
    pub rows: nat,
    pub cols: nat,
    pub data: Seq<i64>,
}

impl Matrix {
    /// The buffer holds exactly one entry per cell.
    pub open spec fn wf(self) -> bool {
        self.data.len() == self.rows * self.cols
    }

    /// The entry in row `r`, column `c`.
    pub open spec fn at(self, r: int, c: int) -> i64 {
        self.data[r * self.cols + c]
    }

    /// Row `r` as a sequence of its own.
    pub open spec fn row(self, r: int) -> Seq<i64> {
        self.data.subrange(r * self.cols, r * self.cols + self.cols)
    }

    /// Two values have the same number of rows and of columns.
    pub open spec fn same_shape(self, other: Matrix) -> bool {
        self.rows == other.rows && self.cols == other.cols
    }

    /// The matrix of the given shape with every entry equal to `value`.
    pub open spec fn filled(value: i64, rows: nat, cols: nat) -> Matrix {
        Matrix { rows, cols, data: Seq::new(rows * cols, |i: int| value) }
    }
}

/// The entries of `s` added up from the first to the last, saturating at each step.
pub open spec fn fold_sum(s: Seq<i64>) -> i64
    decreases s.len(),
{
    if s.len() == 0 {
        0
    } else {
        sat_add(fold_sum(s.drop_last()), s.last())
    }
}

/// A cell of a `rows` by `cols` matrix has a row-major offset inside the buffer,
/// and the offset determines the cell.
pub proof fn lemma_cell_index(r: int, c: int, rows: int, cols: int)
    requires
        0 <= r < rows,
        0 <= c < cols,
    ensures
        0 <= r * cols + c < rows * cols,
        (r * cols + c) / cols == r,
        (r * cols + c) % cols == c,
{
    assert(r * cols + c < rows * cols) by (nonlinear_arith)
        requires
            0 <= r < rows,
            0 <= c < cols,
    ;
    assert(0 <= r * cols) by (nonlinear_arith)
        requires
            0 <= r,
            0 < cols,
    ;
    lemma_fundamental_div_mod_converse(r * cols + c, cols, r, c);
}

/// The row-major offset of a cell in a buffer with `cols` columns.
pub(crate) fn offset(r: usize, c: usize, cols: usize) -> (idx: usize)
    requires
        r * cols + c <= usize::MAX,
    ensures
        idx == r * cols + c,
{
    assert(0 <= r * cols) by (nonlinear_arith)
        requires
            0 <= r,
            0 <= cols,
    ;
    r * cols + c
}

/// Why a kernel refused its operands.
#[derive(Debug, Clone, Copy, PartialEq, Eq, Structural)]
pub enum ShapeError {
    /// The input's column count differs from the weights' row count.
    InnerDimension,
    /// The bias is not shaped like the product of input and weights.
    Bias,
    /// The caller's output buffer is not shaped like the result.
    Output,
}

impl ShapeError {
    /// What went wrong, in words.
    pub open spec fn message_spec(self) -> Seq<char> {
        match self {
            ShapeError::InnerDimension => "the input's columns do not match the weights' rows"@,
            ShapeError::Bias => "the bias is not shaped like the product of input and weights"@,
            ShapeError::Output => "the output buffer is not shaped like the result"@,
        }
    }

    /// What went wrong, in words.
    pub fn message(&self) -> (r: &'static str)
        ensures
            r@ == self.message_spec(),
    {
        match self {
            ShapeError::InnerDimension => "the input's columns do not match the weights' rows",
            ShapeError::Bias => "the bias is not shaped like the product of input and weights",
            ShapeError::Output => "the output buffer is not shaped like the result",
        }
    }
}

/// A dense row-major matrix of fixed-point scalars.
#[derive(Debug)]
pub struct Tensor2D {
    pub(crate) rows: usize,
    pub(crate) cols: usize,
    pub(crate) data: Vec<i64>,
}

impl View for Tensor2D {
    type V = Matrix;

    /// The shape and the entries of the tensor.
    open(crate) spec fn view(&self) -> Matrix {
        Matrix { rows: self.rows as nat, cols: self.cols as nat, data: self.data@ }
    }
}

impl Clone for Tensor2D {
    /// An independent copy.
    fn clone(&self) -> (r: Tensor2D)
        ensures
            r@ == self@,
    {
        proof {
            use_type_invariant(self);
        }
        let n: usize = self.data.len();
        let mut data: Vec<i64> = Vec::with_capacity(n);
        let mut i: usize = 0;
        while i < n
            invariant
                i <= n,
                n == self.data@.len(),
                data@.len() == i,
                forall|j: int| 0 <= j < i ==> data@[j] == self.data@[j],
            decreases n - i,
        {
            data.push(self.data[i]);
            i += 1;
        }
        assert(data@ =~= self.data@);
        Tensor2D { rows: self.rows, cols: self.cols, data }
    }
}

impl Tensor2D {
    /// The buffer holds exactly one entry per cell, at all times.
    #[verifier::type_invariant]
    pub(crate) open(crate) spec fn inv(self) -> bool {
        self.data@.len() == self.rows * self.cols
    }

    /// A `rows` by `cols` tensor with every entry equal to `value`.
    pub fn new(value: i64, rows: usize, cols: usize) -> (r: Tensor2D)
        requires
            rows * cols <= usize::MAX,
        ensures
            r@ == Matrix::filled(value, rows as nat, cols as nat),
            r@.wf(),
    {
        let n: usize = rows * cols;
        let mut data: Vec<i64> = Vec::new();
        let mut i: usize = 0;
        while i < n
            invariant
                i <= n,
                data@.len() == i,
                forall|j: int| 0 <= j < i ==> data@[j] == value,
            decreases n - i,
        {
            data.push(value);
            i += 1;
        }
        assert(data@ =~= Seq::new((rows as nat) * (cols as nat), |i: int| value));
        Tensor2D { rows, cols, data }
    }

    /// Wraps a row-major buffer, if it holds exactly `rows * cols` entries.
    pub fn from_vec(rows: usize, cols: usize, data: Vec<i64>) -> (r: Option<Tensor2D>)
        ensures
            r.is_some() <==> data@.len() == rows * cols,
            r.is_some() ==> r.unwrap()@ == (Matrix { rows: rows as nat, cols: cols as nat, data: data@ }),
    {
        assert(data.len() <= usize::MAX);
        match rows.checked_mul(cols) {
            Some(n) => {
                if data.len() == n {
                    Some(Tensor2D { rows, cols, data })
                } else {
                    None
                }
            },
            None => None,
        }
    }

    /// Number of rows.
    pub fn rows(&self) -> (r: usize)
        ensures
            r == self@.rows,
    {
        self.rows
    }

    /// Number of columns.
    pub fn cols(&self) -> (r: usize)
        ensures
            r == self@.cols,
    {
        self.cols
    }

    /// The entries in row-major order.
    pub fn data(&self) -> (r: &Vec<i64>)
        ensures
            r@ == self@.data,
            self@.wf(),
    {
        proof {
            use_type_invariant(self);
        }
        &self.data
    }

    /// The entry in row `r`, column `c`, if the cell exists.
    pub fn get(&self, r: usize, c: usize) -> (v: Option<i64>)
        ensures
            v.is_some() <==> r < self@.rows && c < self@.cols,
            v.is_some() ==> v.unwrap() == self@.at(r as int, c as int),
    {
        proof {
            use_type_invariant(self);
        }
        if r < self.rows && c < self.cols {
            proof {
                lemma_cell_index(r as int, c as int, self.rows as int, self.cols as int);
                assert(self.data.len() <= usize::MAX);
            }
            Some(self.data[r * self.cols + c])
        } else {
            None
        }
    }

    /// The reduction over all entries, added in row-major order.
    pub fn sum(&self) -> (r: i64)
        ensures
            r == fold_sum(self@.data),
    {
        let n: usize = self.data.len();
        let mut acc: i64 = 0;
        let mut i: usize = 0;
        while i < n
            invariant
                i <= n,
                n == self.data@.len(),
                acc == fold_sum(self.data@.take(i as int)),
            decreases n - i,
        {
            assert(self.data@.take(i + 1).drop_last() =~= self.data@.take(i as int));
            acc = add_fixed(acc, self.data[i]);
            i += 1;
        }
        assert(self.data@.take(n as int) =~= self.data@);
        acc
    }
}

} // verus!
