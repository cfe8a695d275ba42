//! Rectification: every entry becomes `max(0, x)`.

use crate::shared::fixed::{rectified, rectify};
use crate::shared::tensor2d::{Matrix, ShapeError, Tensor2D};
use vstd::prelude::*;

verus! {

/// The rectified matrix: same shape, every entry `max(0, x)`.
pub open spec fn relu_spec(m: Matrix) -> Matrix {
    Matrix { rows: m.rows, cols: m.cols, data: m.data.map_values(|x: i64| rectified(x)) }
}

impl Tensor2D {
    /// Rectifies into a freshly allocated tensor.
    pub fn relu(input: &Tensor2D) -> (r: Tensor2D)
        ensures
            r@ == relu_spec(input@),
    {
        proof {
            use_type_invariant(input);
        }
        let n: usize = input.data.len();
        let mut data: Vec<i64> = Vec::with_capacity(n);
        let mut i: usize = 0;
        while i < n
            invariant
                i <= n,
                n == input.data@.len(),
                data@.len() == i,
                forall|j: int| 0 <= j < i ==> data@[j] == rectified(input.data@[j]),
            decreases n - i,
        {
            data.push(rectify(input.data[i]));
            i += 1;
        }
        assert(data@ =~= relu_spec(input@).data);
        Tensor2D { rows: input.rows, cols: input.cols, data }
    }

    /// Rectifies into a caller-supplied buffer of the input's shape.
    ///
    /// A buffer of another shape is refused and left as it was.
    pub fn relu_preallocated(input: &Tensor2D, output: &mut Tensor2D) -> (res: Result<(), ShapeError>)
        ensures
            res.is_ok() <==> old(output)@.same_shape(input@),
            res.is_err() ==> res == Err::<(), ShapeError>(ShapeError::Output) && final(output)@ == old(output)@,
            res.is_ok() ==> final(output)@ == relu_spec(input@),
    {
        proof {
            use_type_invariant(input);
            use_type_invariant(&*output);
        }
        if output.rows != input.rows || output.cols != input.cols {
            return Err(ShapeError::Output);
        }
        let n: usize = input.data.len();
        let mut i: usize = 0;
        while i < n
            invariant
                i <= n,
                n == input.data@.len(),
                output.data@.len() == n,
                output.rows == input.rows,
                output.cols == input.cols,
                n == output.rows * output.cols,
                forall|j: int| 0 <= j < i ==> output.data@[j] == rectified(input.data@[j]),
            decreases n - i,
        {
            output.data[i] = rectify(input.data[i]);
            i += 1;
        }
        assert(output.data@ =~= relu_spec(input@).data);
        Ok(())
    }

    /// Rectifies the tensor's own buffer, allocating nothing.
    pub fn relu_inplace(&mut self)
        ensures
            final(self)@ == relu_spec(old(self)@),
    {
        proof {
            use_type_invariant(&*self);
        }
        let n: usize = self.data.len();
        let mut i: usize = 0;
        while i < n
            invariant
                i <= n,
                self.rows == old(self).rows,
                self.cols == old(self).cols,
                self.data@.len() == n,
                n == old(self).data@.len(),
                n == self.rows * self.cols,
                forall|j: int| 0 <= j < i ==> self.data@[j] == rectified(old(self).data@[j]),
                forall|j: int| i <= j < n ==> self.data@[j] == old(self).data@[j],
            decreases n - i,
        {
            self.data[i] = rectify(self.data[i]);
            i += 1;
        }
        assert(self.data@ =~= relu_spec(old(self)@).data);
    }

    /// Rectifies the tensor's own buffer with the comparison written out in the loop,
    /// storing only where an entry changes.
    #[inline(always)]
    pub fn relu_inplace_inline(&mut self)
        ensures
            final(self)@ == relu_spec(old(self)@),
    {
        proof {
            use_type_invariant(&*self);
        }
        let n: usize = self.data.len();
        let mut i: usize = 0;
        while i < n
            invariant
                i <= n,
                self.rows == old(self).rows,
                self.cols == old(self).cols,
                self.data@.len() == n,
                n == old(self).data@.len(),
                n == self.rows * self.cols,
                forall|j: int| 0 <= j < i ==> self.data@[j] == rectified(old(self).data@[j]),
                forall|j: int| i <= j < n ==> self.data@[j] == old(self).data@[j],
            decreases n - i,
        {
            if self.data[i] < 0 {
                self.data[i] = 0;
            }
            i += 1;
        }
        assert(self.data@ =~= relu_spec(old(self)@).data);
    }
}

} // verus!
