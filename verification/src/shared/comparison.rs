//! Comparison of a candidate's output with a reference: a mean squared error
//! and an element-wise check against a tolerance. A divergence is reported as
//! a value, never as a failure.

use crate::shared::fixed::{mul_fixed, sat_mul, sat_sub, sub_fixed, trunc_div, ONE};
use crate::shared::sums::total;
use vstd::prelude::*;

verus! {

/// The tolerance of [`are_vectors_equivalent`]: 0.00001.
pub const EPSILON: i64 = 10_000_000;

/// Two sequences have the same length and differ by at most `epsilon` at every position.
pub open spec fn close(a: Seq<i64>, b: Seq<i64>, epsilon: int) -> bool {
    &&& a.len() == b.len()
    &&& forall|i: int| 0 <= i < a.len() ==> -epsilon <= #[trigger] a[i] - b[i] <= epsilon
}

/// The squared difference at every position, as a fixed-point product.
pub open spec fn squared_errors(a: Seq<i64>, b: Seq<i64>) -> Seq<int> {
    Seq::new(a.len(), |i: int| sat_mul(sat_sub(a[i], b[i]), sat_sub(a[i], b[i])) as int)
}

/// A fixed-point square is never negative.
pub proof fn lemma_square_nonnegative(d: i64)
    ensures
        0 <= sat_mul(d, d),
{
    let p = d * d;
    assert(0 <= p) by (nonlinear_arith)
        requires
            p == d * d,
    ;
    assert(0 <= p / (ONE as int)) by (nonlinear_arith)
        requires
            0 <= p,
            ONE == 1_000_000_000_000,
    ;
    assert(trunc_div(p, ONE as int) >= 0);
}

/// Whether two vectors have the same length and differ by at most `epsilon` at every position.
pub fn within_tolerance(a: &Vec<i64>, b: &Vec<i64>, epsilon: i64) -> (r: bool)
    ensures
        r == close(a@, b@, epsilon as int),
{
    if a.len() != b.len() {
        return false;
    }
    let n: usize = a.len();
    let mut i: usize = 0;
    while i < n
        invariant
            i <= n,
            n == a@.len(),
            n == b@.len(),
            forall|j: int| 0 <= j < i ==> -epsilon <= #[trigger] a@[j] - b@[j] <= epsilon,
        decreases n - i,
    {
        let d: i128 = a[i] as i128 - b[i] as i128;
        if d > epsilon as i128 || d < -(epsilon as i128) {
            assert(!(-epsilon <= a@[i as int] - b@[i as int] <= epsilon));
            return false;
        }
        i += 1;
    }
    true
}

/// Whether two vectors agree element by element within [`EPSILON`].
pub fn are_vectors_equivalent(a: &Vec<i64>, b: &Vec<i64>) -> (r: bool)
    ensures
        r == close(a@, b@, EPSILON as int),
{
    within_tolerance(a, b, EPSILON)
}

/// The mean of the squared differences of two vectors of one length, rounded
/// down; `None` if the lengths differ or the vectors are empty.
pub fn mean_square_error(a: &Vec<i64>, b: &Vec<i64>) -> (r: Option<i64>)
    ensures
        r.is_some() <==> a@.len() == b@.len() && a@.len() > 0,
        r.is_some() ==> r.unwrap() == total(squared_errors(a@, b@)) / (a@.len() as int),
{
    if a.len() != b.len() || a.len() == 0 {
        return None;
    }
    let n: usize = a.len();
    let ghost sq = squared_errors(a@, b@);
    let mut sum: u128 = 0;
    let mut i: usize = 0;
    while i < n
        invariant
            i <= n,
            n == a@.len(),
            n == b@.len(),
            sq == squared_errors(a@, b@),
            sum == total(sq.take(i as int)),
            sum <= i * 0x7fff_ffff_ffff_ffff,
        decreases n - i,
    {
        let d: i64 = sub_fixed(a[i], b[i]);
        let term: i64 = mul_fixed(d, d);
        proof {
            lemma_square_nonnegative(d);
            assert(sq.take(i + 1).drop_last() =~= sq.take(i as int));
            assert(sq[i as int] == term);
        }
        sum = sum + term as u128;
        i += 1;
    }
    proof {
        assert(sq.take(n as int) =~= sq);
    }
    let mean: u128 = sum / (n as u128);
    proof {
        let s = sum as int;
        let m = n as int;
        assert(s / m <= 0x7fff_ffff_ffff_ffff) by (nonlinear_arith)
            requires
                0 <= s <= m * 0x7fff_ffff_ffff_ffff,
                m > 0,
        ;
    }
    Some(mean as i64)
}

} // verus!
