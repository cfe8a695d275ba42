//! Sums of sequences of unbounded integers, and what holds of them.

use vstd::prelude::*;

verus! {

/// The sum of a sequence of unbounded integers.
pub open spec fn total(s: Seq<int>) -> int
    decreases s.len(),
{
    if s.len() == 0 {
        0
    } else {
        total(s.drop_last()) + s.last()
    }
}

/// A sum of entries between zero and `hi` lies between zero and `hi` times their number,
/// and is at least each of them.
pub proof fn lemma_total_bounds(s: Seq<int>, hi: int)
    requires
        forall|j: int| 0 <= j < s.len() ==> 0 <= #[trigger] s[j] <= hi,
    ensures
        0 <= total(s) <= s.len() * hi,
        forall|j: int| 0 <= j < s.len() ==> #[trigger] s[j] <= total(s),
    decreases s.len(),
{
    if s.len() > 0 {
        let front = s.drop_last();
        lemma_total_bounds(front, hi);
        assert(s.len() * hi == front.len() * hi + hi) by (nonlinear_arith)
            requires
                s.len() == front.len() + 1,
        ;
        assert forall|j: int| 0 <= j < s.len() implies #[trigger] s[j] <= total(s) by {
            if j < s.len() - 1 {
                assert(front[j] == s[j]);
            }
        }
    }
}

/// The sum over a prefix of non-negative entries does not exceed the sum over all of them.
pub proof fn lemma_total_prefix(s: Seq<int>, n: int)
    requires
        0 <= n <= s.len(),
        forall|j: int| 0 <= j < s.len() ==> 0 <= #[trigger] s[j],
    ensures
        0 <= total(s.take(n)) <= total(s),
    decreases s.len() - n,
{
    if n == s.len() {
        assert(s.take(n) =~= s);
        lemma_total_nonnegative(s);
    } else {
        lemma_total_prefix(s, n + 1);
        assert(s.take(n + 1).drop_last() =~= s.take(n));
        lemma_total_nonnegative(s.take(n));
    }
}

/// A sum of non-negative entries is non-negative.
pub proof fn lemma_total_nonnegative(s: Seq<int>)
    requires
        forall|j: int| 0 <= j < s.len() ==> 0 <= #[trigger] s[j],
    ensures
        0 <= total(s),
    decreases s.len(),
{
    if s.len() > 0 {
        lemma_total_nonnegative(s.drop_last());
    }
}

} // verus!
