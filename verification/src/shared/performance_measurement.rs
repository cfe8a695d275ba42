//! The record of one benchmarked candidate: its elapsed-time samples, in
//! nanoseconds, and the statistics derived from them.

use crate::shared::sums::total;
use vstd::arithmetic::div_mod::lemma_fundamental_div_mod_converse;
use vstd::prelude::*;

verus! {

/// The samples of one candidate, one per measured repetition, in the order measured.
#[derive(Debug)]
pub struct PerformanceMeasurements {
    pub name: String,
    pub samples: Vec<u64>,
}

/// The samples as unbounded integers.
pub open spec fn as_ints(s: Seq<u64>) -> Seq<int> {
    Seq::new(s.len(), |i: int| s[i] as int)
}

/// The mean of a non-empty sequence of samples, rounded down.
pub open spec fn mean_of(s: Seq<u64>) -> int {
    total(as_ints(s)) / (s.len() as int)
}

/// The squared distance of every sample from the mean.
pub open spec fn squared_deviations(s: Seq<u64>) -> Seq<int> {
    Seq::new(s.len(), |i: int| (s[i] - mean_of(s)) * (s[i] - mean_of(s)))
}

/// The variance of a non-empty sequence of samples about its mean, rounded down.
pub open spec fn variance_of(s: Seq<u64>) -> int {
    total(squared_deviations(s)) / (s.len() as int)
}

impl Clone for PerformanceMeasurements {
    /// A record with the same name and the same samples.
    fn clone(&self) -> (r: PerformanceMeasurements)
        ensures
            r.name@ == self.name@,
            r.samples@ == self.samples@,
    {
        let n: usize = self.samples.len();
        let mut samples: Vec<u64> = Vec::with_capacity(n);
        let mut i: usize = 0;
        while i < n
            invariant
                i <= n,
                n == self.samples@.len(),
                samples@.len() == i,
                forall|j: int| 0 <= j < i ==> samples@[j] == self.samples@[j],
            decreases n - i,
        {
            samples.push(self.samples[i]);
            i += 1;
        }
        assert(samples@ =~= self.samples@);
        PerformanceMeasurements { name: self.name.clone(), samples }
    }
}

impl Default for PerformanceMeasurements {
    /// A record without a name and without samples.
    fn default() -> (r: PerformanceMeasurements)
        ensures
            r.name@ == Seq::<char>::empty(),
            r.samples@ == Seq::<u64>::empty(),
    {
        PerformanceMeasurements { name: String::new(), samples: Vec::new() }
    }
}

impl PerformanceMeasurements {
    /// A record for the candidate `name`, without samples.
    pub fn new(name: String) -> (r: PerformanceMeasurements)
        ensures
            r.name == name,
            r.samples@ == Seq::<u64>::empty(),
    {
        PerformanceMeasurements { name, samples: Vec::new() }
    }

    /// Appends the elapsed time of one measured repetition.
    pub fn record(&mut self, elapsed: u64)
        ensures
            final(self).name == old(self).name,
            final(self).samples@ == old(self).samples@.push(elapsed),
    {
        self.samples.push(elapsed);
    }

    /// The number of samples.
    pub fn count(&self) -> (r: usize)
        ensures
            r == self.samples@.len(),
    {
        self.samples.len()
    }

    /// The smallest sample, if there is any.
    pub fn min(&self) -> (r: Option<u64>)
        ensures
            r.is_some() <==> self.samples@.len() > 0,
            r.is_some() ==> self.samples@.contains(r.unwrap()) && forall|i: int|
                0 <= i < self.samples@.len() ==> r.unwrap() <= self.samples@[i],
    {
        let n: usize = self.samples.len();
        if n == 0 {
            return None;
        }
        let mut best: u64 = self.samples[0];
        let mut i: usize = 1;
        while i < n
            invariant
                1 <= i <= n,
                n == self.samples@.len(),
                self.samples@.contains(best),
                forall|j: int| 0 <= j < i ==> best <= self.samples@[j],
            decreases n - i,
        {
            if self.samples[i] < best {
                best = self.samples[i];
            }
            i += 1;
        }
        Some(best)
    }

    /// The largest sample, if there is any.
    pub fn max(&self) -> (r: Option<u64>)
        ensures
            r.is_some() <==> self.samples@.len() > 0,
            r.is_some() ==> self.samples@.contains(r.unwrap()) && forall|i: int|
                0 <= i < self.samples@.len() ==> self.samples@[i] <= r.unwrap(),
    {
        let n: usize = self.samples.len();
        if n == 0 {
            return None;
        }
        let mut best: u64 = self.samples[0];
        let mut i: usize = 1;
        while i < n
            invariant
                1 <= i <= n,
                n == self.samples@.len(),
                self.samples@.contains(best),
                forall|j: int| 0 <= j < i ==> self.samples@[j] <= best,
            decreases n - i,
        {
            if self.samples[i] > best {
                best = self.samples[i];
            }
            i += 1;
        }
        Some(best)
    }

    /// The mean of the samples, rounded down, if there is any sample.
    pub fn mean(&self) -> (r: Option<u64>)
        ensures
            r.is_some() <==> self.samples@.len() > 0,
            r.is_some() ==> r.unwrap() == mean_of(self.samples@),
    {
        let n: usize = self.samples.len();
        if n == 0 {
            return None;
        }
        let ghost ints = as_ints(self.samples@);
        let mut sum: u128 = 0;
        let mut i: usize = 0;
        while i < n
            invariant
                i <= n,
                n == self.samples@.len(),
                ints == as_ints(self.samples@),
                sum == total(ints.take(i as int)),
                sum <= i * 0xffff_ffff_ffff_ffff,
            decreases n - i,
        {
            proof {
                assert(ints.take(i + 1).drop_last() =~= ints.take(i as int));
            }
            sum = sum + self.samples[i] as u128;
            i += 1;
        }
        proof {
            assert(ints.take(n as int) =~= ints);
            let s = sum as int;
            let m = n as int;
            assert(s / m <= 0xffff_ffff_ffff_ffff) by (nonlinear_arith)
                requires
                    0 <= s <= m * 0xffff_ffff_ffff_ffff,
                    m > 0,
            ;
        }
        let mean: u128 = sum / (n as u128);
        Some(mean as u64)
    }

    /// The variance of the samples about their mean, rounded down, if there is any sample.
    pub fn variance(&self) -> (r: Option<u128>)
        ensures
            r.is_some() <==> self.samples@.len() > 0,
            r.is_some() ==> r.unwrap() == variance_of(self.samples@),
    {
        let n: usize = self.samples.len();
        let mean: u64 = match self.mean() {
            Some(m) => m,
            None => {
                return None;
            },
        };
        let ghost sq = squared_deviations(self.samples@);
        let count: u128 = n as u128;
        // The sum of the squares may exceed 128 bits, so it is carried as a
        // multiple of the count plus a rest below the count.
        let mut quotient: u128 = 0;
        let mut rest: u128 = 0;
        let mut i: usize = 0;
        while i < n
            invariant
                i <= n,
                n == self.samples@.len(),
                n > 0,
                count == n,
                mean == mean_of(self.samples@),
                sq == squared_deviations(self.samples@),
                total(sq.take(i as int)) == quotient * count + rest,
                total(sq.take(i as int)) <= i * 0xffff_ffff_ffff_fffe_0000_0000_0000_0001,
                rest < count,
                quotient <= 0xffff_ffff_ffff_fffe_0000_0000_0000_0001,
            decreases n - i,
        {
            let x: u64 = self.samples[i];
            let d: u128 = if x >= mean {
                (x - mean) as u128
            } else {
                (mean - x) as u128
            };
            proof {
                assert(d * d <= 0xffff_ffff_ffff_fffe_0000_0000_0000_0001) by (nonlinear_arith)
                    requires
                        0 <= d <= 0xffff_ffff_ffff_ffff,
                ;
                assert(d * d == (x - mean) * (x - mean)) by (nonlinear_arith)
                    requires
                        d == x - mean || d == mean - x,
                ;
                assert(sq.take(i + 1).drop_last() =~= sq.take(i as int));
                assert(sq[i as int] == d * d);
            }
            let square: u128 = d * d;
            let whole: u128 = square / count;
            let part: u128 = square % count;
            proof {
                let q0 = quotient as int;
                let c = count as int;
                let w = whole as int;
                let s = square as int;
                assert(s == w * c + part) by (nonlinear_arith)
                    requires
                        w == s / c,
                        part == s % c,
                        c > 0,
                ;
                assert((q0 + w) * c == q0 * c + w * c) by (nonlinear_arith);
                assert((q0 + w + 1) * c == q0 * c + w * c + c) by (nonlinear_arith);
                assert(total(sq.take(i + 1)) == total(sq.take(i as int)) + s);
                assert((i + 1) * 0xffff_ffff_ffff_fffe_0000_0000_0000_0001 == i
                    * 0xffff_ffff_ffff_fffe_0000_0000_0000_0001 + 0xffff_ffff_ffff_fffe_0000_0000_0000_0001)
                    by (nonlinear_arith);
            }
            if rest + part >= count {
                proof {
                    lemma_quotient_bound(
                        quotient as int + whole as int + 1,
                        (rest + part - count) as int,
                        count as int,
                        total(sq.take(i + 1)),
                        i + 1,
                    );
                }
                quotient = quotient + whole + 1;
                rest = rest + part - count;
            } else {
                proof {
                    lemma_quotient_bound(
                        quotient as int + whole as int,
                        (rest + part) as int,
                        count as int,
                        total(sq.take(i + 1)),
                        i + 1,
                    );
                }
                quotient = quotient + whole;
                rest = rest + part;
            }
            i += 1;
        }
        proof {
            assert(sq.take(n as int) =~= sq);
            lemma_fundamental_div_mod_converse(total(sq), count as int, quotient as int, rest as int);
        }
        Some(quotient)
    }

    /// The standard deviation of the samples: the square root of the variance,
    /// rounded down, if there is any sample.
    pub fn standard_deviation(&self) -> (r: Option<u64>)
        ensures
            r.is_some() <==> self.samples@.len() > 0,
            r.is_some() ==> r.unwrap() * r.unwrap() <= variance_of(self.samples@) < (r.unwrap() + 1) * (
            r.unwrap() + 1),
    {
        match self.variance() {
            Some(v) => Some(integer_sqrt(v)),
            None => None,
        }
    }
}

/// A total of at most `c` squares, each below 2^128, that is written as
/// `q * c + r` has a quotient `q` below 2^128.
proof fn lemma_quotient_bound(q: int, r: int, c: int, sum: int, i: int)
    requires
        0 <= q,
        0 <= r,
        0 < c,
        0 <= i <= c,
        sum == q * c + r,
        sum <= i * 0xffff_ffff_ffff_fffe_0000_0000_0000_0001,
    ensures
        q <= 0xffff_ffff_ffff_fffe_0000_0000_0000_0001,
{
    let limit = 0xffff_ffff_ffff_fffe_0000_0000_0000_0001int;
    assert(i * limit <= c * limit) by (nonlinear_arith)
        requires
            i <= c,
            limit >= 0,
    ;
    assert(q <= limit) by (nonlinear_arith)
        requires
            q * c <= c * limit,
            c > 0,
    ;
}

/// The largest whole number whose square does not exceed `v`.
pub fn integer_sqrt(v: u128) -> (r: u64)
    ensures
        r * r <= v < (r + 1) * (r + 1),
{
    let mut low: u128 = 0;
    let mut high: u128 = 0x1_0000_0000_0000_0000;
    while high - low > 1
        invariant
            low < high <= 0x1_0000_0000_0000_0000,
            low * low <= v < high * high,
        decreases high - low,
    {
        let mid: u128 = low + (high - low) / 2;
        assert(mid * mid <= 0xffff_ffff_ffff_fffe_0000_0000_0000_0001) by (nonlinear_arith)
            requires
                0 <= mid <= 0xffff_ffff_ffff_ffff,
        ;
        if mid * mid <= v {
            low = mid;
        } else {
            high = mid;
        }
    }
    low as u64
}

} // verus!
