//! The benchmarking protocol as a state machine.
//!
//! A run takes its candidates one after the other. Each candidate is executed
//! `warmup_count` times with the elapsed time discarded, then
//! `repetition_count` times with the elapsed time recorded. The machine says
//! what to execute next and is told how long it took; whoever drives it does
//! the executing and the timing, on a host or on a device.

use crate::shared::performance_measurement::PerformanceMeasurements;
use vstd::prelude::*;

verus! {

/// What the driver of a run has to do next.
#[derive(Debug, Clone, Copy, PartialEq, Eq, Structural)]
pub enum BenchmarkAction {
    /// Execute the candidate once; its elapsed time will be discarded.
    WarmUp { candidate: usize },
    /// Execute the candidate once; its elapsed time will be recorded.
    Measure { candidate: usize },
    /// Every candidate has all its samples.
    Finished,
}

/// The elapsed times that belong to candidate `i` in the log of all reported
/// times: those of its measured repetitions, as far as the log reaches them.
///
/// Candidate `i` owns the log positions from `i * (w + m)`; its first `w`
/// positions are warm-up runs and belong to no candidate's samples.
pub open spec fn measured(log: Seq<u64>, w: nat, m: nat, i: int) -> Seq<u64> {
    let begin = i * (w + m) + w;
    let end = begin + m;
    if log.len() <= begin {
        Seq::empty()
    } else if log.len() >= end {
        log.subrange(begin, end)
    } else {
        log.subrange(begin, log.len() as int)
    }
}

/// In the log of a complete run of `n` candidates, every candidate has exactly
/// `m` samples, and its `j`-th sample is the time reported at position
/// `i * (w + m) + w + j` of the log: never one of the `w` warm-up runs that
/// open each candidate's stretch of the log.
pub proof fn lemma_complete_run(log: Seq<u64>, n: nat, w: nat, m: nat, i: int)
    requires
        log.len() == n * (w + m),
        0 <= i < n,
    ensures
        measured(log, w, m, i).len() == m,
        i * (w + m) + w + m <= log.len(),
        forall|j: int| 0 <= j < m ==> #[trigger] measured(log, w, m, i)[j] == log[i * (w + m) + w + j],
{
    let b = (w + m) as int;
    lemma_blocks(i, n as int - 1, b);
    assert((n - 1) * b + b == n * b) by (nonlinear_arith);
    lemma_blocks(0, i, b);
}

/// Stretches of the log do not overlap: a later candidate starts at or after
/// the end of an earlier one.
pub proof fn lemma_blocks(i: int, j: int, b: int)
    requires
        0 <= i <= j,
        0 <= b,
    ensures
        0 <= i * b <= j * b,
        (i + 1) * b == i * b + b,
        i < j ==> (i + 1) * b <= j * b,
{
    assert(0 <= i * b <= j * b) by (nonlinear_arith)
        requires
            0 <= i <= j,
            0 <= b,
    ;
    assert((i + 1) * b == i * b + b) by (nonlinear_arith);
    if i < j {
        assert((i + 1) * b <= j * b) by (nonlinear_arith)
            requires
                i + 1 <= j,
                0 <= b,
        ;
    }
}

/// One benchmark run over a list of named candidates.
pub struct BenchmarkRun {
    warmup_count: usize,
    repetition_count: usize,
    candidate: usize,
    warmups_done: usize,
    measurements: Vec<PerformanceMeasurements>,
    log: Ghost<Seq<u64>>,
}

impl BenchmarkRun {
    /// Every elapsed time reported so far, warm-up runs included, in order.
    pub closed spec fn log(&self) -> Seq<u64> {
        self.log@
    }

    /// Discarded executions per candidate.
    pub closed spec fn warmup_count(&self) -> nat {
        self.warmup_count as nat
    }

    /// Recorded executions per candidate.
    pub closed spec fn repetition_count(&self) -> nat {
        self.repetition_count as nat
    }

    /// Number of candidates.
    pub closed spec fn candidate_count(&self) -> nat {
        self.measurements@.len()
    }

    /// The name of candidate `i`.
    pub closed spec fn name(&self, i: int) -> Seq<char> {
        self.measurements@[i].name@
    }

    /// The samples recorded for candidate `i` so far.
    pub closed spec fn samples(&self, i: int) -> Seq<u64> {
        self.measurements@[i].samples@
    }

    /// The candidate in progress; the number of candidates once the run is finished.
    pub closed spec fn current(&self) -> nat {
        self.candidate as nat
    }

    /// Warm-up runs of the candidate in progress that have been reported.
    pub closed spec fn warmups_done(&self) -> nat {
        self.warmups_done as nat
    }

    /// Executions per candidate.
    pub open spec fn block(&self) -> nat {
        self.warmup_count() + self.repetition_count()
    }

    /// Executions of the candidate in progress that have been reported.
    pub open spec fn offset(&self) -> nat {
        if self.current() < self.candidate_count() {
            self.warmups_done() + self.samples(self.current() as int).len()
        } else {
            0
        }
    }

    /// Every candidate has all its samples.
    pub open spec fn finished(&self) -> bool {
        self.current() == self.candidate_count()
    }

    /// The run is in step with its log: the candidate in progress and its phase
    /// are those the length of the log determines, and every candidate holds
    /// exactly the measured times that the log has for it.
    pub open spec fn wf(&self) -> bool {
        &&& self.current() <= self.candidate_count()
        &&& self.warmups_done() <= self.warmup_count()
        &&& self.finished() ==> self.warmups_done() == 0
        &&& !self.finished() ==> {
            &&& self.offset() < self.block()
            &&& self.warmups_done() < self.warmup_count() ==> self.samples(self.current() as int).len() == 0
        }
        &&& self.log().len() == self.current() * self.block() + self.offset()
        &&& forall|i: int|
            0 <= i < self.candidate_count() ==> #[trigger] self.samples(i) == measured(
                self.log(),
                self.warmup_count(),
                self.repetition_count(),
                i,
            )
    }

    /// A run over the candidates `names` that has executed nothing yet.
    pub fn new(names: Vec<String>, warmup_count: usize, repetition_count: usize) -> (run: BenchmarkRun)
        ensures
            run.wf(),
            run.log() == Seq::<u64>::empty(),
            run.warmup_count() == warmup_count,
            run.repetition_count() == repetition_count,
            run.candidate_count() == names@.len(),
            forall|i: int| 0 <= i < names@.len() ==> #[trigger] run.name(i) == names@[i]@,
            run.finished() <==> names@.len() == 0 || (warmup_count == 0 && repetition_count == 0),
            run.offset() == 0,
            !run.finished() ==> run.current() == 0,
    {
        let n: usize = names.len();
        let mut measurements: Vec<PerformanceMeasurements> = Vec::with_capacity(n);
        let mut i: usize = 0;
        while i < n
            invariant
                i <= n,
                n == names@.len(),
                measurements@.len() == i,
                forall|j: int| 0 <= j < i ==> #[trigger] measurements@[j].name@ == names@[j]@,
                forall|j: int| 0 <= j < i ==> #[trigger] measurements@[j].samples@ == Seq::<u64>::empty(),
            decreases n - i,
        {
            measurements.push(PerformanceMeasurements::new(names[i].clone()));
            i += 1;
        }
        let candidate: usize = if warmup_count == 0 && repetition_count == 0 {
            n
        } else {
            0
        };
        let run = BenchmarkRun {
            warmup_count,
            repetition_count,
            candidate,
            warmups_done: 0,
            measurements,
            log: Ghost(Seq::empty()),
        };
        proof {
            assert(run.current() * run.block() == 0) by (nonlinear_arith)
                requires
                    run.current() == 0 || run.block() == 0,
            ;
            assert forall|i: int| 0 <= i < run.candidate_count() implies #[trigger] run.samples(i) == measured(
                run.log(),
                run.warmup_count(),
                run.repetition_count(),
                i,
            ) by {
                lemma_blocks(0, i, run.block() as int);
            }
        }
        run
    }

    /// What to do next: which candidate to execute and whether its time counts.
    pub fn next_action(&self) -> (action: BenchmarkAction)
        requires
            self.wf(),
        ensures
            match action {
                BenchmarkAction::Finished => self.finished(),
                BenchmarkAction::WarmUp { candidate } => !self.finished() && candidate == self.current()
                    && self.offset() < self.warmup_count(),
                BenchmarkAction::Measure { candidate } => !self.finished() && candidate == self.current()
                    && self.offset() >= self.warmup_count(),
            },
    {
        if self.candidate >= self.measurements.len() {
            BenchmarkAction::Finished
        } else if self.warmups_done < self.warmup_count {
            BenchmarkAction::WarmUp { candidate: self.candidate }
        } else {
            BenchmarkAction::Measure { candidate: self.candidate }
        }
    }

    /// Whether the execution that `next_action` asks for is the first of its
    /// candidate, warm-up runs included: the point at which the candidate's
    /// operands have to be what every other candidate found.
    pub fn starts_candidate(&self) -> (r: bool)
        requires
            self.wf(),
            !self.finished(),
        ensures
            r == (self.offset() == 0),
    {
        self.warmups_done == 0 && self.measurements[self.candidate].samples.len() == 0
    }

    /// Whether no candidate is part-way through its executions: nothing has
    /// been executed yet, or a candidate has just had its last execution. What
    /// that candidate made of its operands is then final.
    pub fn at_boundary(&self) -> (r: bool)
        requires
            self.wf(),
        ensures
            r == (self.offset() == 0),
    {
        self.candidate >= self.measurements.len() || (self.warmups_done == 0
            && self.measurements[self.candidate].samples.len() == 0)
    }

    /// Whether every candidate has all its samples.
    pub fn is_finished(&self) -> (r: bool)
        requires
            self.wf(),
        ensures
            r == self.finished(),
    {
        self.candidate >= self.measurements.len()
    }

    /// Takes the elapsed time of the execution that `next_action` asked for:
    /// discards it if that was a warm-up run, records it for the candidate in
    /// progress otherwise, and moves on to the next candidate once this one has
    /// all its samples.
    pub fn report(&mut self, elapsed: u64)
        requires
            old(self).wf(),
            !old(self).finished(),
        ensures
            final(self).wf(),
            final(self).log() == old(self).log().push(elapsed),
            final(self).warmup_count() == old(self).warmup_count(),
            final(self).repetition_count() == old(self).repetition_count(),
            final(self).candidate_count() == old(self).candidate_count(),
            forall|i: int| 0 <= i < old(self).candidate_count() ==> final(self).name(i) == old(self).name(i),
            old(self).offset() + 1 < old(self).block() ==> final(self).current() == old(self).current()
                && final(self).offset() == old(self).offset() + 1,
            old(self).offset() + 1 == old(self).block() ==> final(self).current() == old(self).current() + 1
                && final(self).offset() == 0,
    {
        let c: usize = self.candidate;
        let ghost w = self.warmup_count as nat;
        let ghost m = self.repetition_count as nat;
        let ghost b = (w + m) as int;
        let ghost before = self.log@;
        let ghost after = self.log@.push(elapsed);
        let ghost records = self.measurements@;
        assert(self.measurements.len() <= usize::MAX);
        proof {
            lemma_blocks(c as int, c as int, b);
            assert(records[c as int].samples@ == measured(before, w, m, c as int)) by {
                assert(self.samples(c as int) == measured(before, w, m, c as int));
            }
            assert forall|i: int| 0 <= i < records.len() && i != c implies records[i].samples@ == measured(
                after,
                w,
                m,
                i,
            ) by {
                assert(self.samples(i) == measured(before, w, m, i));
                if i < c {
                    lemma_blocks(i, c as int, b);
                    assert(measured(after, w, m, i) =~= measured(before, w, m, i));
                } else {
                    lemma_blocks(c as int, i, b);
                }
            }
            assert forall|i: int| c < i < records.len() implies records[i].samples@.len() == 0 by {
                assert(self.samples(i) == measured(before, w, m, i));
                lemma_blocks(c as int, i, b);
            }
        }
        if self.warmups_done < self.warmup_count {
            self.warmups_done = self.warmups_done + 1;
            proof {
                assert(measured(after, w, m, c as int) =~= measured(before, w, m, c as int));
            }
        } else {
            proof {
                assert(measured(after, w, m, c as int) =~= measured(before, w, m, c as int).push(elapsed));
            }
            self.measurements[c].samples.push(elapsed);
        }
        self.log = Ghost(after);
        assert(self.measurements@.len() == records.len());
        assert(self.measurements@[c as int].samples@ == measured(after, w, m, c as int));
        assert(self.measurements@[c as int].name@ == records[c as int].name@);
        assert(forall|i: int|
            0 <= i < records.len() && i != c ==> #[trigger] self.measurements@[i] == records[i]);
        if self.warmups_done == self.warmup_count && self.measurements[c].samples.len()
            == self.repetition_count {
            self.candidate = c + 1;
            self.warmups_done = 0;
            proof {
                lemma_blocks(c as int, c as int, b);
            }
        }
        proof {
            assert forall|i: int| 0 <= i < self.candidate_count() implies #[trigger] self.samples(i) == measured(
                self.log(),
                self.warmup_count(),
                self.repetition_count(),
                i,
            ) by {
                if i != c {
                    assert(self.measurements@[i] == records[i]);
                }
            }
        }
    }

    /// The records of all candidates, as far as the run has got.
    pub fn measurements(&self) -> (r: &Vec<PerformanceMeasurements>)
        requires
            self.wf(),
        ensures
            r@.len() == self.candidate_count(),
            forall|i: int| 0 <= i < r@.len() ==> #[trigger] r@[i].name@ == self.name(i),
            forall|i: int|
                0 <= i < r@.len() ==> #[trigger] r@[i].samples@ == measured(
                    self.log(),
                    self.warmup_count(),
                    self.repetition_count(),
                    i,
                ),
    {
        proof {
            assert forall|i: int| 0 <= i < self.measurements@.len() implies #[trigger] self.measurements@[i].samples@
                == measured(self.log(), self.warmup_count(), self.repetition_count(), i) by {
                assert(self.samples(i) == measured(self.log(), self.warmup_count(), self.repetition_count(), i));
            }
        }
        &self.measurements
    }

    /// Ends the run and hands out the records of all candidates.
    pub fn into_measurements(self) -> (r: Vec<PerformanceMeasurements>)
        requires
            self.wf(),
        ensures
            r@.len() == self.candidate_count(),
            forall|i: int| 0 <= i < r@.len() ==> #[trigger] r@[i].name@ == self.name(i),
            forall|i: int|
                0 <= i < r@.len() ==> #[trigger] r@[i].samples@ == measured(
                    self.log(),
                    self.warmup_count(),
                    self.repetition_count(),
                    i,
                ),
    {
        proof {
            assert forall|i: int| 0 <= i < self.measurements@.len() implies #[trigger] self.measurements@[i].samples@
                == measured(self.log(), self.warmup_count(), self.repetition_count(), i) by {
                assert(self.samples(i) == measured(self.log(), self.warmup_count(), self.repetition_count(), i));
            }
        }
        self.measurements
    }
}

} // verus!
