//! The benchmark of host candidates: every candidate is warmed up and then
//! timed, repetition by repetition, on operands that are the same for all.

use crate::cpu::candidates::{lemma_square_operands, CpuCandidate};
use crate::shared::benchmark_run::{
    lemma_blocks, lemma_complete_run, measured, BenchmarkAction, BenchmarkRun,
};
use crate::shared::clock::Stopwatch;
use crate::shared::configuration::Configuration;
use crate::shared::fixed::{HALF, ONE, TENTH};
use crate::shared::performance_measurement::PerformanceMeasurements;
use crate::shared::tensor2d::{Matrix, Tensor2D};
use vstd::prelude::*;

verus! {

/// Why a benchmark could not be run.
#[derive(Debug, Clone, Copy, PartialEq, Eq, Structural)]
pub enum BenchmarkError {
    /// There is not exactly one name per candidate.
    NameCount,
    /// A square operand of the configured size has more entries than a buffer can hold.
    Size,
}

impl BenchmarkError {
    /// What went wrong, in words.
    pub open spec fn message_spec(self) -> Seq<char> {
        match self {
            BenchmarkError::NameCount => "there is not exactly one name per candidate"@,
            BenchmarkError::Size => "square operands of the configured size do not fit a buffer"@,
        }
    }

    /// What went wrong, in words.
    pub fn message(&self) -> (r: &'static str)
        ensures
            r@ == self.message_spec(),
    {
        match self {
            BenchmarkError::NameCount => "there is not exactly one name per candidate",
            BenchmarkError::Size => "square operands of the configured size do not fit a buffer",
        }
    }
}

/// The reason a benchmark cannot be run, if any.
pub open spec fn harness_error(config: Configuration, names: nat, candidates: nat) -> Option<BenchmarkError> {
    if names != candidates {
        Some(BenchmarkError::NameCount)
    } else if config.matrix_size * config.matrix_size > usize::MAX {
        Some(BenchmarkError::Size)
    } else {
        None
    }
}

/// The records are those of a complete benchmark: one per name, in order,
/// each with exactly `repetitions` samples.
pub open spec fn complete(records: Seq<PerformanceMeasurements>, names: Seq<String>, repetitions: nat) -> bool {
    &&& records.len() == names.len()
    &&& forall|i: int| 0 <= i < records.len() ==> (#[trigger] records[i]).name@ == names[i]@
    &&& forall|i: int| 0 <= i < records.len() ==> (#[trigger] records[i]).samples@.len() == repetitions
}

/// The operands every candidate of a benchmark runs on.
#[derive(Debug)]
pub struct Operands {
    pub input: Tensor2D,
    pub weights: Tensor2D,
    pub bias: Tensor2D,
    pub output: Tensor2D,
}

impl Operands {
    /// The operands are square and of size `size`.
    pub open spec fn square(self, size: nat) -> bool {
        &&& self.input@.rows == size && self.input@.cols == size
        &&& self.weights@.rows == size && self.weights@.cols == size
        &&& self.bias@.rows == size && self.bias@.cols == size
        &&& self.output@.rows == size && self.output@.cols == size
    }

    /// The operands as every candidate finds them: an input filled with 0.5,
    /// weights filled with 1.0, a bias filled with 0.1 and an output buffer
    /// filled with zeros, all square and of size `size`.
    pub open spec fn fresh(self, size: nat) -> bool {
        &&& self.input@ == Matrix::filled(HALF, size, size)
        &&& self.weights@ == Matrix::filled(ONE, size, size)
        &&& self.bias@ == Matrix::filled(TENTH, size, size)
        &&& self.output@ == Matrix::filled(0, size, size)
    }

    /// Fresh operands of size `size`.
    pub fn new(size: usize) -> (r: Operands)
        requires
            size * size <= usize::MAX,
        ensures
            r.fresh(size as nat),
    {
        Operands {
            input: Tensor2D::new(HALF, size, size),
            weights: Tensor2D::new(ONE, size, size),
            bias: Tensor2D::new(TENTH, size, size),
            output: Tensor2D::new(0, size, size),
        }
    }

    /// Makes the input and the output buffer afresh, which a candidate may
    /// have overwritten, so that the next candidate finds what the last one found.
    pub fn refresh(&mut self)
        requires
            old(self).input@.cols == old(self).input@.rows,
        ensures
            final(self).input@ == Matrix::filled(HALF, old(self).input@.rows, old(self).input@.rows),
            final(self).output@ == Matrix::filled(0, old(self).input@.rows, old(self).input@.rows),
            final(self).weights@ == old(self).weights@,
            final(self).bias@ == old(self).bias@,
    {
        let size: usize = self.input.rows();
        proof {
            use_type_invariant(&self.input);
            assert(self.input.data.len() <= usize::MAX);
        }
        self.input = Tensor2D::new(HALF, size, size);
        self.output = Tensor2D::new(0, size, size);
    }

    /// Gets the operands ready for the next execution: for the first execution
    /// of a candidate the input and the output buffer are made afresh, so that
    /// every candidate starts from the same data; for every later one they
    /// stay as the last execution left them.
    pub fn prepare(&mut self, first: bool)
        requires
            old(self).input@.cols == old(self).input@.rows,
        ensures
            first ==> final(self).input@ == Matrix::filled(HALF, old(self).input@.rows, old(self).input@.rows)
                && final(self).output@ == Matrix::filled(0, old(self).input@.rows, old(self).input@.rows),
            !first ==> final(self).input@ == old(self).input@ && final(self).output@ == old(self).output@,
            final(self).weights@ == old(self).weights@,
            final(self).bias@ == old(self).bias@,
    {
        if first {
            self.refresh();
        }
    }
}

/// The input and the output buffer as a candidate left them after its last execution.
#[derive(Debug)]
pub struct Leftover {
    pub input: Tensor2D,
    pub output: Tensor2D,
}

/// The input and the output buffer after `k` executions of `candidate`, one
/// after the other, on square operands of size `size` that were fresh before
/// the first: an input filled with 0.5, weights filled with 1.0, a bias filled
/// with 0.1 and an output buffer filled with zeros.
pub open spec fn after_executions(candidate: CpuCandidate, size: nat, k: nat) -> (Matrix, Matrix)
    decreases k,
{
    if k == 0 {
        (Matrix::filled(HALF, size, size), Matrix::filled(0, size, size))
    } else {
        let before = after_executions(candidate, size, (k - 1) as nat);
        let effect = candidate.effect(
            before.0,
            Matrix::filled(ONE, size, size),
            Matrix::filled(TENTH, size, size),
            before.1,
        );
        (effect.input, effect.output)
    }
}

/// After any number of executions on square operands the input and the
/// output buffer are still square and of the same size.
pub proof fn lemma_after_executions_square(candidate: CpuCandidate, size: nat, k: nat)
    ensures
        after_executions(candidate, size, k).0.rows == size && after_executions(candidate, size, k).0.cols == size,
        after_executions(candidate, size, k).1.rows == size && after_executions(candidate, size, k).1.cols == size,
    decreases k,
{
    if k > 0 {
        lemma_after_executions_square(candidate, size, (k - 1) as nat);
        let before = after_executions(candidate, size, (k - 1) as nat);
        lemma_square_operands(
            candidate,
            before.0,
            Matrix::filled(ONE, size, size),
            Matrix::filled(TENTH, size, size),
            before.1,
            size,
        );
    }
}

/// Every candidate was executed on the same data: `leftovers` holds, for every
/// candidate in order, what `executions` executions of it, one after the
/// other, make of fresh operands of size `size`.
pub open spec fn executed_alike(
    leftovers: Seq<Leftover>,
    functions: Seq<CpuCandidate>,
    size: nat,
    executions: nat,
) -> bool {
    &&& leftovers.len() == functions.len()
    &&& forall|i: int|
        0 <= i < leftovers.len() ==> ((#[trigger] leftovers[i]).input@, leftovers[i].output@) == after_executions(
            functions[i],
            size,
            executions,
        )
}

/// The number of measured times the log of a run has for candidate `i`.
pub open spec fn measured_len(run: BenchmarkRun, i: int) -> nat {
    measured(run.log(), run.warmup_count(), run.repetition_count(), i).len()
}

/// Benchmarks `functions` under the names `names`, leaves one record per
/// candidate in `measurements`, and hands back what every candidate made of
/// its operands.
///
/// Every candidate runs on square operands of the configured size: an input
/// filled with 0.5, weights filled with 1.0, a bias filled with 0.1 and an
/// output buffer filled with zeros. The input and the buffer are made afresh
/// before the first execution of each candidate and kept across its
/// executions, so every candidate starts from the same data and its later
/// executions reuse its buffers.
/// A candidate is executed `warmup_count` times with the elapsed time
/// discarded, then `repetition_count` times with the elapsed time of each
/// execution recorded as one sample.
///
/// A benchmark that cannot be run leaves `measurements` as it was.
pub fn benchmark_function_vector(
    config: &Configuration,
    names: Vec<String>,
    functions: Vec<CpuCandidate>,
    measurements: &mut Vec<PerformanceMeasurements>,
) -> (res: Result<Vec<Leftover>, BenchmarkError>)
    ensures
        match harness_error(*config, names@.len(), functions@.len()) {
            Some(e) => res == Err::<Vec<Leftover>, BenchmarkError>(e) && *final(measurements) == *old(
                measurements,
            ),
            None => res.is_ok() && complete(final(measurements)@, names@, config.repetition_count as nat)
                && executed_alike(
                res.unwrap()@,
                functions@,
                config.matrix_size as nat,
                (config.warmup_count + config.repetition_count) as nat,
            ),
        },
{
    if names.len() != functions.len() {
        return Err(BenchmarkError::NameCount);
    }
    let n: usize = config.matrix_size;
    if n.checked_mul(n).is_none() {
        return Err(BenchmarkError::Size);
    }
    let ghost listed = names@;
    let ghost executions = (config.warmup_count + config.repetition_count) as nat;
    let mut run = BenchmarkRun::new(names, config.warmup_count, config.repetition_count);
    let mut operands = Operands::new(n);
    let mut leftovers: Vec<Leftover> = Vec::new();
    if run.is_finished() {
        // nothing is executed: every candidate leaves its operands fresh
        let count: usize = functions.len();
        let mut i: usize = 0;
        while i < count
            invariant
                i <= count,
                count == functions@.len(),
                executions == 0 || count == 0,
                operands.fresh(n as nat),
                leftovers@.len() == i,
                forall|j: int|
                    0 <= j < i ==> ((#[trigger] leftovers@[j]).input@, leftovers@[j].output@) == after_executions(
                        functions@[j],
                        n as nat,
                        executions,
                    ),
            decreases count - i,
        {
            leftovers.push(Leftover { input: operands.input.clone(), output: operands.output.clone() });
            i += 1;
        }
    }
    loop
        invariant
            run.wf(),
            run.warmup_count() == config.warmup_count,
            run.repetition_count() == config.repetition_count,
            run.block() == executions,
            run.candidate_count() == functions@.len(),
            listed.len() == functions@.len(),
            forall|i: int| 0 <= i < listed.len() ==> #[trigger] run.name(i) == listed[i]@,
            operands.square(n as nat),
            operands.weights@ == Matrix::filled(ONE, n as nat, n as nat),
            operands.bias@ == Matrix::filled(TENTH, n as nat, n as nat),
            leftovers@.len() == run.current(),
            forall|j: int|
                0 <= j < leftovers@.len() ==> ((#[trigger] leftovers@[j]).input@, leftovers@[j].output@)
                    == after_executions(functions@[j], n as nat, executions),
            run.offset() > 0 ==> (operands.input@, operands.output@) == after_executions(
                functions@[run.current() as int],
                n as nat,
                run.offset(),
            ),
        ensures
            run.finished(),
        decreases run.candidate_count() * run.block() - run.log().len(),
    {
        let candidate: usize = match run.next_action() {
            BenchmarkAction::Finished => {
                break ;
            },
            BenchmarkAction::WarmUp { candidate } => candidate,
            BenchmarkAction::Measure { candidate } => candidate,
        };
        let first: bool = run.starts_candidate();
        operands.prepare(first);
        let ghost done = run.offset();
        proof {
            assert((operands.input@, operands.output@) == after_executions(
                functions@[candidate as int],
                n as nat,
                done,
            ));
            lemma_after_executions_square(functions@[candidate as int], n as nat, done);
            lemma_after_executions_square(functions@[candidate as int], n as nat, done + 1);
            lemma_square_operands(
                functions@[candidate as int],
                operands.input@,
                operands.weights@,
                operands.bias@,
                operands.output@,
                n as nat,
            );
            lemma_blocks(run.current() as int, run.candidate_count() as int - 1, run.block() as int);
            lemma_blocks(run.candidate_count() as int - 1, run.candidate_count() as int, run.block() as int);
        }
        let watch = Stopwatch::start();
        let outcome = functions[candidate].run(
            &mut operands.input,
            &operands.weights,
            &operands.bias,
            &mut operands.output,
        );
        let elapsed: u64 = watch.elapsed_nanos();
        assert(outcome.is_ok());
        assert((operands.input@, operands.output@) == after_executions(
            functions@[candidate as int],
            n as nat,
            done + 1,
        ));
        run.report(elapsed);
        if run.at_boundary() {
            leftovers.push(Leftover { input: operands.input.clone(), output: operands.output.clone() });
        }
    }
    proof {
        assert forall|i: int| 0 <= i < run.candidate_count() implies #[trigger] measured_len(run, i)
            == config.repetition_count by {
            lemma_complete_run(
                run.log(),
                run.candidate_count(),
                run.warmup_count(),
                run.repetition_count(),
                i,
            );
        }
    }
    let records = run.into_measurements();
    proof {
        assert forall|i: int| 0 <= i < records@.len() implies (#[trigger] records@[i]).samples@.len()
            == config.repetition_count by {
            assert(measured_len(run, i) == config.repetition_count);
        }
    }
    *measurements = records;
    Ok(leftovers)
}

} // verus!
