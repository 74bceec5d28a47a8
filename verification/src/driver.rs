use vstd::prelude::*;
use crate::error::BenchError;
use crate::flops::{checked_dim_to_flop, flop_count};
use crate::sequencer::{total_of, Sequencer};
use crate::stats::{BenchmarkStats, Measurement};
use crate::stopping::StoppingCondition;

verus! {

/// What the caller of a phase does next.
#[derive(Clone, Copy, Debug, PartialEq, Eq, Structural)]
pub enum Action {
    /// Run and time one sample of this many iterations on each thread, then
    /// record it.
    Sample(usize),
    /// The phase is over.
    Finish,
}

/// One phase of sampling, warmup or measurement. The caller owns the clock
/// and the workload: before each sample it asks `next_action` with the time
/// since the phase began, and after each sample it hands the sample's time to
/// `record_sample`.
#[derive(Debug)]
pub struct BenchmarkRun {
    pub dim: usize,
    pub n_threads: usize,
    pub stop_condition: StoppingCondition,
    pub iterations: Sequencer,
    pub total_iters: usize,
    pub samples: Vec<Measurement>,
}

impl BenchmarkRun {
    /// The invariant of the representation.
    pub open spec fn wf(&self) -> bool {
        self.iterations.wf()
    }

    /// The iterations of the whole phase, if every count that is left is
    /// taken: those taken so far and those to come.
    pub open spec fn planned_total(&self) -> nat {
        self.total_iters as nat + total_of(self.iterations@)
    }

    /// What the phase decides when `elapsed_nanos` have passed since it began.
    ///
    /// The stopping condition is asked first, on whether a count is left and
    /// without taking one. Where it says to go on, the next count is due; that
    /// none is left is the same fault as a time-boxed phase running dry, and
    /// that the total would pass `usize::MAX` is an overflow.
    pub open spec fn decision(&self, elapsed_nanos: u128) -> Result<Action, BenchError> {
        match self.stop_condition.verdict(elapsed_nanos, self.iterations@.len() > 0) {
            Err(fault) => Err(fault),
            Ok(true) => Ok(Action::Finish),
            Ok(false) => {
                if self.iterations@.len() == 0 {
                    Err(BenchError::SequencerExhausted)
                } else if self.total_iters + self.iterations@[0] > usize::MAX {
                    Err(BenchError::ArithmeticOverflow)
                } else {
                    Ok(Action::Sample(self.iterations@[0]))
                }
            },
        }
    }

    /// A phase that has taken no sample yet.
    pub fn new(
        dim: usize,
        n_threads: usize,
        stop_condition: StoppingCondition,
        iterations: Sequencer,
    ) -> (run: BenchmarkRun)
        requires
            iterations.wf(),
        ensures
            run.wf(),
            run.dim == dim,
            run.n_threads == n_threads,
            run.stop_condition == stop_condition,
            run.iterations == iterations,
            run.total_iters == 0,
            run.samples@.len() == 0,
            run.planned_total() == total_of(iterations@),
    {
        BenchmarkRun {
            dim,
            n_threads,
            stop_condition,
            iterations,
            total_iters: 0,
            samples: Vec::new(),
        }
    }

    /// Decides whether the phase goes on, and with how many iterations.
    ///
    /// Only the answer `Sample` takes a count from the sequencer and adds it
    /// to the total; any other answer leaves the phase as it was.
    pub fn next_action(&mut self, elapsed_nanos: u128) -> (answer: Result<Action, BenchError>)
        requires
            old(self).wf(),
        ensures
            final(self).wf(),
            answer == old(self).decision(elapsed_nanos),
            final(self).dim == old(self).dim,
            final(self).n_threads == old(self).n_threads,
            final(self).stop_condition == old(self).stop_condition,
            final(self).samples == old(self).samples,
            answer matches Ok(Action::Sample(count)) ==> final(self).iterations@ == old(
                self,
            ).iterations@.skip(1) && final(self).total_iters == old(self).total_iters + count,
            !(answer matches Ok(Action::Sample(_))) ==> *final(self) == *old(self),
            final(self).planned_total() == old(self).planned_total(),
            old(self).planned_total() <= usize::MAX ==> answer != Err::<Action, BenchError>(
                BenchError::ArithmeticOverflow,
            ),
    {
        let upcoming = self.iterations.peek();
        match self.stop_condition.done(elapsed_nanos, upcoming.is_some()) {
            Err(fault) => Err(fault),
            Ok(true) => Ok(Action::Finish),
            Ok(false) => {
                match upcoming {
                    None => Err(BenchError::SequencerExhausted),
                    Some(count) => {
                        match self.total_iters.checked_add(count) {
                            None => Err(BenchError::ArithmeticOverflow),
                            Some(total) => {
                                self.iterations.next();
                                self.total_iters = total;
                                Ok(Action::Sample(count))
                            },
                        }
                    },
                }
            },
        }
    }

    /// Records a sample of `sample_iters` iterations that took `elapsed_nanos`,
    /// with the operations it stands for on this phase's dimension and
    /// threads. Where their count does not fit in `usize`, nothing is recorded.
    pub fn record_sample(&mut self, sample_iters: usize, elapsed_nanos: u128) -> (done: Result<
        (),
        BenchError,
    >)
        ensures
            final(self).wf() == old(self).wf(),
            flop_count(old(self).dim as nat, old(self).n_threads as nat, sample_iters as nat)
                <= usize::MAX ==> done.is_ok() && final(self).samples@ == old(self).samples@.push(
                (Measurement {
                    sample_iters,
                    flops: flop_count(
                        old(self).dim as nat,
                        old(self).n_threads as nat,
                        sample_iters as nat,
                    ) as usize,
                    elapsed_nanos,
                }),
            ),
            flop_count(old(self).dim as nat, old(self).n_threads as nat, sample_iters as nat)
                > usize::MAX ==> done == Err::<(), BenchError>(BenchError::ArithmeticOverflow)
                && final(self).samples == old(self).samples,
            final(self).dim == old(self).dim,
            final(self).n_threads == old(self).n_threads,
            final(self).stop_condition == old(self).stop_condition,
            final(self).iterations == old(self).iterations,
            final(self).total_iters == old(self).total_iters,
            final(self).planned_total() == old(self).planned_total(),
    {
        match checked_dim_to_flop(self.dim, self.n_threads, sample_iters) {
            None => Err(BenchError::ArithmeticOverflow),
            Some(flops) => {
                self.samples.push(Measurement { sample_iters, flops, elapsed_nanos });
                Ok(())
            },
        }
    }

    /// Ends the phase, `total_time_nanos` after it began.
    pub fn finish(self, total_time_nanos: u128) -> (totals: BenchmarkStats)
        ensures
            totals.samples == self.samples,
            totals.total_iters == self.total_iters,
            totals.total_time_nanos == total_time_nanos,
    {
        BenchmarkStats::new(self.samples, self.total_iters, total_time_nanos)
    }
}

/// A phase bound by exhaustion whose planned total fits in `usize` takes
/// every count that its sequencer holds, whatever the clock says, and
/// finishes when none is left.
pub proof fn lemma_exhaustion_takes_every_count(run: BenchmarkRun, elapsed_nanos: u128)
    requires
        run.stop_condition == StoppingCondition::IteratorExhausted,
        run.planned_total() <= usize::MAX,
    ensures
        run.iterations@.len() == 0 ==> run.decision(elapsed_nanos) == Ok::<Action, BenchError>(
            Action::Finish,
        ),
        run.iterations@.len() > 0 ==> run.decision(elapsed_nanos) == Ok::<Action, BenchError>(
            Action::Sample(run.iterations@[0]),
        ),
{
}

/// A time-boxed phase whose sequencer has a count left, and whose planned
/// total fits in `usize`, finishes exactly when its budget has passed; the
/// test is made between samples only, so the last sample may run past it.
pub proof fn lemma_time_box_stops_at_budget(run: BenchmarkRun, budget: u128, elapsed_nanos: u128)
    requires
        run.stop_condition == StoppingCondition::TimeElapsed(budget),
        run.iterations@.len() > 0,
        run.planned_total() <= usize::MAX,
    ensures
        elapsed_nanos >= budget ==> run.decision(elapsed_nanos) == Ok::<Action, BenchError>(
            Action::Finish,
        ),
        elapsed_nanos < budget ==> run.decision(elapsed_nanos) == Ok::<Action, BenchError>(
            Action::Sample(run.iterations@[0]),
        ),
{
}

/// The calibration estimate: the nanoseconds that one iteration took during a
/// warmup of `total_iters` iterations in `total_time_nanos`, rounded down.
/// A warmup without iterations gives none.
pub fn nanos_per_iteration(total_time_nanos: u128, total_iters: usize) -> (estimate: Result<
    u128,
    BenchError,
>)
    ensures
        total_iters == 0 ==> estimate == Err::<u128, BenchError>(BenchError::NoWarmupIterations),
        total_iters > 0 ==> estimate == Ok::<u128, BenchError>(
            (total_time_nanos as nat / total_iters as nat) as u128,
        ),
{
    if total_iters == 0 {
        Err(BenchError::NoWarmupIterations)
    } else {
        Ok(total_time_nanos / (total_iters as u128))
    }
}

/// The work that a schedule plans: its iterations, `triangular * step`, and
/// the nanoseconds they are expected to take at `nanos_per_iter` each. `None`
/// where the first does not fit in `usize` or the second in `u128`.
pub fn planned_work(triangular: usize, step: usize, nanos_per_iter: u128) -> (plan: Option<
    (usize, u128),
>)
    ensures
        (triangular * step <= usize::MAX && triangular * step * nanos_per_iter <= u128::MAX)
            ==> plan == Some(
            ((triangular * step) as usize, (triangular * step * nanos_per_iter) as u128),
        ),
        !(triangular * step <= usize::MAX && triangular * step * nanos_per_iter <= u128::MAX)
            ==> plan.is_none(),
{
    match triangular.checked_mul(step) {
        None => None,
        Some(iterations) => {
            match (iterations as u128).checked_mul(nanos_per_iter) {
                None => None,
                Some(nanos) => Some((iterations, nanos)),
            }
        },
    }
}

} // verus!
