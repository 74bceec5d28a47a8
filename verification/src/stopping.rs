use vstd::prelude::*;
use crate::error::BenchError;

verus! {

/// When a phase of sampling ends. The test is made before each sample, on the
/// time since the phase began and on whether the sequencer has a count left.
#[derive(Clone, Copy, Debug, PartialEq, Eq, Structural)]
pub enum StoppingCondition {
    /// Stop once this many nanoseconds have passed.
    TimeElapsed(u128),
    /// Stop once the sequencer has no count left.
    IteratorExhausted,
}

impl StoppingCondition {
    /// The verdict on `elapsed_nanos` and `has_next`, as a mathematical function.
    pub open spec fn verdict(self, elapsed_nanos: u128, has_next: bool) -> Result<bool, BenchError> {
        match self {
            StoppingCondition::TimeElapsed(budget) => {
                if elapsed_nanos >= budget && !has_next {
                    Err(BenchError::SequencerExhausted)
                } else {
                    Ok(elapsed_nanos >= budget)
                }
            },
            StoppingCondition::IteratorExhausted => Ok(!has_next),
        }
    }

    /// Whether the phase is over.
    ///
    /// A time-boxed phase is over exactly when the budget has passed; if at
    /// that moment the sequencer is empty as well, the phase fails instead.
    /// An exhaustion-bound phase is over exactly when the sequencer is empty,
    /// whatever the time.
    pub fn done(&self, elapsed_nanos: u128, has_next: bool) -> (outcome: Result<bool, BenchError>)
        ensures
            outcome == self.verdict(elapsed_nanos, has_next),
            *self == StoppingCondition::IteratorExhausted ==> outcome == Ok::<bool, BenchError>(!has_next),
            *self matches StoppingCondition::TimeElapsed(budget) ==> (has_next
                ==> outcome == Ok::<bool, BenchError>(elapsed_nanos >= budget)),
            *self matches StoppingCondition::TimeElapsed(budget) ==> (!has_next && elapsed_nanos
                < budget ==> outcome == Ok::<bool, BenchError>(false)),
            *self matches StoppingCondition::TimeElapsed(budget) ==> (!has_next && elapsed_nanos
                >= budget ==> outcome == Err::<bool, BenchError>(BenchError::SequencerExhausted)),
    {
        match *self {
            StoppingCondition::TimeElapsed(budget) => {
                if elapsed_nanos >= budget && !has_next {
                    Err(BenchError::SequencerExhausted)
                } else {
                    Ok(elapsed_nanos >= budget)
                }
            },
            StoppingCondition::IteratorExhausted => Ok(!has_next),
        }
    }
}

} // verus!
