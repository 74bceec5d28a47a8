use vstd::prelude::*;

verus! {

/// The ways in which a benchmark phase can fail.
#[derive(Clone, Copy, Debug, PartialEq, Eq, Structural)]
pub enum BenchError {
    /// A time-boxed phase met its stopping test with a sequencer that has
    /// no iteration count left.
    SequencerExhausted,
    /// The warmup completed no iteration, so the cost of one is undefined.
    NoWarmupIterations,
    /// A count of iterations, operations or nanoseconds does not fit the
    /// machine integer that holds it.
    ArithmeticOverflow,
}

impl BenchError {
    /// A one-line description for the user.
    pub fn message(&self) -> (text: &'static str)
        ensures
            text@ == (match *self {
                BenchError::SequencerExhausted =>
                    "Maximum duration has not passed, but the iterator is exhausted"@,
                BenchError::NoWarmupIterations => "No iteration was completed during warmup"@,
                BenchError::ArithmeticOverflow => "A count exceeds the machine's integer range"@,
            }),
    {
        match *self {
            BenchError::SequencerExhausted =>
                "Maximum duration has not passed, but the iterator is exhausted",
            BenchError::NoWarmupIterations => "No iteration was completed during warmup",
            BenchError::ArithmeticOverflow => "A count exceeds the machine's integer range",
        }
    }
}

} // verus!
