//! The three-phase cursor that says what kind of token the evaluator expects next.

use vstd::prelude::*;

verus! {

/// What the evaluator is reading at the moment.
#[derive(Debug, Clone, Copy, PartialEq, Eq, Structural)]
pub enum EvaluationStep {
    /// The first operand, read once at the very start.
    ReadingValue1,
    /// A right-hand operand.
    ReadingValue2,
    /// A single operator character.
    ReadingOperator,
}

impl EvaluationStep {
    /// The step that follows `self` when a space is read.
    pub open spec fn next(self) -> EvaluationStep {
        match self {
            EvaluationStep::ReadingValue1 => EvaluationStep::ReadingValue2,
            EvaluationStep::ReadingValue2 => EvaluationStep::ReadingOperator,
            EvaluationStep::ReadingOperator => EvaluationStep::ReadingValue2,
        }
    }

    /// Moves to the step that follows the current one.
    pub fn advance(&mut self)
        ensures
            *final(self) == old(self).next(),
    {
        *self = match *self {
            EvaluationStep::ReadingValue1 => EvaluationStep::ReadingValue2,
            EvaluationStep::ReadingValue2 => EvaluationStep::ReadingOperator,
            EvaluationStep::ReadingOperator => EvaluationStep::ReadingValue2,
        };
    }
}

} // verus!
