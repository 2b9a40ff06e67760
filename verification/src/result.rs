//! What an evaluation ends with.

use vstd::prelude::*;
use crate::operator::RpnOperator;

verus! {

/// The outcome of evaluating one expression: the value, or the first thing
/// that went wrong while reading from left to right.
#[derive(Debug, Clone, Copy, PartialEq, Eq, Structural)]
pub enum EvaluationResult {
    /// The value left in the accumulator once all input was read.
    Success(i32),
    /// The input held nothing. The evaluator never reports this: empty input
    /// evaluates to `Success(0)`.
    InputEmpty,
    /// The input stopped in the middle of an expression. The evaluator never
    /// reports this: an operand left dangling at the end is ignored.
    InputNotComplete,
    /// A character that is neither a space, a decimal digit nor an operator.
    InvalidCharacterFound(char),
    /// A character stood where an operator was expected, or a character that
    /// names no operator was asked to be one.
    FoundNonOperator(char),
    /// An operator stood where a digit was expected.
    FoundNonDigit(char),
    /// A run of digits denotes a number above `i32::MAX`.
    InputNumberOverflow,
    /// A division by zero was asked for.
    DivByZero,
    /// The result of an operation does not fit in an `i32`. The operands are
    /// those the operation was about to be applied to.
    Overflow { last_valid_value1: i32, last_valid_value2: i32, attempted_operation: RpnOperator },
}

} // verus!
