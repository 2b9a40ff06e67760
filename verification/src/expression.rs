//! Well-formed postfix expressions: their text and their exact value.

use vstd::prelude::*;
use crate::operator::RpnOperator;
use crate::text::{digit_value, is_digit};

verus! {

/// Whether every character of `s` is a decimal digit.
pub open spec fn all_digits(s: Seq<char>) -> bool {
    forall|i: int| 0 <= i < s.len() ==> is_digit(#[trigger] s[i])
}

/// The number that a string of decimal digits denotes.
pub open spec fn decimal(digits: Seq<char>) -> int
    decreases digits.len(),
{
    if digits.len() == 0 {
        0
    } else {
        decimal(digits.drop_last()) * 10 + digit_value(digits.last())
    }
}

/// Whether `s` is a non-empty string of digits that denotes an `i32`.
pub open spec fn is_operand(s: Seq<char>) -> bool {
    s.len() > 0 && all_digits(s) && decimal(s) <= i32::MAX
}

/// One step of a chained expression: a right-hand operand and the operator
/// that combines it with the result so far.
pub struct Round {
    pub operand: Seq<char>,
    pub operator: RpnOperator,
}

impl Round {
    /// How the round is written: a space, the operand, a space, the operator.
    pub open spec fn text(self) -> Seq<char> {
        seq![' '] + self.operand + seq![' ', self.operator.symbol()]
    }
}

/// How a sequence of rounds is written, one after the other.
pub open spec fn rounds_text(rounds: Seq<Round>) -> Seq<char>
    decreases rounds.len(),
{
    if rounds.len() == 0 {
        Seq::empty()
    } else {
        rounds_text(rounds.drop_last()) + rounds.last().text()
    }
}

/// How an expression is written: the first operand, then each round.
pub open spec fn expression_text(first: Seq<char>, rounds: Seq<Round>) -> Seq<char> {
    first + rounds_text(rounds)
}

/// The value of an expression over the unbounded integers, taking the rounds
/// from left to right; `None` if a round divides by zero.
pub open spec fn exact_value(first: Seq<char>, rounds: Seq<Round>) -> Option<int>
    decreases rounds.len(),
{
    if rounds.len() == 0 {
        Some(decimal(first))
    } else {
        match exact_value(first, rounds.drop_last()) {
            Some(so_far) => rounds.last().operator.exact(so_far, decimal(rounds.last().operand)),
            None => None,
        }
    }
}

/// Whether the expression is made of operands that fit in an `i32`.
pub open spec fn has_valid_operands(first: Seq<char>, rounds: Seq<Round>) -> bool {
    &&& is_operand(first)
    &&& forall|i: int| 0 <= i < rounds.len() ==> is_operand(#[trigger] rounds[i].operand)
}

/// Whether the value after each round, and the final one, exists and fits
/// in an `i32`.
pub open spec fn stays_in_range(first: Seq<char>, rounds: Seq<Round>) -> bool {
    forall|k: int|
        0 <= k <= rounds.len() ==> (#[trigger] exact_value(first, rounds.take(k)) matches Some(v)
            && i32::MIN <= v <= i32::MAX)
}

} // verus!
