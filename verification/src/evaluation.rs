//! The evaluator: from a line of text to its value or its first error.

use vstd::prelude::*;
use vstd::string::*;
use crate::machine::{lemma_after_all_concat, Registers};
use crate::result::EvaluationResult;
use crate::text::{trim, trimmed};

verus! {

/// What reading the characters of `s` from the initial state ends with: the
/// accumulated value, or the first error.
pub open spec fn value_of(s: Seq<char>) -> EvaluationResult {
    match Registers::start().after_all(s) {
        Ok(registers) => EvaluationResult::Success(registers.value1),
        Err(e) => e,
    }
}

/// The result of evaluating `input`: leading and trailing white space is
/// dropped, and what is left is read character by character.
pub open spec fn rpn_value(input: Seq<char>) -> EvaluationResult {
    value_of(trimmed(input))
}

/// Evaluates the postfix expression in `input`.
///
/// The input is trimmed, then read from left to right. A space moves on to
/// the next token, digits extend the operand being read, and an operator
/// combines the two operands into the running result. The first error ends
/// the evaluation; without one the running result is returned.
pub fn evaluate_rpn(input: &str) -> (result: EvaluationResult)
    ensures
        result == rpn_value(input@),
{
    let text = trim(input);
    let mut registers = Registers::new();
    for c in it: text.chars()
        invariant
            it.seq() == text@,
            text@ == trimmed(input@),
            Registers::start().after_all(text@.take(it.index())) == Ok::<
                Registers,
                EvaluationResult,
            >(registers),
    {
        proof {
            assert(text@.take(it.index() + 1).drop_last() == text@.take(it.index()));
        }
        match registers.feed(c) {
            Ok(next) => {
                registers = next;
            },
            Err(e) => {
                proof {
                    let read = text@.take(it.index() + 1);
                    assert(text@ == read + text@.skip(it.index() + 1));
                    lemma_after_all_concat(Registers::start(), read, text@.skip(it.index() + 1));
                }
                return e;
            },
        }
    }
    proof {
        assert(text@.take(text@.len() as int) == text@);
    }
    EvaluationResult::Success(registers.value1)
}

} // verus!
