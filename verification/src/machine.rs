//! The evaluator's registers and the effect of each character on them.

use vstd::prelude::*;
use crate::operator::{operator_named, IntoRpnOperator, RpnOperator};
use crate::result::EvaluationResult;
use crate::step::EvaluationStep;
use crate::text::{digit_value, is_digit};

verus! {

/// The register `register` after the decimal digit `c` is appended to the
/// number it holds, or `None` if that number leaves the range of `i32`.
pub open spec fn appended(register: i32, c: char) -> Option<i32> {
    let shifted = register * 10;
    let value = shifted + digit_value(c);
    if i32::MIN <= shifted && value <= i32::MAX {
        Some(value as i32)
    } else {
        None
    }
}

/// The state of an evaluation between two characters.
#[derive(Debug, Clone, Copy, PartialEq, Eq, Structural)]
pub struct Registers {
    /// What the next character is expected to belong to.
    pub step: EvaluationStep,
    /// The first operand at first, then the result so far.
    pub value1: i32,
    /// The right-hand operand being read.
    pub value2: i32,
}

impl Registers {
    /// The state before any character is read.
    pub open spec fn start() -> Registers {
        Registers { step: EvaluationStep::ReadingValue1, value1: 0, value2: 0 }
    }

    /// The state after a space: the step moves on, and a right-hand operand
    /// that is about to be read starts from zero.
    pub open spec fn after_space(self) -> Registers {
        let step = self.step.next();
        Registers {
            step,
            value1: self.value1,
            value2: if step == EvaluationStep::ReadingValue2 {
                0
            } else {
                self.value2
            },
        }
    }

    /// The effect of a decimal digit: it extends the operand being read, and
    /// is refused where an operator is expected.
    pub open spec fn after_digit(self, c: char) -> Result<Registers, EvaluationResult> {
        match self.step {
            EvaluationStep::ReadingValue1 => match appended(self.value1, c) {
                Some(value1) => Ok(Registers { value1, ..self }),
                None => Err(EvaluationResult::InputNumberOverflow),
            },
            EvaluationStep::ReadingValue2 => match appended(self.value2, c) {
                Some(value2) => Ok(Registers { value2, ..self }),
                None => Err(EvaluationResult::InputNumberOverflow),
            },
            EvaluationStep::ReadingOperator => Err(EvaluationResult::FoundNonOperator(c)),
        }
    }

    /// The effect of the operator `op`, written as `c`: it combines the two
    /// operands into `value1`, and is refused where a digit is expected.
    pub open spec fn after_operator(self, op: RpnOperator, c: char) -> Result<
        Registers,
        EvaluationResult,
    > {
        match self.step {
            EvaluationStep::ReadingOperator => match op.checked(self.value1, self.value2) {
                Ok(value1) => Ok(Registers { value1, ..self }),
                Err(e) => Err(e),
            },
            _ => Err(EvaluationResult::FoundNonDigit(c)),
        }
    }

    /// The state after the character `c`, or the error that `c` raises.
    pub open spec fn after(self, c: char) -> Result<Registers, EvaluationResult> {
        if c == ' ' {
            Ok(self.after_space())
        } else if is_digit(c) {
            self.after_digit(c)
        } else if let Some(op) = operator_named(c) {
            self.after_operator(op, c)
        } else {
            Err(EvaluationResult::InvalidCharacterFound(c))
        }
    }

    /// The state after the characters of `s`, read from left to right, or
    /// the first error that one of them raises.
    pub open spec fn after_all(self, s: Seq<char>) -> Result<Registers, EvaluationResult>
        decreases s.len(),
    {
        if s.len() == 0 {
            Ok(self)
        } else {
            match self.after_all(s.drop_last()) {
                Ok(registers) => registers.after(s.last()),
                Err(e) => Err(e),
            }
        }
    }

    /// The registers before any character is read.
    pub fn new() -> (r: Registers)
        ensures
            r == Registers::start(),
    {
        Registers { step: EvaluationStep::ReadingValue1, value1: 0, value2: 0 }
    }

    /// Reads one character.
    pub fn feed(self, c: char) -> (r: Result<Registers, EvaluationResult>)
        ensures
            r == self.after(c),
    {
        if c == ' ' {
            let mut step = self.step;
            step.advance();
            let value2 = if step == EvaluationStep::ReadingValue2 {
                0
            } else {
                self.value2
            };
            Ok(Registers { step, value1: self.value1, value2 })
        } else if '0' <= c && c <= '9' {
            match self.step {
                EvaluationStep::ReadingValue1 => match append_digit(self.value1, c) {
                    Some(value1) => Ok(Registers { value1, ..self }),
                    None => Err(EvaluationResult::InputNumberOverflow),
                },
                EvaluationStep::ReadingValue2 => match append_digit(self.value2, c) {
                    Some(value2) => Ok(Registers { value2, ..self }),
                    None => Err(EvaluationResult::InputNumberOverflow),
                },
                EvaluationStep::ReadingOperator => Err(EvaluationResult::FoundNonOperator(c)),
            }
        } else if c.is_valid_rpn_operator() {
            match self.step {
                EvaluationStep::ReadingOperator => match RpnOperator::try_from(c) {
                    Ok(op) => match op.apply(self.value1, self.value2) {
                        Ok(value1) => Ok(Registers { value1, ..self }),
                        Err(e) => Err(e),
                    },
                    Err(e) => Err(e),
                },
                _ => Err(EvaluationResult::FoundNonDigit(c)),
            }
        } else {
            Err(EvaluationResult::InvalidCharacterFound(c))
        }
    }
}

/// Reading `a` and then `b` is reading `a + b`; an error raised in `a` is
/// the error of the whole.
pub proof fn lemma_after_all_concat(registers: Registers, a: Seq<char>, b: Seq<char>)
    ensures
        registers.after_all(a + b) == match registers.after_all(a) {
            Ok(reached) => reached.after_all(b),
            Err(e) => Err(e),
        },
    decreases b.len(),
{
    if b.len() == 0 {
        assert(a + b == a);
    } else {
        assert((a + b).drop_last() == a + b.drop_last());
        assert((a + b).last() == b.last());
        lemma_after_all_concat(registers, a, b.drop_last());
    }
}

/// Appends the decimal digit `c` to the number in `register`, with overflow
/// detection on both the shift and the addition.
fn append_digit(register: i32, c: char) -> (r: Option<i32>)
    requires
        is_digit(c),
    ensures
        r == appended(register, c),
{
    let digit = (c as u32 - '0' as u32) as i32;
    match register.checked_mul(10) {
        Some(shifted) => shifted.checked_add(digit),
        None => None,
    }
}

} // verus!
