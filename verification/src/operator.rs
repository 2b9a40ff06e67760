//! The binary operators, the characters that name them, and their
//! overflow-checked arithmetic.

use vstd::prelude::*;
use vstd::std_specs::convert::TryFromSpecImpl;
use crate::result::EvaluationResult;

verus! {

/// A binary operation on two `i32` operands.
#[derive(Debug, Clone, Copy, PartialEq, Eq, Structural)]
pub enum RpnOperator {
    Addition,
    Subtraction,
    Multiplication,
    Division,
}

/// The operator that `c` names, if it names one.
pub open spec fn operator_named(c: char) -> Option<RpnOperator> {
    if c == '+' {
        Some(RpnOperator::Addition)
    } else if c == '-' {
        Some(RpnOperator::Subtraction)
    } else if c == '*' {
        Some(RpnOperator::Multiplication)
    } else if c == '/' {
        Some(RpnOperator::Division)
    } else {
        None
    }
}

/// The operator that `c` names, or `FoundNonOperator` with `c`.
pub open spec fn operator_or_error(c: char) -> Result<RpnOperator, EvaluationResult> {
    match operator_named(c) {
        Some(op) => Ok(op),
        None => Err(EvaluationResult::FoundNonOperator(c)),
    }
}

/// The quotient of `lhs` by `rhs`, rounded toward zero.
pub open spec fn truncated_quotient(lhs: int, rhs: int) -> int
    recommends
        rhs != 0,
{
    if lhs >= 0 && rhs > 0 {
        lhs / rhs
    } else if lhs >= 0 {
        -(lhs / (-rhs))
    } else if rhs > 0 {
        -((-lhs) / rhs)
    } else {
        (-lhs) / (-rhs)
    }
}

impl RpnOperator {
    /// The character that names this operator.
    pub open spec fn symbol(self) -> char {
        match self {
            RpnOperator::Addition => '+',
            RpnOperator::Subtraction => '-',
            RpnOperator::Multiplication => '*',
            RpnOperator::Division => '/',
        }
    }

    /// The exact result of the operation on unbounded integers. Division
    /// rounds toward zero; by zero it yields `None`.
    pub open spec fn exact(self, lhs: int, rhs: int) -> Option<int> {
        match self {
            RpnOperator::Addition => Some(lhs + rhs),
            RpnOperator::Subtraction => Some(lhs - rhs),
            RpnOperator::Multiplication => Some(lhs * rhs),
            RpnOperator::Division => if rhs == 0 {
                None
            } else {
                Some(truncated_quotient(lhs, rhs))
            },
        }
    }

    /// What applying the operator to two `i32` operands gives: the exact
    /// result where it fits in an `i32`, `DivByZero` for a zero divisor, and
    /// otherwise `Overflow` with the two operands and the operator.
    pub open spec fn checked(self, lhs: i32, rhs: i32) -> Result<i32, EvaluationResult> {
        match self.exact(lhs as int, rhs as int) {
            None => Err(EvaluationResult::DivByZero),
            Some(v) => if i32::MIN <= v <= i32::MAX {
                Ok(v as i32)
            } else {
                Err(
                    EvaluationResult::Overflow {
                        last_valid_value1: lhs,
                        last_valid_value2: rhs,
                        attempted_operation: self,
                    },
                )
            },
        }
    }

    /// Applies the operator to `lhs` and `rhs` with overflow detection.
    pub fn apply(self, lhs: i32, rhs: i32) -> (r: Result<i32, EvaluationResult>)
        ensures
            r == self.checked(lhs, rhs),
    {
        let computed = match self {
            RpnOperator::Addition => lhs.checked_add(rhs),
            RpnOperator::Subtraction => lhs.checked_sub(rhs),
            RpnOperator::Multiplication => lhs.checked_mul(rhs),
            RpnOperator::Division => lhs.checked_div(rhs),
        };
        match computed {
            Some(value) => Ok(value),
            None => {
                if rhs == 0 && self == RpnOperator::Division {
                    Err(EvaluationResult::DivByZero)
                } else {
                    Err(
                        EvaluationResult::Overflow {
                            last_valid_value1: lhs,
                            last_valid_value2: rhs,
                            attempted_operation: self,
                        },
                    )
                }
            },
        }
    }
}

impl TryFrom<char> for RpnOperator {
    type Error = EvaluationResult;

    /// The operator that `value` names, or `FoundNonOperator(value)`.
    fn try_from(value: char) -> (r: Result<Self, Self::Error>)
        ensures
            r == operator_or_error(value),
    {
        match value {
            '+' => Ok(RpnOperator::Addition),
            '-' => Ok(RpnOperator::Subtraction),
            '*' => Ok(RpnOperator::Multiplication),
            '/' => Ok(RpnOperator::Division),
            _ => Err(EvaluationResult::FoundNonOperator(value)),
        }
    }
}

impl TryFromSpecImpl<char> for RpnOperator {
    open spec fn obeys_try_from_spec() -> bool {
        true
    }

    open spec fn try_from_spec(v: char) -> Result<Self, Self::Error> {
        operator_or_error(v)
    }
}

/// Characters that may name an operator.
pub trait IntoRpnOperator {
    /// Whether the value names an operator.
    spec fn names_operator(&self) -> bool;

    /// Decides whether the value names an operator.
    fn is_valid_rpn_operator(&self) -> (b: bool)
        ensures
            b == self.names_operator(),
    ;
}

impl IntoRpnOperator for char {
    open spec fn names_operator(&self) -> bool {
        operator_named(*self) is Some
    }

    fn is_valid_rpn_operator(&self) -> (b: bool) {
        match RpnOperator::try_from(*self) {
            Ok(_) => true,
            Err(_) => false,
        }
    }
}

} // verus!
