//! Evaluation of whitespace-delimited postfix arithmetic over 32-bit signed
//! integers.
//!
//! An expression such as `5 5 + 5 +` is read from left to right in a single
//! pass: an operand, then any number of rounds, each an operand followed by
//! an operator. The result is the accumulated value, or the first error met.

pub mod evaluation;
pub mod expression;
pub mod machine;
pub mod operator;
pub mod result;
pub mod step;
pub mod text;
pub mod theorems;

pub use evaluation::evaluate_rpn;
pub use machine::Registers;
pub use operator::{IntoRpnOperator, RpnOperator};
pub use result::EvaluationResult;
pub use step::EvaluationStep;
