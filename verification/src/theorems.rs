//! What holds of every evaluation.

use vstd::prelude::*;
use crate::evaluation::rpn_value;
use crate::expression::{
    all_digits,
    decimal,
    exact_value,
    expression_text,
    has_valid_operands,
    is_operand,
    stays_in_range,
    Round,
};
use crate::machine::{lemma_after_all_concat, Registers};
use crate::operator::operator_named;
use crate::result::EvaluationResult;
use crate::step::EvaluationStep;
use crate::text::{
    all_white_space,
    is_digit,
    is_white_space,
    lemma_trimmed_ignores_padding,
    lemma_trimmed_is_identity,
    lemma_trimmed_keeps_front,
    trim_end,
    trimmed,
};

verus! {

/// `registers` with `value` in the register that digits currently go to.
pub open spec fn with_operand(registers: Registers, value: i32) -> Registers {
    if registers.step == EvaluationStep::ReadingValue1 {
        Registers { value1: value, ..registers }
    } else {
        Registers { value2: value, ..registers }
    }
}

/// A string of digits denotes no negative number, and no prefix of it
/// denotes more than the whole.
pub proof fn lemma_decimal_grows(digits: Seq<char>)
    requires
        all_digits(digits),
    ensures
        0 <= decimal(digits),
        digits.len() > 0 ==> 0 <= decimal(digits.drop_last()) <= decimal(digits),
    decreases digits.len(),
{
    if digits.len() > 0 {
        assert(is_digit(digits.last()));
        lemma_decimal_grows(digits.drop_last());
    }
}

/// Reading a single character is one step of the machine.
pub proof fn lemma_reading_char(registers: Registers, c: char)
    ensures
        registers.after_all(seq![c]) == registers.after(c),
{
    assert(seq![c].drop_last() == Seq::<char>::empty());
    assert(registers.after_all(Seq::<char>::empty()) == Ok::<Registers, EvaluationResult>(
        registers,
    ));
}

/// Reading an operand into an empty register leaves the number it denotes there.
pub proof fn lemma_reading_operand(registers: Registers, digits: Seq<char>)
    requires
        all_digits(digits),
        decimal(digits) <= i32::MAX,
        registers.step != EvaluationStep::ReadingOperator,
        registers == with_operand(registers, 0),
    ensures
        0 <= decimal(digits),
        registers.after_all(digits) == Ok::<Registers, EvaluationResult>(
            with_operand(registers, decimal(digits) as i32),
        ),
    decreases digits.len(),
{
    lemma_decimal_grows(digits);
    if digits.len() > 0 {
        assert(is_digit(digits.last()));
        lemma_reading_operand(registers, digits.drop_last());
    }
}

/// The registers once a well-formed expression has been read.
pub open spec fn registers_after(first: Seq<char>, rounds: Seq<Round>) -> Registers {
    if rounds.len() == 0 {
        Registers {
            step: EvaluationStep::ReadingValue1,
            value1: decimal(first) as i32,
            value2: 0,
        }
    } else {
        Registers {
            step: EvaluationStep::ReadingOperator,
            value1: exact_value(first, rounds)->0 as i32,
            value2: decimal(rounds.last().operand) as i32,
        }
    }
}

/// Reading a space, an operand and a space, from a state in which an
/// operand or an operator has just been completed, leaves the operand in
/// `value2` and the evaluator waiting for an operator.
pub proof fn lemma_reading_spaced_operand(registers: Registers, operand: Seq<char>)
    requires
        registers.step != EvaluationStep::ReadingValue2,
        all_digits(operand),
        decimal(operand) <= i32::MAX,
    ensures
        0 <= decimal(operand),
        registers.after_all(seq![' '] + operand + seq![' ']) == Ok::<Registers, EvaluationResult>(
            Registers {
                step: EvaluationStep::ReadingOperator,
                value1: registers.value1,
                value2: decimal(operand) as i32,
            },
        ),
{
    let spaced = registers.after_space();
    let loaded = with_operand(spaced, decimal(operand) as i32);
    lemma_reading_char(registers, ' ');
    lemma_reading_operand(spaced, operand);
    lemma_after_all_concat(registers, seq![' '], operand);
    lemma_reading_char(loaded, ' ');
    lemma_after_all_concat(registers, seq![' '] + operand, seq![' ']);
}

/// Reading one round, from a state in which an operand or an operator has
/// just been completed, applies its operator to the result so far and its
/// operand.
pub proof fn lemma_reading_round(registers: Registers, round: Round)
    requires
        registers.step != EvaluationStep::ReadingValue2,
        is_operand(round.operand),
    ensures
        0 <= decimal(round.operand) <= i32::MAX,
        registers.after_all(round.text()) == match round.operator.checked(
            registers.value1,
            decimal(round.operand) as i32,
        ) {
            Ok(value1) => Ok(
                Registers {
                    step: EvaluationStep::ReadingOperator,
                    value1,
                    value2: decimal(round.operand) as i32,
                },
            ),
            Err(e) => Err(e),
        },
{
    let symbol = round.operator.symbol();
    let ready = Registers {
        step: EvaluationStep::ReadingOperator,
        value1: registers.value1,
        value2: decimal(round.operand) as i32,
    };
    assert(operator_named(symbol) == Some(round.operator));
    lemma_reading_spaced_operand(registers, round.operand);
    lemma_reading_char(ready, symbol);
    assert(round.text() == seq![' '] + round.operand + seq![' '] + seq![symbol]);
    lemma_after_all_concat(registers, seq![' '] + round.operand + seq![' '], seq![symbol]);
}

/// Reading a well-formed expression whose intermediate values all fit in an
/// `i32` raises no error and leaves its exact value in `value1`.
pub proof fn lemma_reading_expression(first: Seq<char>, rounds: Seq<Round>)
    requires
        has_valid_operands(first, rounds),
        stays_in_range(first, rounds),
    ensures
        Registers::start().after_all(expression_text(first, rounds)) == Ok::<
            Registers,
            EvaluationResult,
        >(registers_after(first, rounds)),
        exact_value(first, rounds) matches Some(v) && i32::MIN <= v <= i32::MAX,
    decreases rounds.len(),
{
    assert(rounds.take(rounds.len() as int) == rounds);
    if rounds.len() == 0 {
        assert(expression_text(first, rounds) == first);
        lemma_reading_operand(Registers::start(), first);
    } else {
        let earlier = rounds.drop_last();
        let round = rounds.last();
        assert forall|k: int| 0 <= k <= earlier.len() implies (#[trigger] exact_value(
            first,
            earlier.take(k),
        ) matches Some(v) && i32::MIN <= v <= i32::MAX) by {
            assert(earlier.take(k) == rounds.take(k));
        }
        assert forall|i: int| 0 <= i < earlier.len() implies is_operand(
            #[trigger] earlier[i].operand,
        ) by {
            assert(earlier[i] == rounds[i]);
        }
        lemma_reading_expression(first, earlier);
        let reached = registers_after(first, earlier);
        lemma_reading_round(reached, round);
        assert(expression_text(first, rounds) == expression_text(first, earlier) + round.text());
        lemma_after_all_concat(Registers::start(), expression_text(first, earlier), round.text());
    }
}

/// A well-formed expression, made of operands that fit in an `i32` and of
/// operations none of which leaves the range of `i32` or divides by zero,
/// evaluates to its exact value, taken from left to right.
pub proof fn lemma_expression_evaluates_exactly(first: Seq<char>, rounds: Seq<Round>)
    requires
        has_valid_operands(first, rounds),
        stays_in_range(first, rounds),
    ensures
        exact_value(first, rounds) matches Some(v) && i32::MIN <= v <= i32::MAX && rpn_value(
            expression_text(first, rounds),
        ) == EvaluationResult::Success(v as i32),
{
    lemma_reading_expression(first, rounds);
    lemma_expression_text_is_trimmed(first, rounds);
}

/// The text of an expression starts with a digit and ends with a digit or an
/// operator, so trimming leaves it as it is.
pub proof fn lemma_expression_text_is_trimmed(first: Seq<char>, rounds: Seq<Round>)
    requires
        first.len() > 0,
        is_digit(first.first()),
        is_digit(first.last()),
    ensures
        trimmed(expression_text(first, rounds)) == expression_text(first, rounds),
{
    let text = expression_text(first, rounds);
    assert(text.first() == first.first());
    if rounds.len() == 0 {
        assert(text == first);
    } else {
        assert(text.last() == rounds.last().operator.symbol());
    }
    lemma_trimmed_is_identity(text);
}

/// The first character that raises an error decides the result, whatever
/// follows it.
pub proof fn lemma_first_error_is_the_result(
    input: Seq<char>,
    k: int,
    reached: Registers,
    error: EvaluationResult,
)
    requires
        0 <= k < trimmed(input).len(),
        Registers::start().after_all(trimmed(input).take(k)) == Ok::<Registers, EvaluationResult>(
            reached,
        ),
        reached.after(trimmed(input)[k]) == Err::<Registers, EvaluationResult>(error),
    ensures
        rpn_value(input) == error,
{
    let text = trimmed(input);
    let read = text.take(k);
    let rest = text.skip(k);
    assert(text == read + rest);
    assert(rest == seq![text[k]] + rest.skip(1));
    lemma_reading_char(reached, text[k]);
    lemma_after_all_concat(reached, seq![text[k]], rest.skip(1));
    lemma_after_all_concat(Registers::start(), read, rest);
}

/// Reading a run of digits that denotes more than `i32::MAX` into an empty
/// register raises `InputNumberOverflow`.
pub proof fn lemma_reading_oversized_operand(registers: Registers, digits: Seq<char>)
    requires
        all_digits(digits),
        decimal(digits) > i32::MAX,
        registers.step != EvaluationStep::ReadingOperator,
        registers == with_operand(registers, 0),
    ensures
        registers.after_all(digits) == Err::<Registers, EvaluationResult>(
            EvaluationResult::InputNumberOverflow,
        ),
    decreases digits.len(),
{
    let shorter = digits.drop_last();
    assert(is_digit(digits.last()));
    lemma_decimal_grows(digits);
    if decimal(shorter) > i32::MAX {
        lemma_reading_oversized_operand(registers, shorter);
    } else {
        lemma_reading_operand(registers, shorter);
    }
}

/// An error raised while reading the front of a text is the result of
/// evaluating the text, if the front neither starts nor ends with white
/// space.
pub proof fn lemma_error_in_front_is_the_result(
    front: Seq<char>,
    rest: Seq<char>,
    error: EvaluationResult,
)
    requires
        front.len() > 0,
        !is_white_space(front.first()),
        !is_white_space(front.last()),
        Registers::start().after_all(front) == Err::<Registers, EvaluationResult>(error),
    ensures
        rpn_value(front + rest) == error,
{
    lemma_trimmed_keeps_front(front, rest);
    lemma_after_all_concat(Registers::start(), front, trim_end(rest));
}

/// Input that begins with a run of digits denoting more than `i32::MAX`
/// evaluates to `InputNumberOverflow`, whatever follows the run.
pub proof fn lemma_oversized_number_overflows(digits: Seq<char>, rest: Seq<char>)
    requires
        all_digits(digits),
        decimal(digits) > i32::MAX,
    ensures
        rpn_value(digits + rest) == EvaluationResult::InputNumberOverflow,
{
    lemma_reading_oversized_operand(Registers::start(), digits);
    assert(is_digit(digits.first()) && is_digit(digits.last()));
    lemma_error_in_front_is_the_result(digits, rest, EvaluationResult::InputNumberOverflow);
}

/// An operator that stands where the first operand is still being read, at
/// the very start or right behind its digits, makes the result
/// `FoundNonDigit` with that operator, whatever follows it.
pub proof fn lemma_operator_in_first_operand(digits: Seq<char>, c: char, rest: Seq<char>)
    requires
        all_digits(digits),
        decimal(digits) <= i32::MAX,
        operator_named(c) is Some,
    ensures
        rpn_value(digits + seq![c] + rest) == EvaluationResult::FoundNonDigit(c),
{
    let front = digits + seq![c];
    let reached = with_operand(Registers::start(), decimal(digits) as i32);
    lemma_reading_operand(Registers::start(), digits);
    lemma_reading_char(reached, c);
    lemma_after_all_concat(Registers::start(), digits, seq![c]);
    if digits.len() > 0 {
        assert(is_digit(digits.first()));
        assert(front.first() == digits.first());
    }
    assert(front.last() == c);
    lemma_error_in_front_is_the_result(front, rest, EvaluationResult::FoundNonDigit(c));
}

/// An operator is refused with `FoundNonDigit` in every state that expects
/// a digit, and a digit with `FoundNonOperator` in the state that expects an
/// operator; in the other states each is accepted or raises an arithmetic
/// error.
pub proof fn lemma_tokens_out_of_place(registers: Registers, c: char)
    ensures
        operator_named(c) is Some && registers.step != EvaluationStep::ReadingOperator
            ==> registers.after(c) == Err::<Registers, EvaluationResult>(
            EvaluationResult::FoundNonDigit(c),
        ),
        is_digit(c) && registers.step == EvaluationStep::ReadingOperator ==> registers.after(c)
            == Err::<Registers, EvaluationResult>(EvaluationResult::FoundNonOperator(c)),
        registers.after(c) == Err::<Registers, EvaluationResult>(
            EvaluationResult::FoundNonDigit(c),
        ) ==> operator_named(c) is Some && registers.step != EvaluationStep::ReadingOperator,
        registers.after(c) == Err::<Registers, EvaluationResult>(
            EvaluationResult::FoundNonOperator(c),
        ) ==> is_digit(c) && registers.step == EvaluationStep::ReadingOperator,
{
}

/// A digit that stands where an operator is expected, behind a well-formed
/// expression and a further operand, makes the result `FoundNonOperator`
/// with that digit, whatever follows it.
pub proof fn lemma_digit_in_place_of_operator(
    first: Seq<char>,
    rounds: Seq<Round>,
    operand: Seq<char>,
    c: char,
    rest: Seq<char>,
)
    requires
        has_valid_operands(first, rounds),
        stays_in_range(first, rounds),
        is_operand(operand),
        is_digit(c),
    ensures
        rpn_value(expression_text(first, rounds) + seq![' '] + operand + seq![' ', c] + rest)
            == EvaluationResult::FoundNonOperator(c),
{
    let expression = expression_text(first, rounds);
    let reached = registers_after(first, rounds);
    let spaced = seq![' '] + operand + seq![' '];
    let front = expression + spaced + seq![c];
    let ready = Registers {
        step: EvaluationStep::ReadingOperator,
        value1: reached.value1,
        value2: decimal(operand) as i32,
    };
    lemma_reading_expression(first, rounds);
    lemma_reading_spaced_operand(reached, operand);
    lemma_after_all_concat(Registers::start(), expression, spaced);
    lemma_reading_char(ready, c);
    lemma_after_all_concat(Registers::start(), expression + spaced, seq![c]);
    assert(is_digit(first.first()));
    assert(front.first() == first.first());
    assert(front.last() == c);
    assert(front + rest == expression + seq![' '] + operand + seq![' ', c] + rest);
    lemma_error_in_front_is_the_result(front, rest, EvaluationResult::FoundNonOperator(c));
}

/// A digit that stands right behind an operator makes the result
/// `FoundNonOperator` with that digit, whatever follows it.
pub proof fn lemma_digit_behind_operator(
    first: Seq<char>,
    rounds: Seq<Round>,
    c: char,
    rest: Seq<char>,
)
    requires
        has_valid_operands(first, rounds),
        stays_in_range(first, rounds),
        rounds.len() > 0,
        is_digit(c),
    ensures
        rpn_value(expression_text(first, rounds) + seq![c] + rest)
            == EvaluationResult::FoundNonOperator(c),
{
    let expression = expression_text(first, rounds);
    let front = expression + seq![c];
    lemma_reading_expression(first, rounds);
    lemma_reading_char(registers_after(first, rounds), c);
    lemma_after_all_concat(Registers::start(), expression, seq![c]);
    assert(is_digit(first.first()));
    assert(front.first() == first.first());
    assert(front.last() == c);
    lemma_error_in_front_is_the_result(front, rest, EvaluationResult::FoundNonOperator(c));
}

/// Evaluation has no memory: the result is determined by the text, so two
/// evaluations of the same text agree.
pub proof fn lemma_evaluation_is_repeatable(
    once: Seq<char>,
    again: Seq<char>,
    result1: EvaluationResult,
    result2: EvaluationResult,
)
    requires
        once == again,
        result1 == rpn_value(once),
        result2 == rpn_value(again),
    ensures
        result1 == result2,
{
}

/// White space around the text does not change the result.
pub proof fn lemma_surrounding_white_space_is_ignored(
    left: Seq<char>,
    core: Seq<char>,
    right: Seq<char>,
)
    requires
        all_white_space(left),
        all_white_space(right),
    ensures
        rpn_value(left + core + right) == rpn_value(core),
{
    lemma_trimmed_ignores_padding(left, core, right);
}

/// Input that holds nothing, or white space only, evaluates to zero.
pub proof fn lemma_blank_input_is_zero(input: Seq<char>)
    requires
        all_white_space(input),
    ensures
        rpn_value(input) == EvaluationResult::Success(0),
{
    let nothing = Seq::<char>::empty();
    lemma_trimmed_ignores_padding(input, nothing, nothing);
    assert(input + nothing + nothing == input);
    assert(trimmed(nothing) == nothing);
}

/// Whether `result` is one of the errors that reading a character can raise.
pub open spec fn is_raised_error(result: EvaluationResult) -> bool {
    ||| result is InvalidCharacterFound
    ||| result is FoundNonOperator
    ||| result is FoundNonDigit
    ||| result is InputNumberOverflow
    ||| result is DivByZero
    ||| result is Overflow
}

/// Reading text raises none but the six errors of `is_raised_error`.
pub proof fn lemma_raised_errors(registers: Registers, s: Seq<char>)
    ensures
        registers.after_all(s) matches Err(e) ==> is_raised_error(e),
    decreases s.len(),
{
    if s.len() > 0 {
        lemma_raised_errors(registers, s.drop_last());
    }
}

/// An evaluation ends with a value or with one of the six errors that
/// reading a character can raise: `InputEmpty` and `InputNotComplete` are
/// never its result.
pub proof fn lemma_reserved_results_never_arise(input: Seq<char>)
    ensures
        rpn_value(input) is Success || is_raised_error(rpn_value(input)),
        !(rpn_value(input) is InputEmpty),
        !(rpn_value(input) is InputNotComplete),
{
    lemma_raised_errors(Registers::start(), trimmed(input));
}

/// The step changes on a space and on nothing else, and never goes back to
/// the first operand.
pub proof fn lemma_step_moves_on_space_only(registers: Registers, c: char)
    ensures
        registers.step.next() != EvaluationStep::ReadingValue1,
        registers.after(c) matches Ok(next) ==> next.step == if c == ' ' {
            registers.step.next()
        } else {
            registers.step
        },
{
}

} // verus!
