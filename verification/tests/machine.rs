use rpn_eval::text::{has_white_space, trim};
use rpn_eval::EvaluationResult as ER;
use rpn_eval::EvaluationStep as S;
use rpn_eval::Registers;
use rpn_eval::RpnOperator as OP;

fn registers(step: S, value1: i32, value2: i32) -> Registers {
    Registers { step, value1, value2 }
}

#[test]
fn registers_start_empty() {
    assert_eq!(Registers::new(), registers(S::ReadingValue1, 0, 0));
}

#[test]
fn space_moves_on_and_clears_the_second_operand() {
    assert_eq!(registers(S::ReadingValue1, 7, 9).feed(' '), Ok(registers(S::ReadingValue2, 7, 0)));
    assert_eq!(
        registers(S::ReadingValue2, 7, 9).feed(' '),
        Ok(registers(S::ReadingOperator, 7, 9))
    );
    assert_eq!(
        registers(S::ReadingOperator, 7, 9).feed(' '),
        Ok(registers(S::ReadingValue2, 7, 0))
    );
}

#[test]
fn digit_extends_the_operand_being_read() {
    assert_eq!(registers(S::ReadingValue1, 12, 5).feed('3'), Ok(registers(S::ReadingValue1, 123, 5)));
    assert_eq!(registers(S::ReadingValue2, 12, 5).feed('0'), Ok(registers(S::ReadingValue2, 12, 50)));
    assert_eq!(registers(S::ReadingValue1, 0, 0).feed('0'), Ok(registers(S::ReadingValue1, 0, 0)));
    assert_eq!(
        registers(S::ReadingValue2, 1, 214748364).feed('7'),
        Ok(registers(S::ReadingValue2, 1, 2147483647))
    );
}

#[test]
fn digit_that_overflows_the_operand() {
    assert_eq!(registers(S::ReadingValue2, 1, 214748364).feed('8'), Err(ER::InputNumberOverflow));
    assert_eq!(registers(S::ReadingValue1, 214748365, 0).feed('0'), Err(ER::InputNumberOverflow));
    assert_eq!(registers(S::ReadingValue1, 2147483647, 0).feed('0'), Err(ER::InputNumberOverflow));
    assert_eq!(registers(S::ReadingValue1, -214748365, 0).feed('0'), Err(ER::InputNumberOverflow));
}

#[test]
fn digit_is_refused_where_an_operator_is_expected() {
    assert_eq!(registers(S::ReadingOperator, 1, 2).feed('3'), Err(ER::FoundNonOperator('3')));
}

#[test]
fn operator_combines_the_operands() {
    assert_eq!(registers(S::ReadingOperator, 8, 2).feed('+'), Ok(registers(S::ReadingOperator, 10, 2)));
    assert_eq!(registers(S::ReadingOperator, 8, 2).feed('-'), Ok(registers(S::ReadingOperator, 6, 2)));
    assert_eq!(registers(S::ReadingOperator, 8, 2).feed('*'), Ok(registers(S::ReadingOperator, 16, 2)));
    assert_eq!(registers(S::ReadingOperator, 8, 2).feed('/'), Ok(registers(S::ReadingOperator, 4, 2)));
}

#[test]
fn operator_that_fails() {
    assert_eq!(registers(S::ReadingOperator, 8, 0).feed('/'), Err(ER::DivByZero));
    assert_eq!(
        registers(S::ReadingOperator, i32::MIN, 1).feed('-'),
        Err(ER::Overflow {
            last_valid_value1: i32::MIN,
            last_valid_value2: 1,
            attempted_operation: OP::Subtraction,
        })
    );
}

#[test]
fn operator_is_refused_where_a_digit_is_expected() {
    assert_eq!(registers(S::ReadingValue1, 0, 0).feed('+'), Err(ER::FoundNonDigit('+')));
    assert_eq!(registers(S::ReadingValue2, 4, 0).feed('/'), Err(ER::FoundNonDigit('/')));
}

#[test]
fn other_characters_are_refused_in_every_step() {
    for step in [S::ReadingValue1, S::ReadingValue2, S::ReadingOperator] {
        assert_eq!(registers(step, 1, 2).feed('a'), Err(ER::InvalidCharacterFound('a')));
        assert_eq!(registers(step, 1, 2).feed('\t'), Err(ER::InvalidCharacterFound('\t')));
        assert_eq!(registers(step, 1, 2).feed('\u{a0}'), Err(ER::InvalidCharacterFound('\u{a0}')));
    }
}

#[test]
fn step_changes_on_space_only() {
    for step in [S::ReadingValue1, S::ReadingValue2, S::ReadingOperator] {
        for c in ['0', '9', '+', '-', '*', '/'] {
            if let Ok(next) = registers(step, 6, 3).feed(c) {
                assert_eq!(next.step, step);
            }
        }
    }
}

#[test]
fn white_space_is_what_std_calls_white_space() {
    let mut count = 0;
    for code in 0..=0x10ffffu32 {
        if let Some(c) = char::from_u32(code) {
            assert_eq!(has_white_space(c), c.is_whitespace(), "U+{:04X}", code);
            if has_white_space(c) {
                count += 1;
            }
        }
    }
    assert_eq!(count, 25);
}

#[test]
fn trim_drops_white_space_at_both_ends() {
    assert_eq!(trim(" 1 1 * "), "1 1 *");
    assert_eq!(trim("1 1 *"), "1 1 *");
    assert_eq!(trim("\t\n 1 \r\n"), "1");
    assert_eq!(trim("  a  b  "), "a  b");
    assert_eq!(trim("x"), "x");
    assert_eq!(trim(" x"), "x");
    assert_eq!(trim("x "), "x");
}

#[test]
fn trim_of_blank_text_is_empty() {
    assert_eq!(trim(""), "");
    assert_eq!(trim(" "), "");
    assert_eq!(trim(" \t \u{3000}\n"), "");
}

#[test]
fn trim_agrees_with_std() {
    let samples = [
        "",
        " ",
        "a",
        " a",
        "a ",
        "  5 5 + 5 +  ",
        "\u{3000}\u{e9}t\u{e9}\u{2003}",
        "\u{200b} x \u{200b}",
        "\u{1680}\u{10348} \u{10348}\u{205f}",
        "\n\n\n",
        "\u{85}z\u{a0}",
        "\u{feff} q",
    ];
    for sample in samples {
        assert_eq!(trim(sample), sample.trim(), "{:?}", sample);
    }
}
