use rpn_eval::evaluate_rpn;
use rpn_eval::EvaluationResult as ER;

#[test]
fn no_operators_one() {
    let input = "1";
    assert_eq!(evaluate_rpn(input), ER::Success(1));
}

#[test]
fn no_operators_forty_two() {
    let input = "42";
    assert_eq!(evaluate_rpn(input), ER::Success(42));
}

#[test]
fn no_operators_two_thousand_and_four() {
    let input = "2004";
    assert_eq!(evaluate_rpn(input), ER::Success(2004));
}

#[test]
fn one_plus_one() {
    let input = "1 1 +";
    assert_eq!(evaluate_rpn(input), ER::Success(2));
}

#[test]
fn two_plus_two() {
    let input = "2 2 +";
    assert_eq!(evaluate_rpn(input), ER::Success(4));
}

#[test]
fn forty_two_plus_forty_two() {
    let input = "42 42 +";
    assert_eq!(evaluate_rpn(input), ER::Success(84));
}

#[test]
fn thousand_plus_sixty_nine() {
    let input = "1000 69 +";
    assert_eq!(evaluate_rpn(input), ER::Success(1069));
}

#[test]
fn one_minus_one() {
    let input = "1 1 -";
    assert_eq!(evaluate_rpn(input), ER::Success(0));
}

#[test]
fn thousand_minus_one() {
    let input = "1000 1 -";
    assert_eq!(evaluate_rpn(input), ER::Success(999));
}

#[test]
fn getting_a_negative_num() {
    let input = "344 1454364 -";
    assert_eq!(evaluate_rpn(input), ER::Success(-1_454_020));
}

#[test]
fn five_plus_five_plus_five() {
    let input = "5 5 + 5 +";
    assert_eq!(evaluate_rpn(input), ER::Success(15));
}

#[test]
fn complex_addition_and_subtraction() {
    let input = "2 3 + 4 + 5 + 144 - 45 + 3 + 3434 - 34 - 34 - 3455 + 129 +";
    assert_eq!(evaluate_rpn(input), ER::Success(0));
}

#[test]
fn one_times_one() {
    let input = " 1 1 * ";
    assert_eq!(evaluate_rpn(input), ER::Success(1));
}

#[test]
fn thirteen_times_fifty_seven() {
    let input = "13 57 *";
    assert_eq!(evaluate_rpn(input), ER::Success(741));
}

#[test]
fn one_times_two_thousand_and_five() {
    let input = "1 2005 *";
    assert_eq!(evaluate_rpn(input), ER::Success(2005));
}

#[test]
fn negative_multiplication() {
    let input = "0 5 - 25 *";
    assert_eq!(evaluate_rpn(input), ER::Success(-125));
}

#[test]
fn chain_multiplication() {
    let input = "1 2 * 3 * 4 * 5 * 6 * 7 *";
    assert_eq!(evaluate_rpn(input), ER::Success(5040));
}

#[test]
fn negative_chain_multiplication() {
    let input = "0 1 - 2 * 3 * 4 * 5 * 6 * 7 *";
    assert_eq!(evaluate_rpn(input), ER::Success(-5040));
}

#[test]
fn divide_by_zero() {
    let input = "5040 0 /";
    assert_eq!(evaluate_rpn(input), ER::DivByZero);
}

#[test]
fn divide_two_thousand_and_four_by_six() {
    let input = "2004 6 /";
    assert_eq!(evaluate_rpn(input), ER::Success(334));
}
