use sntk::instruction::{Instruction, InstructionType, IrExpression, LiteralValue};
use sntk::interpreter::IrInterpreter;
use sntk::number;
use sntk::position::Position;
use sntk::token::TokenKind;

fn samples() -> Vec<f64> {
    vec![
        0.0,
        -0.0,
        1.0,
        -1.0,
        0.5,
        2.0,
        3.0,
        7.25,
        -7.25,
        0.1,
        0.2,
        1e-310,
        -1e-310,
        5e-324,
        1e308,
        -1e308,
        1.7976931348623157e308,
        4294967296.0,
        9007199254740993.0,
        18446744073709551615.0,
        1e19,
        1e30,
        f64::INFINITY,
        f64::NEG_INFINITY,
        f64::NAN,
        123456.789,
        -3.999,
        2147483647.9,
    ]
}

fn infix(op: TokenKind, a: f64, b: f64) -> LiteralValue {
    let e = IrExpression::Infix(
        op,
        Box::new(IrExpression::Literal(LiteralValue::Number(a.to_bits()))),
        Box::new(IrExpression::Literal(LiteralValue::Number(b.to_bits()))),
    );
    let mut interpreter =
        IrInterpreter::new(vec![Instruction::new(InstructionType::Return(e), Position(1, 1))]);
    interpreter.eval().unwrap();
    interpreter.last().unwrap()
}

fn same_number(found: &LiteralValue, expected: f64) -> bool {
    match found {
        LiteralValue::Number(bits) => {
            let found = f64::from_bits(*bits);
            if expected.is_nan() {
                found.is_nan()
            } else {
                found.to_bits() == expected.to_bits()
            }
        }
        _ => false,
    }
}

#[test]
fn sum_is_that_of_the_machine() {
    for a in samples() {
        for b in samples() {
            assert!(same_number(&infix(TokenKind::Plus, a, b), a + b), "{} + {}", a, b);
        }
    }
}

#[test]
fn difference_is_that_of_the_machine() {
    for a in samples() {
        for b in samples() {
            assert!(same_number(&infix(TokenKind::Minus, a, b), a - b), "{} - {}", a, b);
        }
    }
}

#[test]
fn product_is_that_of_the_machine() {
    for a in samples() {
        for b in samples() {
            assert!(same_number(&infix(TokenKind::Asterisk, a, b), a * b), "{} * {}", a, b);
        }
    }
}

#[test]
fn quotient_is_that_of_the_machine() {
    for a in samples() {
        for b in samples() {
            assert!(same_number(&infix(TokenKind::Slash, a, b), a / b), "{} / {}", a, b);
        }
    }
}

#[test]
fn sum_is_not_one_of_its_operands() {
    assert_eq!(infix(TokenKind::Plus, 2.0, 3.0), LiteralValue::Number(5.0f64.to_bits()));
    assert_eq!(infix(TokenKind::Minus, 2.0, 3.0), LiteralValue::Number((-1.0f64).to_bits()));
    assert_eq!(infix(TokenKind::Asterisk, 2.0, 3.0), LiteralValue::Number(6.0f64.to_bits()));
    assert_eq!(infix(TokenKind::Slash, 3.0, 2.0), LiteralValue::Number(1.5f64.to_bits()));
}

#[test]
fn division_by_zero_is_no_error() {
    assert_eq!(infix(TokenKind::Slash, 1.0, 0.0), LiteralValue::Number(f64::INFINITY.to_bits()));
    assert_eq!(
        infix(TokenKind::Slash, -1.0, 0.0),
        LiteralValue::Number(f64::NEG_INFINITY.to_bits())
    );
    assert!(same_number(&infix(TokenKind::Slash, 0.0, 0.0), f64::NAN));
}

#[test]
fn comparisons_are_those_of_the_machine() {
    for a in samples() {
        for b in samples() {
            assert_eq!(infix(TokenKind::EQ, a, b), LiteralValue::Boolean(a == b), "{} == {}", a, b);
            assert_eq!(infix(TokenKind::NEQ, a, b), LiteralValue::Boolean(a != b), "{} != {}", a, b);
            assert_eq!(infix(TokenKind::LT, a, b), LiteralValue::Boolean(a < b), "{} < {}", a, b);
            assert_eq!(infix(TokenKind::LTE, a, b), LiteralValue::Boolean(a <= b), "{} <= {}", a, b);
            assert_eq!(infix(TokenKind::GT, a, b), LiteralValue::Boolean(a > b), "{} > {}", a, b);
            assert_eq!(infix(TokenKind::GTE, a, b), LiteralValue::Boolean(a >= b), "{} >= {}", a, b);
        }
    }
}

#[test]
fn negation_flips_the_sign() {
    for a in samples() {
        assert_eq!(number::negate(a.to_bits()), (-a).to_bits());
    }
}

#[test]
fn truncation_is_the_cast_of_the_machine() {
    for a in samples() {
        assert_eq!(number::to_index(a.to_bits()), a as usize, "{}", a);
    }
    assert_eq!(number::to_index(9.0f64.to_bits()), 9);
    assert_eq!(number::to_index(9.99f64.to_bits()), 9);
    assert_eq!(number::to_index((-1.0f64).to_bits()), 0);
    assert_eq!(number::to_index(f64::NAN.to_bits()), 0);
    assert_eq!(number::to_index(f64::INFINITY.to_bits()), usize::MAX);
}

#[test]
fn nan_is_told_from_numbers() {
    assert!(number::nan(f64::NAN.to_bits()));
    assert!(!number::nan(f64::INFINITY.to_bits()));
    assert!(!number::nan(0.0f64.to_bits()));
    assert!(number::equal(0.0f64.to_bits(), (-0.0f64).to_bits()));
    assert!(!number::less((-0.0f64).to_bits(), 0.0f64.to_bits()));
    assert!(number::less_or_equal((-0.0f64).to_bits(), 0.0f64.to_bits()));
}
