use sntk::instruction::{Instruction, InstructionType, IrExpression, LiteralValue};
use sntk::interpreter::IrInterpreter;
use sntk::error::RuntimeErrorKind;
use sntk::position::Position;
use sntk::token::TokenKind;

fn number(n: f64) -> IrExpression {
    IrExpression::Literal(LiteralValue::Number(n.to_bits()))
}

fn name(s: &str) -> IrExpression {
    IrExpression::Identifier(s.to_string())
}

fn infix(op: TokenKind, l: IrExpression, r: IrExpression) -> IrExpression {
    IrExpression::Infix(op, Box::new(l), Box::new(r))
}

fn at(line: usize, instruction: InstructionType) -> Instruction {
    Instruction::new(instruction, Position(line, 1))
}

fn value_of(program: Vec<Instruction>) -> Result<LiteralValue, sntk::error::RuntimeError> {
    let mut interpreter = IrInterpreter::new(program);
    interpreter.eval()?;
    interpreter.last()
}

#[test]
fn store_then_return_gives_the_stored_number() {
    let program = vec![
        at(1, InstructionType::StoreName("x".to_string(), number(5.0))),
        at(2, InstructionType::Return(name("x"))),
    ];
    assert_eq!(value_of(program), Ok(LiteralValue::Number(5.0f64.to_bits())));
}

#[test]
fn arithmetic_follows_the_tree() {
    let e = infix(TokenKind::Plus, number(1.0), infix(TokenKind::Asterisk, number(2.0), number(3.0)));
    assert_eq!(
        value_of(vec![at(1, InstructionType::Return(e))]),
        Ok(LiteralValue::Number(7.0f64.to_bits()))
    );
}

#[test]
fn index_out_of_bounds_is_reported_with_the_index() {
    let array = IrExpression::Literal(LiteralValue::Array(vec![number(1.0), number(2.0), number(3.0)]));
    let e = IrExpression::Index(Box::new(array), Box::new(number(9.0)));
    let r = value_of(vec![at(4, InstructionType::Return(e))]);
    let error = r.unwrap_err();
    assert_eq!(error.kind, RuntimeErrorKind::IndexOutOfBounds(9));
    assert_eq!(error.position, Position(4, 1));
}
