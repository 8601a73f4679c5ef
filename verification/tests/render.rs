use sntk::instruction::{
    Instruction, InstructionType, IrExpression, LiteralValue, Parameter, ParameterKind,
};
use sntk::position::Position;
use sntk::token::TokenKind;
use sntk::types::DataType;

fn number(n: f64) -> IrExpression {
    IrExpression::Literal(LiteralValue::Number(n.to_bits()))
}

fn name(s: &str) -> IrExpression {
    IrExpression::Identifier(s.to_string())
}

#[test]
fn instructions_render_by_kind() {
    let store = InstructionType::StoreName("x".to_string(), name("y"));
    assert_eq!(store.to_text(), "store_identifier(x, y)");
    assert_eq!(InstructionType::Return(name("x")).to_text(), "return(x)");
    assert_eq!(InstructionType::Expression(name("x")).to_text(), "expression(x)");
    assert_eq!(InstructionType::Nop.to_text(), "none");
    let five = Instruction::new(InstructionType::Return(number(5.0)), Position(1, 1));
    assert_eq!(five.to_text(), "return(5)");
    let instruction = Instruction::new(InstructionType::Return(name("x")), Position(1, 1));
    assert_eq!(instruction.to_text(), "return(x)");
}

#[test]
fn string_literal_is_quoted_in_an_expression() {
    let literal = LiteralValue::String("hi".to_string());
    assert_eq!(literal.to_text(), "hi");
    assert_eq!(IrExpression::Literal(literal).to_text(), "\"hi\"");
}

#[test]
fn lists_keep_their_order_and_are_separated() {
    let call = IrExpression::Call(Box::new(name("f")), vec![name("a"), name("b"), name("c")]);
    assert_eq!(call.to_text(), "f(a, b, c)");
    let empty = IrExpression::Call(Box::new(name("f")), vec![]);
    assert_eq!(empty.to_text(), "f()");
    let array = LiteralValue::Array(vec![name("a"), IrExpression::Literal(LiteralValue::Boolean(true))]);
    assert_eq!(array.to_text(), "[a, true]");
    let object = LiteralValue::Object(vec![
        ("k".to_string(), name("a")),
        ("l".to_string(), IrExpression::Literal(LiteralValue::String("s".to_string()))),
    ]);
    assert_eq!(object.to_text(), "{k: a, l: \"s\"}");
}

#[test]
fn expressions_render_by_variant() {
    let block = IrExpression::Block(vec![
        Instruction::new(InstructionType::StoreName("x".to_string(), name("y")), Position(1, 1)),
        Instruction::new(InstructionType::Return(name("x")), Position(2, 1)),
    ]);
    assert_eq!(
        block.to_text(),
        "block(store_identifier(x, y), return(x))"
    );
    let with_else = IrExpression::If(Box::new(name("c")), Box::new(name("t")), Box::new(Some(name("e"))));
    assert_eq!(with_else.to_text(), "if(c, t, e)");
    let without = IrExpression::If(Box::new(name("c")), Box::new(name("t")), Box::new(None));
    assert_eq!(without.to_text(), "if(c, t, None)");
    let index = IrExpression::Index(Box::new(name("a")), Box::new(name("i")));
    assert_eq!(index.to_text(), "index(a, i)");
    let prefix = IrExpression::Prefix(TokenKind::Bang, Box::new(name("b")));
    assert_eq!(prefix.to_text(), "prefix(!, b)");
    let infix = IrExpression::Infix(TokenKind::LTE, Box::new(name("a")), Box::new(name("b")));
    assert_eq!(infix.to_text(), "infix(<=, a, b)");
}

#[test]
fn function_renders_its_parameters_and_result() {
    let function = LiteralValue::Function(
        vec![
            Parameter { name: "a".to_string(), kind: ParameterKind::Normal },
            Parameter { name: "b".to_string(), kind: ParameterKind::Spread },
        ],
        vec![],
        DataType::Number,
        None,
    );
    assert_eq!(function.to_text(), "fn(a, ...b) -> number");
}

#[test]
fn numbers_render_in_decimal() {
    assert_eq!(number(5.0).to_text(), "5");
    assert_eq!(number(0.5).to_text(), "0.5");
    assert_eq!(number(-12.25).to_text(), "-12.25");
    assert_eq!(LiteralValue::Number(7.0f64.to_bits()).to_text(), "7");
}

#[test]
fn number_text_is_that_of_the_software_floats() {
    let text = |n: f64| LiteralValue::Number(n.to_bits()).to_text();
    assert_eq!(text(0.1), "0.10000000000000001");
    assert_eq!(text(10000.0), "1.0E+4");
    assert_eq!(text(1000.0), "1000");
    assert_eq!(text(0.0), "0");
    assert_eq!(text(-0.0), "-0");
    assert_eq!(text(f64::INFINITY), "+Inf");
    assert_eq!(text(f64::NEG_INFINITY), "-Inf");
    assert_eq!(text(f64::NAN), "NaN");
    assert_eq!(text(1.5e300), "1.5000000000000001E+300");
}

#[test]
fn types_render() {
    assert_eq!(DataType::Number.to_text(), "number");
    assert_eq!(DataType::String.to_text(), "string");
    assert_eq!(DataType::Boolean.to_text(), "boolean");
    assert_eq!(DataType::Void.to_text(), "void");
    assert_eq!(DataType::Auto.to_text(), "auto");
    assert_eq!(DataType::Generic("T".to_string()).to_text(), "T");
    assert_eq!(DataType::Array(Box::new(DataType::Number)).to_text(), "number[]");
    let function = DataType::Function(vec![DataType::Number, DataType::String], Box::new(DataType::Boolean));
    assert_eq!(function.to_text(), "fn(number, string) -> boolean");
    let object = DataType::Object(vec![
        ("a".to_string(), DataType::Number),
        ("b".to_string(), DataType::String),
    ]);
    assert_eq!(object.to_text(), "{a: number, b: string}");
}

#[test]
fn operators_render_as_their_symbols() {
    assert_eq!(TokenKind::Plus.to_text(), "+");
    assert_eq!(TokenKind::NEQ.to_text(), "!=");
    assert_eq!(TokenKind::GTE.to_text(), ">=");
    assert_eq!(TokenKind::Assign.to_text(), "=");
}
