use sntk::ast::{
    Expression, ExpressionStatement, LetStatement, Parameter, Program, ReturnStatement, Statement,
};
use sntk::compiler::{type_of, Compiler, CompilerTrait};
use sntk::instruction::{Instruction, InstructionType, IrExpression, ParameterKind};
use sntk::symbol_table::{SymbolEntry, SymbolTable};
use sntk::error::{CompileError, RuntimeError, RuntimeErrorKind, TypeError};
use sntk::instruction::LiteralValue;
use sntk::position::Position;
use sntk::token::TokenKind;
use sntk::types::DataType;

fn p(line: usize, column: usize) -> Position {
    Position(line, column)
}

fn num(n: f64) -> Expression {
    Expression::NumberLiteral { value: n.to_bits(), position: p(1, 1) }
}

fn text(s: &str) -> Expression {
    Expression::StringLiteral { value: s.to_string(), position: p(1, 1) }
}

fn ident(s: &str) -> Expression {
    Expression::Identifier { value: s.to_string(), position: p(1, 1) }
}

fn infix(left: Expression, operator: TokenKind, right: Expression) -> Expression {
    Expression::InfixExpression {
        left: Box::new(left),
        operator,
        right: Box::new(right),
        position: p(1, 1),
    }
}

fn call(function: Expression, arguments: Vec<Expression>) -> Expression {
    Expression::CallExpression { function: Box::new(function), arguments, position: p(1, 1) }
}

fn function(parameters: Vec<&str>, body: Vec<Statement>) -> Expression {
    Expression::FunctionLiteral {
        parameters: parameters
            .into_iter()
            .map(|name| Parameter {
                name: name.to_string(),
                data_type: DataType::Auto,
                kind: ParameterKind::Normal,
                position: p(1, 1),
            })
            .collect(),
        return_type: DataType::Auto,
        body,
        position: p(1, 1),
    }
}

fn function_giving(parameters: Vec<&str>, return_type: DataType, body: Vec<Statement>) -> Expression {
    match function(parameters, body) {
        Expression::FunctionLiteral { parameters, body, position, .. } => {
            Expression::FunctionLiteral { parameters, return_type, body, position }
        }
        other => other,
    }
}

fn let_(name: &str, data_type: DataType, value: Expression, line: usize) -> Statement {
    Statement::LetStatement(LetStatement {
        name: name.to_string(),
        data_type,
        value,
        position: p(line, 1),
    })
}

fn return_(value: Expression, line: usize) -> Statement {
    Statement::ReturnStatement(ReturnStatement { value, position: p(line, 1) })
}

fn expression(expression: Expression, line: usize) -> Statement {
    Statement::ExpressionStatement(ExpressionStatement { expression, position: p(line, 1) })
}

fn array(elements: Vec<Expression>) -> Expression {
    Expression::ArrayLiteral { elements, position: p(1, 1) }
}

fn index(left: Expression, index: Expression) -> Expression {
    Expression::IndexExpression { left: Box::new(left), index: Box::new(index), position: p(1, 1) }
}

enum Failure {
    Compile(CompileError),
    Runtime(RuntimeError),
}

fn run(statements: Vec<Statement>) -> Result<LiteralValue, Failure> {
    let mut compiler = Compiler::new(Program { statements, errors: vec![] });
    let mut interpreter = compiler.compile_program().map_err(Failure::Compile)?;
    interpreter.eval().map_err(Failure::Runtime)?;
    interpreter.last().map_err(Failure::Runtime)
}

fn value(statements: Vec<Statement>) -> LiteralValue {
    match run(statements) {
        Ok(v) => v,
        Err(Failure::Compile(e)) => panic!("refused: {:?}", e),
        Err(Failure::Runtime(e)) => panic!("failed: {:?}", e),
    }
}

fn number(n: f64) -> LiteralValue {
    LiteralValue::Number(n.to_bits())
}

#[test]
fn let_with_annotation_then_return() {
    let program = vec![let_("x", DataType::Number, num(5.0), 1), return_(ident("x"), 2)];
    assert_eq!(value(program), number(5.0));
}

#[test]
fn product_binds_tighter_in_the_tree() {
    let e = infix(num(1.0), TokenKind::Plus, infix(num(2.0), TokenKind::Asterisk, num(3.0)));
    assert_eq!(value(vec![return_(e, 1)]), number(7.0));
}

#[test]
fn strings_are_joined() {
    let e = infix(text("hi"), TokenKind::Plus, text(" there"));
    assert_eq!(value(vec![return_(e, 1)]), LiteralValue::String("hi there".to_string()));
}

#[test]
fn function_is_called_with_its_argument() {
    let f = function(vec!["x"], vec![return_(infix(ident("x"), TokenKind::Plus, num(1.0)), 1)]);
    let program = vec![
        let_("f", DataType::Auto, f, 1),
        return_(call(ident("f"), vec![num(41.0)]), 2),
    ];
    assert_eq!(value(program), number(42.0));
}

#[test]
fn returned_function_closes_over_the_parameter() {
    let inner = function(vec!["x"], vec![return_(infix(ident("x"), TokenKind::Plus, ident("n")), 1)]);
    let make = function(vec!["n"], vec![return_(inner, 1)]);
    let program = vec![
        let_("make", DataType::Auto, make, 1),
        let_("add3", DataType::Auto, call(ident("make"), vec![num(3.0)]), 2),
        return_(call(ident("add3"), vec![num(4.0)]), 3),
    ];
    assert_eq!(value(program), number(7.0));
}

#[test]
fn conditional_gives_the_value_of_the_selected_branch() {
    let e = Expression::IfExpression {
        condition: Box::new(infix(num(1.0), TokenKind::LT, num(2.0))),
        consequence: vec![expression(num(10.0), 1)],
        alternative: Some(vec![expression(num(20.0), 1)]),
        position: p(1, 8),
    };
    assert_eq!(value(vec![return_(e, 1)]), number(10.0));
}

#[test]
fn index_selects_the_element() {
    let e = index(array(vec![num(1.0), num(2.0), num(3.0)]), num(1.0));
    assert_eq!(value(vec![return_(e, 1)]), number(2.0));
}

#[test]
fn index_past_the_end_fails() {
    let e = index(array(vec![num(1.0), num(2.0), num(3.0)]), num(9.0));
    match run(vec![return_(e, 7)]) {
        Err(Failure::Runtime(error)) => {
            assert_eq!(error.kind, RuntimeErrorKind::IndexOutOfBounds(9));
            assert_eq!(error.position, Position(7, 1));
        }
        _ => panic!("an index error was expected"),
    }
}

#[test]
fn unbound_name_fails_when_it_is_used() {
    match run(vec![return_(ident("y"), 3)]) {
        Err(Failure::Runtime(error)) => {
            assert_eq!(error.kind, RuntimeErrorKind::UndefinedVariable("y".to_string()));
            assert_eq!(error.position, Position(3, 1));
        }
        _ => panic!("an undefined variable was expected"),
    }
}

#[test]
fn annotation_that_the_value_does_not_have_is_refused() {
    let value = Expression::StringLiteral { value: "hi".to_string(), position: p(1, 17) };
    match run(vec![let_("x", DataType::Number, value, 1)]) {
        Err(Failure::Compile(error)) => assert_eq!(
            error,
            CompileError::TypeError(
                TypeError::ExpectedDataType(DataType::Number, DataType::String),
                Position(1, 17)
            )
        ),
        _ => panic!("a type error was expected"),
    }
}

#[test]
fn program_without_a_last_return_gives_false() {
    let program = vec![let_("x", DataType::Auto, text("kept"), 1), expression(ident("x"), 2)];
    assert_eq!(value(program), LiteralValue::Boolean(false));
    let returned = vec![let_("x", DataType::Auto, text("kept"), 1), return_(ident("x"), 2)];
    assert_eq!(value(returned), LiteralValue::String("kept".to_string()));
}

#[test]
fn logged_values_are_recorded_in_order() {
    let program = vec![
        expression(call(ident("log"), vec![num(1.0)]), 1),
        expression(call(ident("log"), vec![text("two")]), 2),
    ];
    let mut compiler = Compiler::new(Program { statements: program, errors: vec![] });
    let mut interpreter = compiler.compile_program().unwrap();
    interpreter.eval().unwrap();
    interpreter.last().unwrap();
    assert_eq!(interpreter.output, vec![number(1.0), LiteralValue::String("two".to_string())]);
}

#[test]
fn literals_come_back_from_a_binding() {
    let round_trip = |literal: Expression| {
        value(vec![let_("x", DataType::Auto, literal, 1), return_(ident("x"), 2)])
    };
    assert_eq!(round_trip(num(2.5)), number(2.5));
    assert_eq!(round_trip(text("t")), LiteralValue::String("t".to_string()));
    assert_eq!(
        round_trip(Expression::BooleanLiteral { value: true, position: p(1, 1) }),
        LiteralValue::Boolean(true)
    );
    assert_eq!(
        round_trip(array(vec![num(1.0), array(vec![text("in")])])),
        LiteralValue::Array(vec![
            IrExpression::Literal(number(1.0)),
            IrExpression::Literal(LiteralValue::Array(vec![IrExpression::Literal(
                LiteralValue::String("in".to_string())
            )])),
        ])
    );
}

fn positions_of(instructions: &[Instruction], found: &mut Vec<Position>) {
    for instruction in instructions {
        found.push(instruction.position);
        match &instruction.instruction {
            InstructionType::StoreName(_, e)
            | InstructionType::Return(e)
            | InstructionType::Expression(e) => positions_in(e, found),
            InstructionType::Nop => {}
        }
    }
}

fn positions_in(e: &IrExpression, found: &mut Vec<Position>) {
    match e {
        IrExpression::Identifier(_) => {}
        IrExpression::Literal(LiteralValue::Function(_, body, _, _)) => positions_of(body, found),
        IrExpression::Literal(LiteralValue::Array(elements)) => {
            elements.iter().for_each(|e| positions_in(e, found))
        }
        IrExpression::Literal(LiteralValue::Object(pairs)) => {
            pairs.iter().for_each(|(_, e)| positions_in(e, found))
        }
        IrExpression::Literal(_) => {}
        IrExpression::Block(b) => positions_of(b, found),
        IrExpression::If(c, t, a) => {
            positions_in(c, found);
            positions_in(t, found);
            if let Some(a) = a.as_ref() {
                positions_in(a, found);
            }
        }
        IrExpression::Call(f, arguments) => {
            positions_in(f, found);
            arguments.iter().for_each(|e| positions_in(e, found));
        }
        IrExpression::Index(l, i) => {
            positions_in(l, found);
            positions_in(i, found);
        }
        IrExpression::Prefix(_, r) => positions_in(r, found),
        IrExpression::Infix(_, l, r) => {
            positions_in(l, found);
            positions_in(r, found);
        }
    }
}

#[test]
fn instructions_carry_the_positions_of_statements() {
    let branch = Expression::IfExpression {
        condition: Box::new(Expression::BooleanLiteral { value: true, position: p(3, 4) }),
        consequence: vec![expression(num(1.0), 30), return_(num(2.0), 31)],
        alternative: Some(vec![expression(num(3.0), 32)]),
        position: p(3, 1),
    };
    let f = function(vec!["x"], vec![let_("y", DataType::Auto, branch, 20), return_(ident("y"), 21)]);
    let program = vec![let_("f", DataType::Auto, f, 1), expression(call(ident("f"), vec![num(0.0)]), 2)];
    let mut compiler = Compiler::new(Program { statements: program, errors: vec![] });
    let interpreter = compiler.compile_program().unwrap();
    let mut found = Vec::new();
    positions_of(&interpreter.instructions, &mut found);
    found.sort_by_key(|p| p.0);
    let lines: Vec<usize> = found.iter().map(|p| p.0).collect();
    assert_eq!(lines, vec![1, 2, 20, 21, 30, 31, 32]);
    assert!(found.iter().all(|p| p.1 == 1));
}

#[test]
fn type_is_inferred_from_the_scope() {
    let mut scope = SymbolTable::new(None);
    scope.insert("n", SymbolEntry::of(DataType::Number));
    scope.insert(
        "f",
        SymbolEntry::of(DataType::Function(vec![DataType::Number], Box::new(DataType::String))),
    );
    assert_eq!(type_of(&ident("n"), &scope), Ok(DataType::Number));
    assert_eq!(type_of(&ident("unknown"), &scope), Ok(DataType::Auto));
    assert_eq!(type_of(&call(ident("f"), vec![ident("n")]), &scope), Ok(DataType::String));
    assert_eq!(type_of(&infix(ident("n"), TokenKind::LT, num(1.0)), &scope), Ok(DataType::Boolean));
    assert_eq!(
        type_of(&array(vec![text("a")]), &scope),
        Ok(DataType::Array(Box::new(DataType::String)))
    );
    assert_eq!(type_of(&array(vec![]), &scope), Ok(DataType::Array(Box::new(DataType::Auto))));
    assert_eq!(type_of(&index(array(vec![text("a")]), ident("n")), &scope), Ok(DataType::String));
    assert_eq!(
        type_of(&function(vec!["x"], vec![return_(num(1.0), 1)]), &scope),
        Ok(DataType::Function(vec![DataType::Auto], Box::new(DataType::Number)))
    );
    assert_eq!(
        type_of(&function(vec![], vec![let_("a", DataType::Auto, num(1.0), 1)]), &scope),
        Ok(DataType::Function(vec![], Box::new(DataType::Void)))
    );
}

#[test]
fn captured_snapshot_does_not_see_later_names() {
    let inner = function_giving(vec!["g"], DataType::Number, vec![return_(call(ident("g"), vec![]), 1)]);
    let make = function(vec![], vec![return_(inner, 1)]);
    let f = function(vec![], vec![return_(ident("y"), 4)]);
    let program = vec![
        let_("make", DataType::Auto, make, 1),
        let_("c", DataType::Auto, call(ident("make"), vec![]), 2),
        let_("y", DataType::Auto, num(1.0), 3),
        let_("f", DataType::Auto, f, 4),
        return_(call(ident("c"), vec![ident("f")]), 5),
    ];
    match run(program) {
        Err(Failure::Runtime(error)) => {
            assert_eq!(error.kind, RuntimeErrorKind::UndefinedVariable("y".to_string()));
        }
        _ => panic!("the snapshot was expected not to bind y"),
    }
}

#[test]
fn function_sees_names_bound_after_its_definition_when_called_by_name() {
    let f = function_giving(vec![], DataType::Number, vec![return_(ident("late"), 1)]);
    let program = vec![
        let_("f", DataType::Auto, f, 1),
        let_("late", DataType::Auto, num(8.0), 2),
        return_(call(ident("f"), vec![]), 3),
    ];
    assert_eq!(value(program), number(8.0));
}

#[test]
fn function_can_call_itself_by_name() {
    let condition = infix(ident("n"), TokenKind::LT, num(1.0));
    let branch = Expression::IfExpression {
        condition: Box::new(condition),
        consequence: vec![expression(num(0.0), 1)],
        alternative: Some(vec![expression(
            infix(
                ident("n"),
                TokenKind::Plus,
                call(ident("sum"), vec![infix(ident("n"), TokenKind::Minus, num(1.0))]),
            ),
            1,
        )]),
        position: p(1, 1),
    };
    let sum = function(vec!["n"], vec![return_(branch, 1)]);
    let program = vec![
        let_("sum", DataType::Auto, sum, 1),
        return_(call(ident("sum"), vec![num(10.0)]), 2),
    ];
    assert_eq!(value(program), number(55.0));
}

#[test]
fn recursion_near_the_default_depth_runs() {
    let condition = infix(ident("n"), TokenKind::LT, num(1.0));
    let branch = Expression::IfExpression {
        condition: Box::new(condition),
        consequence: vec![expression(num(0.0), 1)],
        alternative: Some(vec![expression(
            infix(
                ident("n"),
                TokenKind::Plus,
                call(ident("sum"), vec![infix(ident("n"), TokenKind::Minus, num(1.0))]),
            ),
            1,
        )]),
        position: p(1, 1),
    };
    let sum = function(vec!["n"], vec![return_(branch, 1)]);
    let program = vec![
        let_("sum", DataType::Auto, sum, 1),
        return_(call(ident("sum"), vec![num(250.0)]), 2),
    ];
    assert_eq!(value(program), number(31375.0));
}
