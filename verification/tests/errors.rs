use sntk::ast::{
    Expression, ExpressionStatement, LetStatement, Parameter, ParsingError, Program,
    ReturnStatement, Statement, TypeStatement,
};
use sntk::builtin::{get_builtin, Builtin};
use sntk::compiler::{Compiler, CompilerTrait};
use sntk::error::{CompileError, RuntimeError, RuntimeErrorKind, TypeError};
use sntk::instruction::{
    Instruction, InstructionType, IrEnvironment, IrExpression, LiteralValue,
    Parameter as IrParameter, ParameterKind,
};
use sntk::interpreter::IrInterpreter;
use sntk::position::Position;
use sntk::token::TokenKind;
use sntk::types::DataType;

fn at(line: usize) -> Position {
    Position(line, 1)
}

fn num(n: f64) -> Expression {
    Expression::NumberLiteral { value: n.to_bits(), position: at(1) }
}

fn boolean(b: bool) -> Expression {
    Expression::BooleanLiteral { value: b, position: at(1) }
}

fn text(s: &str) -> Expression {
    Expression::StringLiteral { value: s.to_string(), position: at(1) }
}

fn ident(s: &str) -> Expression {
    Expression::Identifier { value: s.to_string(), position: at(1) }
}

fn ret(value: Expression, line: usize) -> Statement {
    Statement::ReturnStatement(ReturnStatement { value, position: at(line) })
}

fn let_(name: &str, data_type: DataType, value: Expression, line: usize) -> Statement {
    Statement::LetStatement(LetStatement {
        name: name.to_string(),
        data_type,
        value,
        position: at(line),
    })
}

fn stmt(expression: Expression, line: usize) -> Statement {
    Statement::ExpressionStatement(ExpressionStatement { expression, position: at(line) })
}

fn compile(statements: Vec<Statement>) -> Result<IrInterpreter, CompileError> {
    Compiler::new(Program { statements, errors: vec![] }).compile_program()
}

fn refused(statements: Vec<Statement>) -> CompileError {
    match compile(statements) {
        Ok(_) => panic!("the program was compiled"),
        Err(error) => error,
    }
}

fn lit(n: f64) -> IrExpression {
    IrExpression::Literal(LiteralValue::Number(n.to_bits()))
}

fn var(s: &str) -> IrExpression {
    IrExpression::Identifier(s.to_string())
}

fn run(e: IrExpression) -> Result<LiteralValue, RuntimeError> {
    let mut interpreter = IrInterpreter::new(vec![Instruction::new(InstructionType::Return(e), at(5))]);
    interpreter.eval()?;
    interpreter.last()
}

fn failure(e: IrExpression) -> RuntimeErrorKind {
    match run(e) {
        Ok(v) => panic!("the expression gave {:?}", v),
        Err(error) => {
            assert_eq!(error.position, at(5));
            error.kind
        }
    }
}

#[test]
fn parse_errors_are_handed_back() {
    let errors = vec![ParsingError { message: "unexpected token".to_string(), position: at(2) }];
    let mut compiler = Compiler::new(Program { statements: vec![ret(num(1.0), 1)], errors });
    match compiler.compile_program() {
        Err(CompileError::ParsingError(found)) => {
            assert_eq!(
                found,
                vec![ParsingError { message: "unexpected token".to_string(), position: at(2) }]
            );
        }
        _ => panic!("the parse errors were expected"),
    }
    assert!(compiler.code.0.is_empty());
}

#[test]
fn calling_a_number_is_refused() {
    let call = Expression::CallExpression {
        function: Box::new(num(1.0)),
        arguments: vec![],
        position: Position(3, 4),
    };
    assert_eq!(
        refused(vec![ret(call, 3)]),
        CompileError::TypeError(TypeError::NotCallable(DataType::Number), Position(3, 4))
    );
}

fn identity() -> Expression {
    Expression::FunctionLiteral {
        parameters: vec![Parameter {
            name: "x".to_string(),
            data_type: DataType::Number,
            kind: ParameterKind::Normal,
            position: at(1),
        }],
        return_type: DataType::Auto,
        body: vec![ret(ident("x"), 1)],
        position: at(1),
    }
}

#[test]
fn wrong_number_of_arguments_is_refused() {
    let call = Expression::CallExpression {
        function: Box::new(ident("f")),
        arguments: vec![num(1.0), num(2.0)],
        position: Position(2, 8),
    };
    let program = vec![let_("f", DataType::Auto, identity(), 1), ret(call, 2)];
    assert_eq!(
        refused(program),
        CompileError::TypeError(TypeError::ArityMismatch(1, 2), Position(2, 8))
    );
}

#[test]
fn argument_of_the_wrong_type_is_refused_at_the_argument() {
    let argument = Expression::StringLiteral { value: "s".to_string(), position: Position(2, 10) };
    let call = Expression::CallExpression {
        function: Box::new(ident("f")),
        arguments: vec![argument],
        position: Position(2, 8),
    };
    let program = vec![let_("f", DataType::Auto, identity(), 1), ret(call, 2)];
    assert_eq!(
        refused(program),
        CompileError::TypeError(
            TypeError::ExpectedDataType(DataType::Number, DataType::String),
            Position(2, 10)
        )
    );
}

#[test]
fn operator_out_of_place_is_refused() {
    let e = Expression::InfixExpression {
        left: Box::new(num(1.0)),
        operator: TokenKind::Bang,
        right: Box::new(num(2.0)),
        position: Position(1, 3),
    };
    assert_eq!(
        refused(vec![ret(e, 1)]),
        CompileError::TypeError(
            TypeError::InvalidOperator(TokenKind::Bang, vec![DataType::Number, DataType::Number]),
            Position(1, 3)
        )
    );
    let p = Expression::PrefixExpression {
        operator: TokenKind::Plus,
        right: Box::new(boolean(true)),
        position: Position(1, 2),
    };
    assert_eq!(
        refused(vec![ret(p, 1)]),
        CompileError::TypeError(
            TypeError::InvalidOperator(TokenKind::Plus, vec![DataType::Boolean]),
            Position(1, 2)
        )
    );
}

#[test]
fn operands_of_the_wrong_type_are_refused() {
    let minus = Expression::PrefixExpression {
        operator: TokenKind::Minus,
        right: Box::new(boolean(true)),
        position: Position(1, 2),
    };
    assert_eq!(
        refused(vec![ret(minus, 1)]),
        CompileError::TypeError(
            TypeError::ExpectedDataType(DataType::Number, DataType::Boolean),
            Position(1, 2)
        )
    );
    let less = Expression::InfixExpression {
        left: Box::new(num(1.0)),
        operator: TokenKind::LT,
        right: Box::new(text("a")),
        position: Position(1, 3),
    };
    assert_eq!(
        refused(vec![ret(less, 1)]),
        CompileError::TypeError(
            TypeError::ExpectedDataType(DataType::Number, DataType::String),
            Position(1, 3)
        )
    );
    let condition = Expression::NumberLiteral { value: 1.0f64.to_bits(), position: Position(1, 5) };
    let branch = Expression::IfExpression {
        condition: Box::new(condition),
        consequence: vec![stmt(num(1.0), 1)],
        alternative: None,
        position: Position(1, 1),
    };
    assert_eq!(
        refused(vec![ret(branch, 1)]),
        CompileError::TypeError(
            TypeError::ExpectedDataType(DataType::Boolean, DataType::Number),
            Position(1, 5)
        )
    );
    let branches = Expression::IfExpression {
        condition: Box::new(boolean(true)),
        consequence: vec![stmt(num(1.0), 1)],
        alternative: Some(vec![stmt(text("no"), 1)]),
        position: Position(1, 1),
    };
    assert_eq!(
        refused(vec![ret(branches, 1)]),
        CompileError::TypeError(
            TypeError::ExpectedDataType(DataType::Number, DataType::String),
            Position(1, 1)
        )
    );
    let index = Expression::IndexExpression {
        left: Box::new(num(1.0)),
        index: Box::new(num(0.0)),
        position: Position(1, 7),
    };
    assert_eq!(
        refused(vec![ret(index, 1)]),
        CompileError::TypeError(
            TypeError::ExpectedDataType(DataType::Array(Box::new(DataType::Auto)), DataType::Number),
            Position(1, 7)
        )
    );
}

#[test]
fn body_is_cut_after_its_first_return() {
    let f = Expression::FunctionLiteral {
        parameters: vec![],
        return_type: DataType::Auto,
        body: vec![
            let_("a", DataType::Auto, num(1.0), 1),
            ret(ident("a"), 2),
            let_("b", DataType::Number, text("never checked"), 3),
            ret(ident("b"), 4),
        ],
        position: at(1),
    };
    let interpreter = compile(vec![let_("f", DataType::Auto, f, 1)]).unwrap();
    assert_eq!(interpreter.instructions.len(), 1);
    match &interpreter.instructions[0].instruction {
        InstructionType::StoreName(name, IrExpression::Literal(LiteralValue::Function(_, body, result, captured))) => {
            assert_eq!(name, "f");
            assert_eq!(body.len(), 2);
            assert_eq!(body[0].position, at(1));
            assert_eq!(body[1].position, at(2));
            assert_eq!(body[1].instruction, InstructionType::Return(var("a")));
            assert_eq!(*result, DataType::Number);
            assert!(captured.is_none());
        }
        other => panic!("a stored function was expected, not {:?}", other),
    }
}

#[test]
fn result_that_cannot_be_inferred_is_refused_unless_declared() {
    let identity_of = |return_type: DataType| Expression::FunctionLiteral {
        parameters: vec![Parameter {
            name: "x".to_string(),
            data_type: DataType::Auto,
            kind: ParameterKind::Normal,
            position: at(1),
        }],
        return_type,
        body: vec![ret(ident("x"), 1)],
        position: Position(1, 5),
    };
    assert_eq!(
        refused(vec![ret(identity_of(DataType::Auto), 1)]),
        CompileError::TypeError(TypeError::UninferredType(DataType::Auto), Position(1, 5))
    );
    let interpreter = compile(vec![ret(identity_of(DataType::Number), 1)]).unwrap();
    match &interpreter.instructions[0].instruction {
        InstructionType::Return(IrExpression::Literal(LiteralValue::Function(_, _, result, _))) => {
            assert_eq!(*result, DataType::Number);
        }
        other => panic!("a function was expected, not {:?}", other),
    }
    let empty_array = Expression::FunctionLiteral {
        parameters: vec![],
        return_type: DataType::Auto,
        body: vec![ret(Expression::ArrayLiteral { elements: vec![], position: at(1) }, 1)],
        position: Position(2, 5),
    };
    assert_eq!(
        refused(vec![ret(empty_array, 2)]),
        CompileError::TypeError(
            TypeError::UninferredType(DataType::Array(Box::new(DataType::Auto))),
            Position(2, 5)
        )
    );
}

#[test]
fn declared_result_must_be_what_the_body_gives() {
    let f = Expression::FunctionLiteral {
        parameters: vec![],
        return_type: DataType::String,
        body: vec![ret(num(1.0), 1)],
        position: Position(1, 9),
    };
    assert_eq!(
        refused(vec![ret(f, 1)]),
        CompileError::TypeError(
            TypeError::ExpectedDataType(DataType::String, DataType::Number),
            Position(1, 9)
        )
    );
}

#[test]
fn each_statement_makes_its_own_instruction() {
    let program = vec![
        let_("x", DataType::Auto, num(1.0), 1),
        stmt(boolean(true), 2),
        ret(ident("x"), 3),
        stmt(num(2.0), 4),
    ];
    let interpreter = compile(program).unwrap();
    assert_eq!(interpreter.instructions.len(), 4);
    assert_eq!(
        interpreter.instructions[0],
        Instruction::new(InstructionType::StoreName("x".to_string(), lit(1.0)), at(1))
    );
    assert_eq!(
        interpreter.instructions[1],
        Instruction::new(
            InstructionType::Expression(IrExpression::Literal(LiteralValue::Boolean(true))),
            at(2)
        )
    );
    assert_eq!(interpreter.instructions[2], Instruction::new(InstructionType::Return(var("x")), at(3)));
    assert_eq!(
        interpreter.instructions[3],
        Instruction::new(InstructionType::Expression(lit(2.0)), at(4))
    );
    let single = compile(vec![stmt(boolean(true), 1)]).unwrap();
    assert_eq!(
        single.instructions,
        vec![Instruction::new(
            InstructionType::Expression(IrExpression::Literal(LiteralValue::Boolean(true))),
            at(1)
        )]
    );
}

#[test]
fn last_expression_of_an_inner_block_is_its_value() {
    let block = Expression::BlockExpression {
        statements: vec![stmt(num(1.0), 2), stmt(num(2.0), 3)],
        position: at(1),
    };
    let interpreter = compile(vec![ret(block, 1)]).unwrap();
    match &interpreter.instructions[0].instruction {
        InstructionType::Return(IrExpression::Block(inner)) => {
            assert_eq!(inner[0].instruction, InstructionType::Expression(lit(1.0)));
            assert_eq!(inner[1].instruction, InstructionType::Return(lit(2.0)));
            assert_eq!(inner[1].position, at(3));
        }
        other => panic!("a block was expected, not {:?}", other),
    }
}

#[test]
fn type_statement_registers_and_emits_nothing() {
    let alias = Statement::TypeStatement(TypeStatement {
        name: "Id".to_string(),
        data_type: DataType::Number,
        position: at(1),
    });
    let mut compiler = Compiler::new(Program { statements: vec![alias], errors: vec![] });
    let interpreter = compiler.compile_program().unwrap();
    assert!(interpreter.instructions.is_empty());
    assert_eq!(compiler.aliases, vec![("Id".to_string(), DataType::Number)]);
}

#[test]
fn statements_compile_one_by_one() {
    let mut compiler = Compiler::new(Program { statements: vec![], errors: vec![] });
    let l = LetStatement { name: "x".to_string(), data_type: DataType::Auto, value: num(1.0), position: at(1) };
    assert_eq!(compiler.compile_let_statement(&l), Ok(()));
    let bad = LetStatement { name: "y".to_string(), data_type: DataType::Boolean, value: num(1.0), position: at(2) };
    assert!(compiler.compile_let_statement(&bad).is_err());
    let r = ReturnStatement { value: ident("x"), position: at(3) };
    assert_eq!(compiler.compile_return_statement(&r), Ok(()));
    let t = TypeStatement { name: "T".to_string(), data_type: DataType::String, position: at(4) };
    assert_eq!(compiler.compile_type_statement(&t), Ok(()));
    assert_eq!(compiler.code.0.len(), 2);
    assert_eq!(compiler.code.0[0].instruction, InstructionType::StoreName("x".to_string(), lit(1.0)));
    assert_eq!(compiler.code.0[1].instruction, InstructionType::Return(var("x")));
    assert_eq!(compiler.scope.lookup("x").map(|e| &e.data_type), Some(&DataType::Number));
    assert!(compiler.scope.lookup("y").is_none());
    assert_eq!(compiler.compile_expression(&ident("x"), Some(DataType::Number)), Ok(var("x")));
    assert_eq!(
        compiler.compile_expression(&ident("x"), Some(DataType::String)),
        Err(CompileError::TypeError(
            TypeError::ExpectedDataType(DataType::String, DataType::Number),
            at(1)
        ))
    );
}

#[test]
fn runtime_errors_carry_their_cause() {
    let call_number = IrExpression::Call(Box::new(lit(1.0)), vec![]);
    assert_eq!(failure(call_number), RuntimeErrorKind::NotAFunction(LiteralValue::Number(1.0f64.to_bits())));
    let index_number = IrExpression::Index(Box::new(lit(1.0)), Box::new(lit(0.0)));
    assert_eq!(failure(index_number), RuntimeErrorKind::NotAnArray(LiteralValue::Number(1.0f64.to_bits())));
    let index_by_text = IrExpression::Index(
        Box::new(IrExpression::Literal(LiteralValue::Array(vec![lit(1.0)]))),
        Box::new(IrExpression::Literal(LiteralValue::String("0".to_string()))),
    );
    assert_eq!(
        failure(index_by_text),
        RuntimeErrorKind::NotAnArray(LiteralValue::Array(vec![lit(1.0)]))
    );
    let not_number = IrExpression::Prefix(TokenKind::Bang, Box::new(lit(1.0)));
    assert_eq!(failure(not_number), RuntimeErrorKind::InvalidOperator(TokenKind::Bang));
    let mixed = IrExpression::Infix(
        TokenKind::Plus,
        Box::new(lit(1.0)),
        Box::new(IrExpression::Literal(LiteralValue::Boolean(true))),
    );
    assert_eq!(
        failure(mixed),
        RuntimeErrorKind::InvalidOperands(
            LiteralValue::Number(1.0f64.to_bits()),
            LiteralValue::Boolean(true),
            TokenKind::Plus
        )
    );
    let remainder = IrExpression::Infix(TokenKind::Percent, Box::new(lit(5.0)), Box::new(lit(2.0)));
    assert_eq!(
        failure(remainder),
        RuntimeErrorKind::InvalidOperands(
            LiteralValue::Number(5.0f64.to_bits()),
            LiteralValue::Number(2.0f64.to_bits()),
            TokenKind::Percent
        )
    );
    let condition = IrExpression::If(Box::new(lit(1.0)), Box::new(lit(2.0)), Box::new(None));
    assert_eq!(
        failure(condition),
        RuntimeErrorKind::InvalidCondition(LiteralValue::Number(1.0f64.to_bits()))
    );
    assert_eq!(failure(var("nowhere")), RuntimeErrorKind::UndefinedVariable("nowhere".to_string()));
    let unknown_call = IrExpression::Call(Box::new(var("nowhere")), vec![]);
    assert_eq!(failure(unknown_call), RuntimeErrorKind::UndefinedVariable("nowhere".to_string()));
}

fn named(name: &str) -> IrParameter {
    IrParameter { name: name.to_string(), kind: ParameterKind::Normal }
}

fn function(parameters: Vec<&str>, body: Vec<Instruction>) -> IrExpression {
    IrExpression::Literal(LiteralValue::Function(
        parameters.into_iter().map(named).collect(),
        body,
        DataType::Number,
        None,
    ))
}

#[test]
fn arity_is_checked_when_a_function_is_called() {
    let f = function(vec!["a", "b"], vec![Instruction::new(InstructionType::Return(var("a")), at(1))]);
    let call = IrExpression::Call(Box::new(f), vec![lit(1.0)]);
    assert_eq!(failure(call), RuntimeErrorKind::ArityMismatch(2, 1));
}

#[test]
fn endless_recursion_ends_with_the_depth() {
    let body = vec![Instruction::new(
        InstructionType::Return(IrExpression::Call(Box::new(var("f")), vec![])),
        at(5),
    )];
    let program = vec![
        Instruction::new(InstructionType::StoreName("f".to_string(), function(vec![], body)), at(5)),
        Instruction::new(InstructionType::Return(IrExpression::Call(Box::new(var("f")), vec![])), at(5)),
    ];
    let mut interpreter = IrInterpreter::new(program);
    interpreter.depth = 20;
    interpreter.eval().unwrap();
    assert_eq!(interpreter.last().unwrap_err().kind, RuntimeErrorKind::DepthExceeded);
}

#[test]
fn argument_errors_come_before_the_function() {
    let call = IrExpression::Call(Box::new(lit(1.0)), vec![var("missing")]);
    assert_eq!(failure(call), RuntimeErrorKind::UndefinedVariable("missing".to_string()));
}

#[test]
fn block_writes_stay_in_the_block() {
    let block = IrExpression::Block(vec![
        Instruction::new(InstructionType::StoreName("x".to_string(), lit(2.0)), at(1)),
        Instruction::new(InstructionType::Return(var("x")), at(1)),
    ]);
    let program = vec![
        Instruction::new(InstructionType::StoreName("x".to_string(), lit(1.0)), at(1)),
        Instruction::new(InstructionType::StoreName("inner".to_string(), block), at(2)),
        Instruction::new(InstructionType::Return(var("x")), at(3)),
    ];
    let mut interpreter = IrInterpreter::new(program);
    interpreter.eval().unwrap();
    assert_eq!(interpreter.environment.get(&"inner".to_string()), Some(LiteralValue::Number(2.0f64.to_bits())));
    assert_eq!(interpreter.last(), Ok(LiteralValue::Number(1.0f64.to_bits())));
}

#[test]
fn return_that_is_not_last_gives_no_value() {
    let program = vec![
        Instruction::new(InstructionType::Return(lit(1.0)), at(1)),
        Instruction::new(InstructionType::Expression(lit(2.0)), at(2)),
    ];
    let mut interpreter = IrInterpreter::new(program);
    interpreter.eval().unwrap();
    assert_eq!(interpreter.last(), Ok(LiteralValue::Boolean(false)));
    let mut empty = IrInterpreter::new(vec![]);
    empty.eval().unwrap();
    assert_eq!(empty.last(), Ok(LiteralValue::Boolean(false)));
}

#[test]
fn conditional_without_alternative_gives_false() {
    let e = IrExpression::If(
        Box::new(IrExpression::Literal(LiteralValue::Boolean(false))),
        Box::new(lit(1.0)),
        Box::new(None),
    );
    assert_eq!(run(e), Ok(LiteralValue::Boolean(false)));
}

#[test]
fn array_elements_are_evaluated_to_literals() {
    let mut interpreter = IrInterpreter::new(vec![]);
    interpreter.environment.set(&"x".to_string(), &LiteralValue::Number(4.0f64.to_bits()));
    let array = IrExpression::Literal(LiteralValue::Array(vec![
        var("x"),
        IrExpression::Infix(TokenKind::Plus, Box::new(var("x")), Box::new(lit(1.0))),
    ]));
    assert_eq!(
        interpreter.eval_expression(&array, &at(1)),
        Ok(LiteralValue::Array(vec![lit(4.0), lit(5.0)]))
    );
}

#[test]
fn strings_compare_by_their_characters() {
    let compare = |op: TokenKind, a: &str, b: &str| {
        run(IrExpression::Infix(
            op,
            Box::new(IrExpression::Literal(LiteralValue::String(a.to_string()))),
            Box::new(IrExpression::Literal(LiteralValue::String(b.to_string()))),
        ))
    };
    assert_eq!(compare(TokenKind::LT, "abc", "abd"), Ok(LiteralValue::Boolean(true)));
    assert_eq!(compare(TokenKind::LT, "ab", "abc"), Ok(LiteralValue::Boolean(true)));
    assert_eq!(compare(TokenKind::LT, "b", "abc"), Ok(LiteralValue::Boolean(false)));
    assert_eq!(compare(TokenKind::LT, "same", "same"), Ok(LiteralValue::Boolean(false)));
    assert_eq!(compare(TokenKind::LTE, "same", "same"), Ok(LiteralValue::Boolean(true)));
    assert_eq!(compare(TokenKind::GT, "z", "a"), Ok(LiteralValue::Boolean(true)));
    assert_eq!(compare(TokenKind::GTE, "a", "z"), Ok(LiteralValue::Boolean(false)));
    assert_eq!(compare(TokenKind::EQ, "a", "a"), Ok(LiteralValue::Boolean(true)));
    assert_eq!(compare(TokenKind::NEQ, "a", "a"), Ok(LiteralValue::Boolean(false)));
    assert_eq!(compare(TokenKind::LT, "Z", "a"), Ok(LiteralValue::Boolean(true)));
    assert_eq!(compare(TokenKind::LT, "é", "z"), Ok(LiteralValue::Boolean(false)));
}

#[test]
fn booleans_compare_for_equality_only() {
    let compare = |op: TokenKind, a: bool, b: bool| {
        run(IrExpression::Infix(
            op,
            Box::new(IrExpression::Literal(LiteralValue::Boolean(a))),
            Box::new(IrExpression::Literal(LiteralValue::Boolean(b))),
        ))
    };
    assert_eq!(compare(TokenKind::EQ, true, true), Ok(LiteralValue::Boolean(true)));
    assert_eq!(compare(TokenKind::NEQ, true, false), Ok(LiteralValue::Boolean(true)));
    assert!(compare(TokenKind::LT, true, false).is_err());
}

#[test]
fn native_functions_are_found_by_name() {
    assert_eq!(get_builtin(&"log".to_string()), Some(Builtin::Log));
    assert_eq!(get_builtin(&"typeof".to_string()), Some(Builtin::TypeOf));
    assert_eq!(get_builtin(&"logs".to_string()), None);
    let kind = IrExpression::Call(Box::new(var("typeof")), vec![lit(1.0)]);
    assert_eq!(run(kind), Ok(LiteralValue::String("number".to_string())));
    let of_text = IrExpression::Call(
        Box::new(var("typeof")),
        vec![IrExpression::Literal(LiteralValue::Array(vec![]))],
    );
    assert_eq!(run(of_text), Ok(LiteralValue::String("array".to_string())));
    assert_eq!(run(IrExpression::Call(Box::new(var("typeof")), vec![])), Ok(LiteralValue::Boolean(false)));
}

#[test]
fn bound_name_hides_the_native_function() {
    let shadow = function(vec!["x"], vec![Instruction::new(InstructionType::Return(lit(0.0)), at(1))]);
    let program = vec![
        Instruction::new(InstructionType::StoreName("log".to_string(), shadow), at(1)),
        Instruction::new(
            InstructionType::Return(IrExpression::Call(Box::new(var("log")), vec![lit(7.0)])),
            at(2),
        ),
    ];
    let mut interpreter = IrInterpreter::new(program);
    interpreter.eval().unwrap();
    assert_eq!(interpreter.last(), Ok(LiteralValue::Number(0.0f64.to_bits())));
    assert!(interpreter.output.is_empty());
}

#[test]
fn function_called_from_a_deeper_scope_sees_the_outer_bindings() {
    let f = function(vec![], vec![Instruction::new(InstructionType::Return(var("outer")), at(1))]);
    let inner_block = IrExpression::Block(vec![
        Instruction::new(InstructionType::StoreName("local".to_string(), lit(2.0)), at(3)),
        Instruction::new(InstructionType::Return(IrExpression::Call(Box::new(var("f")), vec![])), at(4)),
    ]);
    let program = vec![
        Instruction::new(InstructionType::StoreName("outer".to_string(), lit(1.0)), at(1)),
        Instruction::new(InstructionType::StoreName("f".to_string(), f), at(2)),
        Instruction::new(InstructionType::Return(inner_block), at(5)),
    ];
    let mut interpreter = IrInterpreter::new(program);
    interpreter.eval().unwrap();
    assert_eq!(interpreter.last(), Ok(LiteralValue::Number(1.0f64.to_bits())));
}

#[test]
fn writes_inside_a_function_do_not_reach_the_caller() {
    let f = function(
        vec![],
        vec![
            Instruction::new(InstructionType::StoreName("x".to_string(), lit(99.0)), at(1)),
            Instruction::new(InstructionType::Return(var("x")), at(1)),
        ],
    );
    let program = vec![
        Instruction::new(InstructionType::StoreName("x".to_string(), lit(1.0)), at(1)),
        Instruction::new(InstructionType::StoreName("f".to_string(), f), at(2)),
        Instruction::new(
            InstructionType::StoreName("r".to_string(), IrExpression::Call(Box::new(var("f")), vec![])),
            at(3),
        ),
        Instruction::new(InstructionType::Return(var("x")), at(4)),
    ];
    let mut interpreter = IrInterpreter::new(program);
    interpreter.eval().unwrap();
    assert_eq!(interpreter.environment.get(&"r".to_string()), Some(LiteralValue::Number(99.0f64.to_bits())));
    assert_eq!(interpreter.last(), Ok(LiteralValue::Number(1.0f64.to_bits())));
}

#[test]
fn captured_environment_is_used_for_the_call() {
    let mut captured = IrEnvironment::new(None);
    captured.set(&"n".to_string(), &LiteralValue::Number(3.0f64.to_bits()));
    let closure = LiteralValue::Function(
        vec![named("x")],
        vec![Instruction::new(
            InstructionType::Return(IrExpression::Infix(TokenKind::Plus, Box::new(var("x")), Box::new(var("n")))),
            at(1),
        )],
        DataType::Number,
        Some(captured),
    );
    let mut interpreter = IrInterpreter::new(vec![]);
    interpreter.environment.set(&"n".to_string(), &LiteralValue::Number(100.0f64.to_bits()));
    interpreter.environment.set(&"add".to_string(), &closure);
    let call = IrExpression::Call(Box::new(var("add")), vec![lit(4.0)]);
    assert_eq!(interpreter.eval_expression(&call, &at(1)), Ok(LiteralValue::Number(7.0f64.to_bits())));
    assert_eq!(interpreter.environment.get(&"x".to_string()), None);
}

#[test]
fn evaluating_twice_gives_the_same() {
    let mut interpreter = IrInterpreter::new(vec![]);
    interpreter.environment.set(&"x".to_string(), &LiteralValue::Number(4.0f64.to_bits()));
    let e = IrExpression::Infix(TokenKind::Asterisk, Box::new(var("x")), Box::new(lit(2.5)));
    let first = interpreter.eval_expression(&e, &at(1));
    let second = interpreter.eval_expression(&e, &at(1));
    assert_eq!(first, second);
    assert_eq!(first, Ok(LiteralValue::Number(10.0f64.to_bits())));
    let value = IrExpression::Literal(first.unwrap());
    assert_eq!(interpreter.eval_expression(&value, &at(1)), Ok(LiteralValue::Number(10.0f64.to_bits())));
}

#[test]
fn instruction_by_instruction() {
    let mut interpreter = IrInterpreter::new(vec![]);
    let store = Instruction::new(InstructionType::StoreName("x".to_string(), lit(1.0)), at(1));
    assert_eq!(interpreter.eval_instruction(&store), Ok(()));
    assert_eq!(interpreter.environment.get(&"x".to_string()), Some(LiteralValue::Number(1.0f64.to_bits())));
    let give = Instruction::new(InstructionType::Return(var("missing")), at(2));
    assert_eq!(interpreter.eval_instruction(&give), Ok(()));
    let nop = Instruction::new(InstructionType::Nop, at(3));
    assert_eq!(interpreter.eval_instruction(&nop), Ok(()));
    let bad = Instruction::new(InstructionType::Expression(var("missing")), at(4));
    assert_eq!(
        interpreter.eval_instruction(&bad),
        Err(RuntimeError::new(RuntimeErrorKind::UndefinedVariable("missing".to_string()), at(4)))
    );
    let other = IrInterpreter::new_with_environment(vec![], &interpreter.environment);
    assert_eq!(other.environment.get(&"x".to_string()), Some(LiteralValue::Number(1.0f64.to_bits())));
}

#[test]
fn default_depth_bounds_endless_recursion() {
    let body = vec![Instruction::new(
        InstructionType::Return(IrExpression::Call(Box::new(var("f")), vec![])),
        at(5),
    )];
    let program = vec![
        Instruction::new(InstructionType::StoreName("f".to_string(), function(vec![], body)), at(5)),
        Instruction::new(InstructionType::Return(IrExpression::Call(Box::new(var("f")), vec![])), at(5)),
    ];
    let mut interpreter = IrInterpreter::new(program);
    interpreter.eval().unwrap();
    assert_eq!(interpreter.last().unwrap_err().kind, RuntimeErrorKind::DepthExceeded);
}

#[test]
fn depth_zero_allows_no_call_and_no_unevaluated_element() {
    let f = function(vec![], vec![Instruction::new(InstructionType::Return(lit(1.0)), at(1))]);
    let mut interpreter = IrInterpreter::new(vec![]);
    interpreter.depth = 0;
    let call = IrExpression::Call(Box::new(f), vec![]);
    assert_eq!(
        interpreter.eval_expression(&call, &at(5)).unwrap_err().kind,
        RuntimeErrorKind::DepthExceeded
    );
    let index = IrExpression::Index(
        Box::new(IrExpression::Literal(LiteralValue::Array(vec![
            lit(1.0),
            IrExpression::Literal(LiteralValue::Array(vec![lit(2.0)])),
        ]))),
        Box::new(lit(0.0)),
    );
    assert_eq!(interpreter.eval_expression(&index, &at(5)), Ok(LiteralValue::Number(1.0f64.to_bits())));
    interpreter.environment.set(&"x".to_string(), &LiteralValue::Number(3.0f64.to_bits()));
    interpreter
        .environment
        .set(&"raw".to_string(), &LiteralValue::Array(vec![var("x")]));
    let unevaluated = IrExpression::Index(Box::new(var("raw")), Box::new(lit(0.0)));
    assert_eq!(
        interpreter.eval_expression(&unevaluated, &at(5)).unwrap_err().kind,
        RuntimeErrorKind::DepthExceeded
    );
    interpreter.depth = 1;
    assert_eq!(
        interpreter.eval_expression(&unevaluated, &at(5)),
        Ok(LiteralValue::Number(3.0f64.to_bits()))
    );
}

#[test]
fn parameter_kinds_pass_into_the_instruction_tree() {
    let f = Expression::FunctionLiteral {
        parameters: vec![
            Parameter {
                name: "first".to_string(),
                data_type: DataType::Number,
                kind: ParameterKind::Normal,
                position: at(1),
            },
            Parameter {
                name: "rest".to_string(),
                data_type: DataType::Auto,
                kind: ParameterKind::Spread,
                position: at(1),
            },
        ],
        return_type: DataType::Auto,
        body: vec![ret(ident("first"), 1)],
        position: at(1),
    };
    let interpreter = compile(vec![ret(f, 1)]).unwrap();
    match &interpreter.instructions[0].instruction {
        InstructionType::Return(IrExpression::Literal(function)) => {
            match function {
                LiteralValue::Function(parameters, _, _, _) => assert_eq!(
                    *parameters,
                    vec![
                        named("first"),
                        IrParameter { name: "rest".to_string(), kind: ParameterKind::Spread },
                    ]
                ),
                other => panic!("a function was expected, not {:?}", other),
            }
            assert_eq!(function.to_text(), "fn(first, ...rest) -> number");
        }
        other => panic!("a function was expected, not {:?}", other),
    }
}
