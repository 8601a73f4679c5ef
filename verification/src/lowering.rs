//! What compilation means: the instruction tree and the type that the
//! compiler gives for a syntax tree, or the error with which it refuses it,
//! as functions of the syntax tree and of the names in scope.

use crate::ast::{Expression, Parameter, Statement};
use crate::error::{CompileErrorView, TypeErrorView};
use crate::instruction::{ExprView, InstructionTypeView, InstructionView, ValueView};
use crate::position::Position;
use crate::symbol_table::{entry_for, ScopeView};
use crate::token::TokenKind;
use crate::types::{data_type_view, resolved, type_matches, TypeView};
use vstd::prelude::*;

verus! {

/// An expression in the instruction tree, and its type.
pub struct Lowered {
    pub ir: ExprView,
    pub data_type: TypeView,
}

/// The state of the compilation of a sequence of statements: the
/// instructions made so far, the names in scope, the type aliases that were
/// registered, and the type of the expression of the instruction made last
/// (`Void` where it has none).
pub struct Lowering {
    pub instructions: Seq<InstructionView>,
    pub scope: ScopeView,
    pub aliases: Seq<(Seq<char>, TypeView)>,
    pub last: TypeView,
}

/// The refusal with a type error at a position.
pub open spec fn type_error<T>(kind: TypeErrorView, position: Position) -> Result<T, CompileErrorView> {
    Err(CompileErrorView::TypeError(kind, position))
}

/// `found` where `expected` is wanted is a type error unless the two are
/// equal.
pub open spec fn mismatch(expected: TypeView, found: TypeView) -> Option<TypeErrorView> {
    if type_matches(expected, found) {
        None
    } else {
        Some(TypeErrorView::ExpectedDataType(expected, found))
    }
}

/// The type of a name that is declared with the annotation `declared` and
/// bound to a value of type `found`: the annotation, unless it is `Auto`.
pub open spec fn bound_type(declared: TypeView, found: TypeView) -> TypeView {
    if declared is Auto {
        found
    } else {
        declared
    }
}

/// The type and the error of a prefix operator on an operand of type `t`:
/// `-` wants a number and gives one, `!` wants a Boolean and gives one, and
/// no other operator stands before an operand.
pub open spec fn prefix_type(op: TokenKind, t: TypeView) -> Result<TypeView, TypeErrorView> {
    match op {
        TokenKind::Minus => match mismatch(TypeView::Number, t) {
            Some(x) => Err(x),
            None => Ok(TypeView::Number),
        },
        TokenKind::Bang => match mismatch(TypeView::Boolean, t) {
            Some(x) => Err(x),
            None => Ok(TypeView::Boolean),
        },
        _ => Err(TypeErrorView::InvalidOperator(op, seq![t])),
    }
}

/// The type and the error of an infix operator on operands of types `l`
/// and `r`. `+` between two strings joins them; otherwise an arithmetic
/// operator wants two numbers and gives one. A comparison wants two operands
/// of equal types and gives a Boolean. No other operator stands between two
/// operands.
pub open spec fn infix_type(op: TokenKind, l: TypeView, r: TypeView) -> Result<TypeView, TypeErrorView> {
    if op == TokenKind::Plus && (l is String || r is String) {
        match mismatch(TypeView::String, l) {
            Some(x) => Err(x),
            None => match mismatch(TypeView::String, r) {
                Some(x) => Err(x),
                None => Ok(TypeView::String),
            },
        }
    } else if op.is_arithmetic() {
        match mismatch(TypeView::Number, l) {
            Some(x) => Err(x),
            None => match mismatch(TypeView::Number, r) {
                Some(x) => Err(x),
                None => Ok(TypeView::Number),
            },
        }
    } else if op.is_comparison() {
        match mismatch(l, r) {
            Some(x) => Err(x),
            None => Ok(TypeView::Boolean),
        }
    } else {
        Err(TypeErrorView::InvalidOperator(op, seq![l, r]))
    }
}

/// The type of the elements of what is indexed, and the error: an array of
/// `T` gives `T`, what is still to be inferred gives the same, and nothing
/// else is indexed; the index is a number.
pub open spec fn index_type(left: TypeView, index: TypeView) -> Result<TypeView, TypeErrorView> {
    match left {
        TypeView::Array(element) => match mismatch(TypeView::Number, index) {
            Some(x) => Err(x),
            None => Ok(*element),
        },
        TypeView::Auto => match mismatch(TypeView::Number, index) {
            Some(x) => Err(x),
            None => Ok(TypeView::Auto),
        },
        other => Err(
            TypeErrorView::ExpectedDataType(TypeView::Array(Box::new(TypeView::Auto)), other),
        ),
    }
}

/// The index of the first argument at or after `from` whose type is not
/// equal to that of its parameter.
pub open spec fn first_mismatch(parameters: Seq<TypeView>, arguments: Seq<TypeView>, from: int) -> Option<
    int,
>
    decreases parameters.len() - from,
{
    if from < 0 || from >= parameters.len() || from >= arguments.len() {
        None
    } else if !type_matches(parameters[from], arguments[from]) {
        Some(from)
    } else {
        first_mismatch(parameters, arguments, from + 1)
    }
}

/// What a call of a value of type `callee` with arguments of the types
/// `arguments` gives: the type of the result, or the error and the index of
/// the argument that raised it, if one did. What is still to be inferred can
/// be called with anything; a function wants as many arguments as it has
/// parameters, each of the type of its parameter; nothing else is called.
pub open spec fn call_type(callee: TypeView, arguments: Seq<TypeView>) -> Result<
    TypeView,
    (TypeErrorView, Option<int>),
> {
    match callee {
        TypeView::Auto => Ok(TypeView::Auto),
        TypeView::Function(parameters, result) => if parameters.len() != arguments.len() {
            Err(
                (
                    TypeErrorView::ArityMismatch(
                        parameters.len() as usize,
                        arguments.len() as usize,
                    ),
                    None,
                ),
            )
        } else {
            match first_mismatch(parameters, arguments, 0) {
                Some(i) => Err(
                    (TypeErrorView::ExpectedDataType(parameters[i], arguments[i]), Some(i)),
                ),
                None => Ok(*result),
            }
        },
        other => Err((TypeErrorView::NotCallable(other), None)),
    }
}

/// The type of a name: the one with which the innermost frame declares it,
/// and what is still to be inferred where no frame does. A name that no
/// frame declares is not refused: it may be that of a native function, and
/// otherwise the interpreter reports it when it is used.
pub open spec fn type_of_name(scope: ScopeView, name: Seq<char>) -> TypeView {
    match scope.lookup(name) {
        Some(entry) => entry.data_type,
        None => TypeView::Auto,
    }
}

/// The type of an array literal with elements of the types `elements`:
/// that of arrays of the first of them, or of what is still to be inferred
/// where there is none.
pub open spec fn array_type(elements: Seq<TypeView>) -> TypeView {
    if elements.len() == 0 {
        TypeView::Array(Box::new(TypeView::Auto))
    } else {
        TypeView::Array(Box::new(elements[0]))
    }
}

/// The instruction trees of compiled expressions, in order.
pub open spec fn lowered_irs(ls: Seq<Lowered>) -> Seq<ExprView> {
    Seq::new(ls.len(), |i: int| ls[i].ir)
}

/// The types of compiled expressions, in order.
pub open spec fn lowered_types(ls: Seq<Lowered>) -> Seq<TypeView> {
    Seq::new(ls.len(), |i: int| ls[i].data_type)
}

/// The fields of a compiled object literal, in order.
pub open spec fn pair_irs(ls: Seq<(Seq<char>, Lowered)>) -> Seq<(Seq<char>, ExprView)> {
    Seq::new(ls.len(), |i: int| (ls[i].0, ls[i].1.ir))
}

/// The fields of the type of a compiled object literal, in order.
pub open spec fn pair_types(ls: Seq<(Seq<char>, Lowered)>) -> Seq<(Seq<char>, TypeView)> {
    Seq::new(ls.len(), |i: int| (ls[i].0, ls[i].1.data_type))
}

/// The names of parameters, in order.
pub open spec fn parameter_names(ps: Seq<Parameter>) -> Seq<Seq<char>> {
    Seq::new(ps.len(), |i: int| ps[i].name@)
}

/// The kinds of parameters, in order.
pub open spec fn parameter_kinds(ps: Seq<Parameter>) -> Seq<crate::instruction::ParameterKind> {
    Seq::new(ps.len(), |i: int| ps[i].kind)
}

/// The annotated types of parameters, in order.
pub open spec fn parameter_types(ps: Seq<Parameter>) -> Seq<TypeView> {
    Seq::new(ps.len(), |i: int| data_type_view(ps[i].data_type))
}

/// The scope after the first `n` parameters were declared in it, with their
/// annotated types.
pub open spec fn declared(scope: ScopeView, ps: Seq<Parameter>, n: int) -> ScopeView
    decreases n,
{
    if n <= 0 || n > ps.len() {
        scope
    } else {
        declared(scope, ps, n - 1).insert(
            ps[n - 1].name@,
            entry_for(data_type_view(ps[n - 1].data_type)),
        )
    }
}

/// The index of the first return statement at or after `from`.
pub open spec fn first_return(ss: Seq<Statement>, from: int) -> Option<int>
    decreases ss.len() - from,
{
    if from < 0 || from >= ss.len() {
        None
    } else if ss[from] is ReturnStatement {
        Some(from)
    } else {
        first_return(ss, from + 1)
    }
}

/// How many statements of the body of a function are compiled: those up to
/// its first return statement, that one included.
pub open spec fn reached(ss: Seq<Statement>) -> int {
    match first_return(ss, 0) {
        Some(i) => i + 1,
        None => ss.len() as int,
    }
}

/// The instructions of a block, closed: where the last one is an
/// expression, it becomes a return, so that the block has the value of the
/// expression.
pub open spec fn closed(instructions: Seq<InstructionView>) -> Seq<InstructionView> {
    if instructions.len() > 0 && instructions.last().instruction is Expression {
        instructions.update(
            instructions.len() - 1,
            InstructionView {
                instruction: InstructionTypeView::Return(
                    instructions.last().instruction->Expression_0,
                ),
                position: instructions.last().position,
            },
        )
    } else {
        instructions
    }
}

/// The type of a block: that of the expression of its last instruction,
/// where that instruction is an expression or a return, and `Void`
/// otherwise.
pub open spec fn block_type(l: Lowering) -> TypeView {
    if l.instructions.len() > 0 && (l.instructions.last().instruction is Expression
        || l.instructions.last().instruction is Return) {
        l.last
    } else {
        TypeView::Void
    }
}

/// The state in which the compilation of a block starts.
pub open spec fn start(scope: ScopeView) -> Lowering {
    Lowering { instructions: Seq::empty(), scope, aliases: Seq::empty(), last: TypeView::Void }
}

/// The expression in the instruction tree and its type.
pub open spec fn lower_expr(e: Expression, scope: ScopeView) -> Result<Lowered, CompileErrorView>
    decreases e, 0nat,
{
    match e {
        Expression::Identifier { value, position } => Ok(
            Lowered { ir: ExprView::Identifier(value@), data_type: type_of_name(scope, value@) },
        ),
        Expression::NumberLiteral { value, position } => Ok(
            Lowered { ir: ExprView::Literal(ValueView::Number(value)), data_type: TypeView::Number },
        ),
        Expression::StringLiteral { value, position } => Ok(
            Lowered { ir: ExprView::Literal(ValueView::String(value@)), data_type: TypeView::String },
        ),
        Expression::BooleanLiteral { value, position } => Ok(
            Lowered {
                ir: ExprView::Literal(ValueView::Boolean(value)),
                data_type: TypeView::Boolean,
            },
        ),
        Expression::ArrayLiteral { elements, position } => match lower_exprs(
            elements@,
            elements@.len() as int,
            scope,
        ) {
            Err(x) => Err(x),
            Ok(ls) => Ok(
                Lowered {
                    ir: ExprView::Literal(ValueView::Array(lowered_irs(ls))),
                    data_type: array_type(lowered_types(ls)),
                },
            ),
        },
        Expression::ObjectLiteral { pairs, position } => match lower_pairs(
            pairs@,
            pairs@.len() as int,
            scope,
        ) {
            Err(x) => Err(x),
            Ok(ls) => Ok(
                Lowered {
                    ir: ExprView::Literal(ValueView::Object(pair_irs(ls))),
                    data_type: TypeView::Object(pair_types(ls)),
                },
            ),
        },
        Expression::FunctionLiteral { parameters, return_type, body, position } => {
            let inner = declared(scope.child(), parameters@, parameters@.len() as int);
            match lower_statements(body@, reached(body@), start(inner)) {
                Err(x) => Err(x),
                Ok(l) => match mismatch(return_type@, block_type(l)) {
                    Some(x) => type_error(x, position),
                    None => {
                        let result = bound_type(return_type@, block_type(l));
                        if !resolved(result) {
                            type_error(TypeErrorView::UninferredType(result), position)
                        } else {
                            Ok(
                                Lowered {
                                    ir: ExprView::Literal(
                                        ValueView::Function(
                                            parameter_names(parameters@),
                                            closed(l.instructions),
                                            result,
                                            None,
                                            parameter_kinds(parameters@),
                                        ),
                                    ),
                                    data_type: TypeView::Function(
                                        parameter_types(parameters@),
                                        Box::new(result),
                                    ),
                                },
                            )
                        }
                    },
                },
            }
        },
        Expression::PrefixExpression { operator, right, position } => match lower_expr(
            *right,
            scope,
        ) {
            Err(x) => Err(x),
            Ok(r) => match prefix_type(operator, r.data_type) {
                Err(x) => type_error(x, position),
                Ok(t) => Ok(
                    Lowered { ir: ExprView::Prefix(operator, Box::new(r.ir)), data_type: t },
                ),
            },
        },
        Expression::InfixExpression { left, operator, right, position } => match lower_expr(
            *left,
            scope,
        ) {
            Err(x) => Err(x),
            Ok(l) => match lower_expr(*right, scope) {
                Err(x) => Err(x),
                Ok(r) => match infix_type(operator, l.data_type, r.data_type) {
                    Err(x) => type_error(x, position),
                    Ok(t) => Ok(
                        Lowered {
                            ir: ExprView::Infix(operator, Box::new(l.ir), Box::new(r.ir)),
                            data_type: t,
                        },
                    ),
                },
            },
        },
        Expression::IfExpression { condition, consequence, alternative, position } => {
            match lower_expr(*condition, scope) {
                Err(x) => Err(x),
                Ok(c) => match mismatch(TypeView::Boolean, c.data_type) {
                    Some(x) => type_error(x, condition.spec_position()),
                    None => match lower_statements(
                        consequence@,
                        consequence@.len() as int,
                        start(scope.child()),
                    ) {
                        Err(x) => Err(x),
                        Ok(t) => match alternative {
                            None => Ok(
                                Lowered {
                                    ir: ExprView::If(
                                        Box::new(c.ir),
                                        Box::new(ExprView::Block(closed(t.instructions))),
                                        None,
                                    ),
                                    data_type: block_type(t),
                                },
                            ),
                            Some(other) => match lower_statements(
                                other@,
                                other@.len() as int,
                                start(scope.child()),
                            ) {
                                Err(x) => Err(x),
                                Ok(a) => match mismatch(block_type(t), block_type(a)) {
                                    Some(x) => type_error(x, position),
                                    None => Ok(
                                        Lowered {
                                            ir: ExprView::If(
                                                Box::new(c.ir),
                                                Box::new(ExprView::Block(closed(t.instructions))),
                                                Some(
                                                    Box::new(
                                                        ExprView::Block(closed(a.instructions)),
                                                    ),
                                                ),
                                            ),
                                            data_type: block_type(t),
                                        },
                                    ),
                                },
                            },
                        },
                    },
                },
            }
        },
        Expression::CallExpression { function, arguments, position } => match lower_exprs(
            arguments@,
            arguments@.len() as int,
            scope,
        ) {
            Err(x) => Err(x),
            Ok(ls) => match lower_expr(*function, scope) {
                Err(x) => Err(x),
                Ok(f) => match call_type(f.data_type, lowered_types(ls)) {
                    Err((x, Some(i))) => type_error(x, arguments@[i].spec_position()),
                    Err((x, None)) => type_error(x, position),
                    Ok(t) => Ok(
                        Lowered { ir: ExprView::Call(Box::new(f.ir), lowered_irs(ls)), data_type: t },
                    ),
                },
            },
        },
        Expression::IndexExpression { left, index, position } => match lower_expr(*left, scope) {
            Err(x) => Err(x),
            Ok(l) => match lower_expr(*index, scope) {
                Err(x) => Err(x),
                Ok(i) => match index_type(l.data_type, i.data_type) {
                    Err(x) => type_error(x, position),
                    Ok(t) => Ok(
                        Lowered {
                            ir: ExprView::Index(Box::new(l.ir), Box::new(i.ir)),
                            data_type: t,
                        },
                    ),
                },
            },
        },
        Expression::BlockExpression { statements, position } => match lower_statements(
            statements@,
            statements@.len() as int,
            start(scope.child()),
        ) {
            Err(x) => Err(x),
            Ok(l) => Ok(
                Lowered { ir: ExprView::Block(closed(l.instructions)), data_type: block_type(l) },
            ),
        },
    }
}

/// A compiled expression whose type is held against the expected one, if
/// one is given: where the two are not equal, the expression is refused at
/// `position`.
pub open spec fn checked(
    lowered: Result<Lowered, CompileErrorView>,
    expected: Option<TypeView>,
    position: Position,
) -> Result<Lowered, CompileErrorView> {
    match lowered {
        Err(x) => Err(x),
        Ok(l) => match expected {
            None => Ok(l),
            Some(t) => match mismatch(t, l.data_type) {
                Some(x) => type_error(x, position),
                None => Ok(l),
            },
        },
    }
}

/// The expression in the instruction tree, where its type is equal to the
/// expected one, if one is given.
pub open spec fn lower_checked(e: Expression, expected: Option<TypeView>, scope: ScopeView) -> Result<
    Lowered,
    CompileErrorView,
> {
    checked(lower_expr(e, scope), expected, e.spec_position())
}

/// The first `n` expressions, from left to right, up to the first that is
/// refused.
pub open spec fn lower_exprs(es: Seq<Expression>, n: int, scope: ScopeView) -> Result<
    Seq<Lowered>,
    CompileErrorView,
>
    decreases es, n,
{
    if n <= 0 || n > es.len() {
        Ok(Seq::empty())
    } else {
        match lower_exprs(es, n - 1, scope) {
            Err(x) => Err(x),
            Ok(ls) => match lower_expr(es[n - 1], scope) {
                Err(x) => Err(x),
                Ok(l) => Ok(ls.push(l)),
            },
        }
    }
}

/// The first `n` fields of an object literal, from left to right, up to the
/// first that is refused.
pub open spec fn lower_pairs(ps: Seq<(String, Expression)>, n: int, scope: ScopeView) -> Result<
    Seq<(Seq<char>, Lowered)>,
    CompileErrorView,
>
    decreases ps, n,
{
    if n <= 0 || n > ps.len() {
        Ok(Seq::empty())
    } else {
        match lower_pairs(ps, n - 1, scope) {
            Err(x) => Err(x),
            Ok(ls) => match lower_expr(ps[n - 1].1, scope) {
                Err(x) => Err(x),
                Ok(l) => Ok(ls.push((ps[n - 1].0@, l))),
            },
        }
    }
}

/// One instruction more, at the position of the statement it is made from.
pub open spec fn emit(l: Lowering, instruction: InstructionTypeView, position: Position, last: TypeView) -> Lowering {
    Lowering {
        instructions: l.instructions.push(InstructionView { instruction, position }),
        scope: l.scope,
        aliases: l.aliases,
        last,
    }
}

/// The expression of a statement, where it has one.
pub open spec fn expression_of(s: Statement) -> Option<Expression> {
    match s {
        Statement::LetStatement(s) => Some(s.value),
        Statement::ReturnStatement(s) => Some(s.value),
        Statement::TypeStatement(_) => None,
        Statement::ExpressionStatement(s) => Some(s.expression),
    }
}

/// The state after a statement whose expression was compiled to `lowered`.
/// A `let` wants its value to have the annotated type, stores it under the
/// name and declares the name; a `return` and an expression make their
/// instruction; a `type` registers the alias and makes no instruction.
pub open spec fn step(s: Statement, l: Lowering, lowered: Result<Lowered, CompileErrorView>) -> Result<
    Lowering,
    CompileErrorView,
> {
    match s {
        Statement::LetStatement(s) => match checked(
            lowered,
            Some(s.data_type@),
            s.value.spec_position(),
        ) {
            Err(x) => Err(x),
            Ok(v) => {
                let stored = emit(
                    l,
                    InstructionTypeView::StoreName(s.name@, v.ir),
                    s.position,
                    TypeView::Void,
                );
                Ok(
                    Lowering {
                        scope: l.scope.insert(
                            s.name@,
                            entry_for(bound_type(s.data_type@, v.data_type)),
                        ),
                        ..stored
                    },
                )
            },
        },
        Statement::ReturnStatement(s) => match lowered {
            Err(x) => Err(x),
            Ok(v) => Ok(emit(l, InstructionTypeView::Return(v.ir), s.position, v.data_type)),
        },
        Statement::TypeStatement(s) => Ok(
            Lowering { aliases: l.aliases.push((s.name@, s.data_type@)), ..l },
        ),
        Statement::ExpressionStatement(s) => match lowered {
            Err(x) => Err(x),
            Ok(v) => Ok(emit(l, InstructionTypeView::Expression(v.ir), s.position, v.data_type)),
        },
    }
}

/// One statement, compiled from the state `l`.
pub open spec fn lower_statement(s: Statement, l: Lowering) -> Result<Lowering, CompileErrorView> {
    match expression_of(s) {
        Some(e) => step(s, l, lower_expr(e, l.scope)),
        None => step(s, l, Err(arbitrary())),
    }
}

/// The first `n` statements in order, from the state `l`, up to the first
/// that is refused.
pub open spec fn lower_statements(ss: Seq<Statement>, n: int, l: Lowering) -> Result<
    Lowering,
    CompileErrorView,
>
    decreases ss, n,
{
    if n <= 0 || n > ss.len() {
        Ok(l)
    } else {
        match lower_statements(ss, n - 1, l) {
            Err(x) => Err(x),
            Ok(before) => match ss[n - 1] {
                Statement::LetStatement(s) => step(ss[n - 1], before, lower_expr(s.value, before.scope)),
                Statement::ReturnStatement(s) => step(
                    ss[n - 1],
                    before,
                    lower_expr(s.value, before.scope),
                ),
                Statement::TypeStatement(_) => step(ss[n - 1], before, Err(arbitrary())),
                Statement::ExpressionStatement(s) => step(
                    ss[n - 1],
                    before,
                    lower_expr(s.expression, before.scope),
                ),
            },
        }
    }
}

} // verus!
