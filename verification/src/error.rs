//! What can go wrong while a program is compiled, and while it runs.

use crate::ast::ParsingError;
use crate::instruction::{value_view, LiteralValue, ValueView};
use crate::types::{data_types_view, DataType, TypeView};
use crate::position::Position;
use crate::token::TokenKind;
use vstd::prelude::*;

verus! {

#[derive(Debug, PartialEq)]
pub enum RuntimeErrorKind {
    /// No frame binds the name, and no builtin has it.
    UndefinedVariable(String),
    /// The value was called, and is no function.
    NotAFunction(LiteralValue),
    /// The value was indexed, and is no array, or the index is no number.
    NotAnArray(LiteralValue),
    /// The index, truncated, is not below the length of the array.
    IndexOutOfBounds(usize),
    /// The prefix operator does not apply to its operand.
    InvalidOperator(TokenKind),
    /// Left operand, right operand, operator: the operator does not apply
    /// to the two.
    InvalidOperands(LiteralValue, LiteralValue, TokenKind),
    /// The number of parameters, and the number of arguments given.
    ArityMismatch(usize, usize),
    /// The condition of an `if` gave this value, which is no Boolean.
    InvalidCondition(LiteralValue),
    /// Calls and element evaluations are nested deeper than the limit.
    DepthExceeded,
}

/// A runtime error and the position of the instruction that raised it.
#[derive(Debug, PartialEq)]
pub struct RuntimeError {
    pub kind: RuntimeErrorKind,
    pub position: Position,
}

/// The mathematical value of a [`RuntimeErrorKind`].
pub enum RuntimeErrorKindView {
    UndefinedVariable(Seq<char>),
    NotAFunction(ValueView),
    NotAnArray(ValueView),
    IndexOutOfBounds(usize),
    InvalidOperator(TokenKind),
    InvalidOperands(ValueView, ValueView, TokenKind),
    ArityMismatch(usize, usize),
    InvalidCondition(ValueView),
    DepthExceeded,
}

/// The mathematical value of a [`RuntimeError`].
pub struct RuntimeErrorView {
    pub kind: RuntimeErrorKindView,
    pub position: Position,
}

impl View for RuntimeErrorKind {
    type V = RuntimeErrorKindView;

    open spec fn view(&self) -> RuntimeErrorKindView {
        match *self {
            RuntimeErrorKind::UndefinedVariable(name) => RuntimeErrorKindView::UndefinedVariable(name@),
            RuntimeErrorKind::NotAFunction(v) => RuntimeErrorKindView::NotAFunction(value_view(v)),
            RuntimeErrorKind::NotAnArray(v) => RuntimeErrorKindView::NotAnArray(value_view(v)),
            RuntimeErrorKind::IndexOutOfBounds(i) => RuntimeErrorKindView::IndexOutOfBounds(i),
            RuntimeErrorKind::InvalidOperator(op) => RuntimeErrorKindView::InvalidOperator(op),
            RuntimeErrorKind::InvalidOperands(l, r, op) => RuntimeErrorKindView::InvalidOperands(
                value_view(l),
                value_view(r),
                op,
            ),
            RuntimeErrorKind::ArityMismatch(expected, found) => RuntimeErrorKindView::ArityMismatch(
                expected,
                found,
            ),
            RuntimeErrorKind::InvalidCondition(v) => RuntimeErrorKindView::InvalidCondition(
                value_view(v),
            ),
            RuntimeErrorKind::DepthExceeded => RuntimeErrorKindView::DepthExceeded,
        }
    }
}

impl View for RuntimeError {
    type V = RuntimeErrorView;

    open spec fn view(&self) -> RuntimeErrorView {
        RuntimeErrorView { kind: self.kind@, position: self.position }
    }
}

impl RuntimeError {
    /// The error of the kind, raised at the position.
    pub fn new(kind: RuntimeErrorKind, position: Position) -> (r: Self)
        ensures
            r == (RuntimeError { kind, position }),
    {
        RuntimeError { kind, position }
    }
}

/// What the compiler found wrong with the types of a program.
#[derive(Debug, PartialEq)]
pub enum TypeError {
    /// The type that was expected, and the type that was found.
    ExpectedDataType(DataType, DataType),
    /// The name is declared in no frame.
    UndefinedName(String),
    /// A value of this type was called, and it is no function.
    NotCallable(DataType),
    /// The number of parameters, and the number of arguments given.
    ArityMismatch(usize, usize),
    /// The operator, which does not stand in this place, and the types of
    /// its operands.
    InvalidOperator(TokenKind, Vec<DataType>),
    /// The type that the body of a function gives, which cannot be inferred
    /// in full and which no annotation declares.
    UninferredType(DataType),
}

#[derive(Debug, PartialEq)]
pub enum CompileError {
    /// The parser had met errors: nothing is compiled.
    ParsingError(Vec<ParsingError>),
    /// A type error, and the position of the node that raised it.
    TypeError(TypeError, Position),
}

/// The mathematical value of a [`TypeError`].
pub enum TypeErrorView {
    ExpectedDataType(TypeView, TypeView),
    UndefinedName(Seq<char>),
    NotCallable(TypeView),
    ArityMismatch(usize, usize),
    InvalidOperator(TokenKind, Seq<TypeView>),
    UninferredType(TypeView),
}

/// The mathematical value of a [`CompileError`].
pub enum CompileErrorView {
    ParsingError(Seq<(Seq<char>, Position)>),
    TypeError(TypeErrorView, Position),
}

/// The views of parse errors, in order.
pub open spec fn parsing_errors_view(errors: Seq<ParsingError>) -> Seq<(Seq<char>, Position)> {
    Seq::new(errors.len(), |i: int| errors[i]@)
}

impl View for TypeError {
    type V = TypeErrorView;

    open spec fn view(&self) -> TypeErrorView {
        match *self {
            TypeError::ExpectedDataType(expected, found) => TypeErrorView::ExpectedDataType(
                expected@,
                found@,
            ),
            TypeError::UndefinedName(name) => TypeErrorView::UndefinedName(name@),
            TypeError::NotCallable(t) => TypeErrorView::NotCallable(t@),
            TypeError::ArityMismatch(expected, found) => TypeErrorView::ArityMismatch(
                expected,
                found,
            ),
            TypeError::InvalidOperator(op, operands) => TypeErrorView::InvalidOperator(
                op,
                data_types_view(operands@),
            ),
            TypeError::UninferredType(t) => TypeErrorView::UninferredType(t@),
        }
    }
}

impl View for CompileError {
    type V = CompileErrorView;

    open spec fn view(&self) -> CompileErrorView {
        match *self {
            CompileError::ParsingError(errors) => CompileErrorView::ParsingError(
                parsing_errors_view(errors@),
            ),
            CompileError::TypeError(error, position) => CompileErrorView::TypeError(
                error@,
                position,
            ),
        }
    }
}

} // verus!
