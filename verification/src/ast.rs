//! The syntax tree that a parser hands to the compiler. Every node carries
//! the position at which it was read.

use crate::instruction::ParameterKind;
use crate::position::Position;
use crate::token::TokenKind;
use crate::types::DataType;
use vstd::prelude::*;

verus! {

/// A parameter of a function literal: its name, its annotated type, `Auto`
/// where none was written, and its kind.
#[derive(Debug, PartialEq)]
pub struct Parameter {
    pub name: String,
    pub data_type: DataType,
    pub kind: ParameterKind,
    pub position: Position,
}

#[derive(Debug, PartialEq)]
pub enum Expression {
    Identifier { value: String, position: Position },
    /// A number, as its IEEE 754 binary64 bit pattern.
    NumberLiteral { value: u64, position: Position },
    StringLiteral { value: String, position: Position },
    BooleanLiteral { value: bool, position: Position },
    ArrayLiteral { elements: Vec<Expression>, position: Position },
    ObjectLiteral { pairs: Vec<(String, Expression)>, position: Position },
    /// A function: its parameters, the declared type of its result (`Auto`
    /// where none was written) and the statements of its body.
    FunctionLiteral {
        parameters: Vec<Parameter>,
        return_type: DataType,
        body: Vec<Statement>,
        position: Position,
    },
    PrefixExpression { operator: TokenKind, right: Box<Expression>, position: Position },
    InfixExpression {
        left: Box<Expression>,
        operator: TokenKind,
        right: Box<Expression>,
        position: Position,
    },
    IfExpression {
        condition: Box<Expression>,
        consequence: Vec<Statement>,
        alternative: Option<Vec<Statement>>,
        position: Position,
    },
    CallExpression { function: Box<Expression>, arguments: Vec<Expression>, position: Position },
    IndexExpression { left: Box<Expression>, index: Box<Expression>, position: Position },
    BlockExpression { statements: Vec<Statement>, position: Position },
}

/// `let name: data_type = value;`, with `Auto` where no type was written.
#[derive(Debug, PartialEq)]
pub struct LetStatement {
    pub name: String,
    pub data_type: DataType,
    pub value: Expression,
    pub position: Position,
}

/// `return value;`
#[derive(Debug, PartialEq)]
pub struct ReturnStatement {
    pub value: Expression,
    pub position: Position,
}

/// `type name = data_type;`
#[derive(Debug, PartialEq)]
pub struct TypeStatement {
    pub name: String,
    pub data_type: DataType,
    pub position: Position,
}

/// An expression that stands as a statement.
#[derive(Debug, PartialEq)]
pub struct ExpressionStatement {
    pub expression: Expression,
    pub position: Position,
}

#[derive(Debug, PartialEq)]
pub enum Statement {
    LetStatement(LetStatement),
    ReturnStatement(ReturnStatement),
    TypeStatement(TypeStatement),
    ExpressionStatement(ExpressionStatement),
}

/// What the parser could not read, and where.
#[derive(Debug, PartialEq)]
pub struct ParsingError {
    pub message: String,
    pub position: Position,
}

/// A parsed program: its statements, and the errors that the parser met.
#[derive(Debug, PartialEq)]
pub struct Program {
    pub statements: Vec<Statement>,
    pub errors: Vec<ParsingError>,
}

impl Expression {
    /// The position at which the expression was read.
    pub open spec fn spec_position(&self) -> Position {
        match *self {
            Expression::Identifier { position, .. } => position,
            Expression::NumberLiteral { position, .. } => position,
            Expression::StringLiteral { position, .. } => position,
            Expression::BooleanLiteral { position, .. } => position,
            Expression::ArrayLiteral { position, .. } => position,
            Expression::ObjectLiteral { position, .. } => position,
            Expression::FunctionLiteral { position, .. } => position,
            Expression::PrefixExpression { position, .. } => position,
            Expression::InfixExpression { position, .. } => position,
            Expression::IfExpression { position, .. } => position,
            Expression::CallExpression { position, .. } => position,
            Expression::IndexExpression { position, .. } => position,
            Expression::BlockExpression { position, .. } => position,
        }
    }

    /// The position at which the expression was read.
    #[verifier::when_used_as_spec(spec_position)]
    pub fn position(&self) -> (r: Position)
        ensures
            r == self.spec_position(),
    {
        match self {
            Expression::Identifier { position, .. } => *position,
            Expression::NumberLiteral { position, .. } => *position,
            Expression::StringLiteral { position, .. } => *position,
            Expression::BooleanLiteral { position, .. } => *position,
            Expression::ArrayLiteral { position, .. } => *position,
            Expression::ObjectLiteral { position, .. } => *position,
            Expression::FunctionLiteral { position, .. } => *position,
            Expression::PrefixExpression { position, .. } => *position,
            Expression::InfixExpression { position, .. } => *position,
            Expression::IfExpression { position, .. } => *position,
            Expression::CallExpression { position, .. } => *position,
            Expression::IndexExpression { position, .. } => *position,
            Expression::BlockExpression { position, .. } => *position,
        }
    }
}

impl Statement {
    /// The position at which the statement was read.
    pub open spec fn spec_position(&self) -> Position {
        match *self {
            Statement::LetStatement(s) => s.position,
            Statement::ReturnStatement(s) => s.position,
            Statement::TypeStatement(s) => s.position,
            Statement::ExpressionStatement(s) => s.position,
        }
    }

    /// The position at which the statement was read.
    #[verifier::when_used_as_spec(spec_position)]
    pub fn position(&self) -> (r: Position)
        ensures
            r == self.spec_position(),
    {
        match self {
            Statement::LetStatement(s) => s.position,
            Statement::ReturnStatement(s) => s.position,
            Statement::TypeStatement(s) => s.position,
            Statement::ExpressionStatement(s) => s.position,
        }
    }
}

impl View for ParsingError {
    type V = (Seq<char>, Position);

    open spec fn view(&self) -> (Seq<char>, Position) {
        (self.message@, self.position)
    }
}

impl Clone for ParsingError {
    fn clone(&self) -> (r: Self)
        ensures
            r@ == self@,
    {
        ParsingError { message: self.message.clone(), position: self.position }
    }
}

} // verus!
