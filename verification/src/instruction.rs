//! The instruction tree: what the compiler produces and the interpreter
//! evaluates, with the mathematical value of each of its types.

use crate::position::Position;
use crate::token::TokenKind;
use crate::types::{data_type_view, DataType, TypeView};
use vstd::prelude::*;

verus! {

pub type Block = Vec<Instruction>;

/// One instruction, with the place in the source that it was made from.
#[derive(Debug, PartialEq)]
pub struct Instruction {
    pub instruction: InstructionType,
    pub position: Position,
}

#[derive(Debug, PartialEq)]
pub enum InstructionType {
    /// Binds the value of the expression to the name.
    StoreName(String, IrExpression),
    /// Gives the value of the expression as the value of the block.
    Return(IrExpression),
    /// Evaluates the expression and drops its value.
    Expression(IrExpression),
    /// Does nothing.
    Nop,
}

#[derive(Debug, PartialEq)]
pub enum IrExpression {
    Identifier(String),
    Literal(LiteralValue),
    Block(Block),
    /// Condition, consequence, alternative.
    If(Box<IrExpression>, Box<IrExpression>, Box<Option<IrExpression>>),
    /// Function, arguments.
    Call(Box<IrExpression>, Vec<IrExpression>),
    /// Left, index.
    Index(Box<IrExpression>, Box<IrExpression>),
    /// Operator, right.
    Prefix(TokenKind, Box<IrExpression>),
    /// Operator, left, right.
    Infix(TokenKind, Box<IrExpression>, Box<IrExpression>),
}

/// How a parameter takes its arguments.
#[derive(Clone, Copy, Debug, PartialEq, Eq, Structural)]
pub enum ParameterKind {
    Normal,
    /// Written with `...` before the name.
    Spread,
}

/// A parameter of a function: its name and its kind.
#[derive(Debug, PartialEq)]
pub struct Parameter {
    pub name: String,
    pub kind: ParameterKind,
}

#[derive(Debug, PartialEq)]
pub enum LiteralValue {
    /// An IEEE 754 binary64 number, as its bit pattern.
    Number(u64),
    String(String),
    Boolean(bool),
    /// The elements are expressions, so that they can refer to names.
    Array(Vec<IrExpression>),
    /// The fields with their expressions, as they were written.
    Object(Vec<(String, IrExpression)>),
    /// Parameters, body, declared type of the result, and the environment
    /// that the function has captured, if any.
    Function(Vec<Parameter>, Block, DataType, Option<IrEnvironment>),
}

/// One frame of names and their values, and the frame around it.
#[derive(Debug, PartialEq)]
pub struct IrEnvironment {
    pub values: Vec<(String, LiteralValue)>,
    pub parent: Option<Box<IrEnvironment>>,
}

/// The mathematical value of an [`Instruction`].
pub struct InstructionView {
    pub instruction: InstructionTypeView,
    pub position: Position,
}

/// The mathematical value of an [`InstructionType`].
pub enum InstructionTypeView {
    StoreName(Seq<char>, ExprView),
    Return(ExprView),
    Expression(ExprView),
    Nop,
}

/// The mathematical value of an [`IrExpression`].
pub enum ExprView {
    Identifier(Seq<char>),
    Literal(ValueView),
    Block(Seq<InstructionView>),
    If(Box<ExprView>, Box<ExprView>, Option<Box<ExprView>>),
    Call(Box<ExprView>, Seq<ExprView>),
    Index(Box<ExprView>, Box<ExprView>),
    Prefix(TokenKind, Box<ExprView>),
    Infix(TokenKind, Box<ExprView>, Box<ExprView>),
}

/// The mathematical value of a [`LiteralValue`].
pub enum ValueView {
    Number(u64),
    String(Seq<char>),
    Boolean(bool),
    Array(Seq<ExprView>),
    Object(Seq<(Seq<char>, ExprView)>),
    /// The names of the parameters, the body, the declared type of the
    /// result, the captured environment, and the kinds of the parameters.
    Function(Seq<Seq<char>>, Seq<InstructionView>, TypeView, Option<EnvView>, Seq<ParameterKind>),
}

/// The mathematical value of an [`IrEnvironment`]: the bindings of the
/// frame in the order in which their names were first bound, and the frame
/// around it.
pub struct EnvView {
    pub values: Seq<(Seq<char>, ValueView)>,
    pub parent: Option<Box<EnvView>>,
}

/// The names of a sequence of parameters, in order.
pub open spec fn names_view(parameters: Seq<Parameter>) -> Seq<Seq<char>> {
    Seq::new(parameters.len(), |i: int| parameters[i].name@)
}

/// The kinds of a sequence of parameters, in order.
pub open spec fn kinds_view(parameters: Seq<Parameter>) -> Seq<ParameterKind> {
    Seq::new(parameters.len(), |i: int| parameters[i].kind)
}

/// The views of a sequence of values, in order.
pub open spec fn values_view(vs: Seq<LiteralValue>) -> Seq<ValueView> {
    Seq::new(vs.len(), |i: int| value_view(vs[i]))
}

/// The mathematical value of what an instruction does.
pub open spec fn instruction_type_view(t: InstructionType) -> InstructionTypeView {
    match t {
        InstructionType::StoreName(name, e) => InstructionTypeView::StoreName(name@, expr_view(e)),
        InstructionType::Return(e) => InstructionTypeView::Return(expr_view(e)),
        InstructionType::Expression(e) => InstructionTypeView::Expression(expr_view(e)),
        InstructionType::Nop => InstructionTypeView::Nop,
    }
}

/// The mathematical value of an instruction.
pub open spec fn instruction_view(i: Instruction) -> InstructionView
    decreases i,
{
    InstructionView {
        instruction: match i.instruction {
            InstructionType::StoreName(name, e) => InstructionTypeView::StoreName(name@, expr_view(e)),
            InstructionType::Return(e) => InstructionTypeView::Return(expr_view(e)),
            InstructionType::Expression(e) => InstructionTypeView::Expression(expr_view(e)),
            InstructionType::Nop => InstructionTypeView::Nop,
        },
        position: i.position,
    }
}

/// The views of a sequence of instructions, in order.
pub open spec fn block_view(b: Seq<Instruction>) -> Seq<InstructionView>
    decreases b,
{
    Seq::new(b.len(), |i: int| if 0 <= i < b.len() { instruction_view(b[i]) } else { arbitrary() })
}

/// The views of a sequence of expressions, in order.
pub open spec fn exprs_view(es: Seq<IrExpression>) -> Seq<ExprView>
    decreases es,
{
    Seq::new(es.len(), |i: int| if 0 <= i < es.len() { expr_view(es[i]) } else { arbitrary() })
}

/// The views of the fields of an object, in order.
pub open spec fn pairs_view(ps: Seq<(String, IrExpression)>) -> Seq<(Seq<char>, ExprView)>
    decreases ps,
{
    Seq::new(
        ps.len(),
        |i: int| if 0 <= i < ps.len() { (ps[i].0@, expr_view(ps[i].1)) } else { arbitrary() },
    )
}

/// The views of the bindings of a frame, in order.
pub open spec fn bindings_view(bs: Seq<(String, LiteralValue)>) -> Seq<(Seq<char>, ValueView)>
    decreases bs,
{
    Seq::new(
        bs.len(),
        |i: int| if 0 <= i < bs.len() { (bs[i].0@, value_view(bs[i].1)) } else { arbitrary() },
    )
}

/// The mathematical value of an expression.
pub open spec fn expr_view(e: IrExpression) -> ExprView
    decreases e,
{
    match e {
        IrExpression::Identifier(name) => ExprView::Identifier(name@),
        IrExpression::Literal(v) => ExprView::Literal(value_view(v)),
        IrExpression::Block(b) => ExprView::Block(block_view(b@)),
        IrExpression::If(c, t, a) => ExprView::If(
            Box::new(expr_view(*c)),
            Box::new(expr_view(*t)),
            match *a {
                Some(x) => Some(Box::new(expr_view(x))),
                None => None,
            },
        ),
        IrExpression::Call(f, args) => ExprView::Call(Box::new(expr_view(*f)), exprs_view(args@)),
        IrExpression::Index(l, i) => ExprView::Index(Box::new(expr_view(*l)), Box::new(expr_view(*i))),
        IrExpression::Prefix(op, r) => ExprView::Prefix(op, Box::new(expr_view(*r))),
        IrExpression::Infix(op, l, r) => ExprView::Infix(
            op,
            Box::new(expr_view(*l)),
            Box::new(expr_view(*r)),
        ),
    }
}

/// The mathematical value of a literal value.
pub open spec fn value_view(v: LiteralValue) -> ValueView
    decreases v,
{
    match v {
        LiteralValue::Number(bits) => ValueView::Number(bits),
        LiteralValue::String(s) => ValueView::String(s@),
        LiteralValue::Boolean(b) => ValueView::Boolean(b),
        LiteralValue::Array(es) => ValueView::Array(exprs_view(es@)),
        LiteralValue::Object(ps) => ValueView::Object(pairs_view(ps@)),
        LiteralValue::Function(parameters, body, result, captured) => ValueView::Function(
            names_view(parameters@),
            block_view(body@),
            data_type_view(result),
            match captured {
                Some(env) => Some(env_view(env)),
                None => None,
            },
            kinds_view(parameters@),
        ),
    }
}

/// The mathematical value of an environment.
pub open spec fn env_view(env: IrEnvironment) -> EnvView
    decreases env,
{
    EnvView {
        values: bindings_view(env.values@),
        parent: match env.parent {
            Some(p) => Some(Box::new(env_view(*p))),
            None => None,
        },
    }
}

/// `block_view` maps `instruction_view` over the sequence.
pub broadcast proof fn lemma_block_view(b: Seq<Instruction>)
    ensures
        (#[trigger] block_view(b)).len() == b.len(),
        forall|i: int| 0 <= i < b.len() ==> (#[trigger] block_view(b)[i]) == instruction_view(b[i]),
{
    reveal_with_fuel(block_view, 2);
}

/// `exprs_view` maps `expr_view` over the sequence.
pub broadcast proof fn lemma_exprs_view(es: Seq<IrExpression>)
    ensures
        (#[trigger] exprs_view(es)).len() == es.len(),
        forall|i: int| 0 <= i < es.len() ==> (#[trigger] exprs_view(es)[i]) == expr_view(es[i]),
{
    reveal_with_fuel(exprs_view, 2);
}

/// `pairs_view` maps the views of name and expression over the sequence.
pub broadcast proof fn lemma_pairs_view(ps: Seq<(String, IrExpression)>)
    ensures
        (#[trigger] pairs_view(ps)).len() == ps.len(),
        forall|i: int|
            0 <= i < ps.len() ==> (#[trigger] pairs_view(ps)[i]) == (ps[i].0@, expr_view(ps[i].1)),
{
    reveal_with_fuel(pairs_view, 2);
}

/// `bindings_view` maps the views of name and value over the sequence.
pub broadcast proof fn lemma_bindings_view(bs: Seq<(String, LiteralValue)>)
    ensures
        (#[trigger] bindings_view(bs)).len() == bs.len(),
        forall|i: int|
            0 <= i < bs.len() ==> (#[trigger] bindings_view(bs)[i]) == (bs[i].0@, value_view(bs[i].1)),
{
    reveal_with_fuel(bindings_view, 2);
}

/// The view of an environment is made of the views of its parts.
pub proof fn lemma_env_view(env: IrEnvironment)
    ensures
        env_view(env).values == bindings_view(env.values@),
        env_view(env).parent == (match env.parent {
            Some(p) => Some(Box::new(env_view(*p))),
            None => None,
        }),
{
    reveal_with_fuel(env_view, 2);
}

pub broadcast group group_views {
    lemma_block_view,
    lemma_exprs_view,
    lemma_pairs_view,
    lemma_bindings_view,
}

impl View for InstructionType {
    type V = InstructionTypeView;

    open spec fn view(&self) -> InstructionTypeView {
        instruction_type_view(*self)
    }
}

impl View for Instruction {
    type V = InstructionView;

    open spec fn view(&self) -> InstructionView {
        instruction_view(*self)
    }
}

impl View for IrExpression {
    type V = ExprView;

    open spec fn view(&self) -> ExprView {
        expr_view(*self)
    }
}

impl View for LiteralValue {
    type V = ValueView;

    open spec fn view(&self) -> ValueView {
        value_view(*self)
    }
}

impl View for IrEnvironment {
    type V = EnvView;

    open spec fn view(&self) -> EnvView {
        env_view(*self)
    }
}

impl Instruction {
    /// The instruction, made from the statement at the position.
    #[inline]
    pub fn new(instruction: InstructionType, position: Position) -> (r: Self)
        ensures
            r == (Instruction { instruction, position }),
    {
        Self { instruction, position }
    }
}

/// A copy of each parameter.
pub fn clone_parameters(parameters: &Vec<Parameter>) -> (r: Vec<Parameter>)
    ensures
        names_view(r@) == names_view(parameters@),
        kinds_view(r@) == kinds_view(parameters@),
{
    let mut out: Vec<Parameter> = Vec::new();
    let mut i: usize = 0;
    while i < parameters.len()
        invariant
            i <= parameters.len(),
            out@.len() == i,
            forall|j: int|
                0 <= j < i ==> (#[trigger] out@[j]).name@ == parameters@[j].name@ && out@[j].kind
                    == parameters@[j].kind,
        decreases parameters.len() - i,
    {
        out.push(Parameter { name: parameters[i].name.clone(), kind: parameters[i].kind });
        i += 1;
    }
    assert(names_view(out@) =~= names_view(parameters@));
    assert(kinds_view(out@) =~= kinds_view(parameters@));
    out
}

/// A copy of each instruction.
pub fn clone_block(b: &Vec<Instruction>) -> (r: Vec<Instruction>)
    ensures
        block_view(r@) == block_view(b@),
    decreases b,
{
    let mut out: Vec<Instruction> = Vec::new();
    let mut i: usize = 0;
    while i < b.len()
        invariant
            i <= b.len(),
            out@.len() == i,
            forall|j: int| 0 <= j < i ==> (#[trigger] out@[j])@ == b@[j]@,
        decreases b.len() - i,
    {
        assert(decreases_to!(*b => b[i as int]));
        out.push(b[i].clone());
        i += 1;
    }
    assert(block_view(out@) =~= block_view(b@));
    out
}

/// A copy of each expression.
pub fn clone_expressions(es: &Vec<IrExpression>) -> (r: Vec<IrExpression>)
    ensures
        exprs_view(r@) == exprs_view(es@),
    decreases es,
{
    let mut out: Vec<IrExpression> = Vec::new();
    let mut i: usize = 0;
    while i < es.len()
        invariant
            i <= es.len(),
            out@.len() == i,
            forall|j: int| 0 <= j < i ==> (#[trigger] out@[j])@ == es@[j]@,
        decreases es.len() - i,
    {
        assert(decreases_to!(*es => es[i as int]));
        out.push(es[i].clone());
        i += 1;
    }
    assert(exprs_view(out@) =~= exprs_view(es@));
    out
}

/// A copy of each field.
pub fn clone_pairs(ps: &Vec<(String, IrExpression)>) -> (r: Vec<(String, IrExpression)>)
    ensures
        pairs_view(r@) == pairs_view(ps@),
    decreases ps,
{
    let mut out: Vec<(String, IrExpression)> = Vec::new();
    let mut i: usize = 0;
    while i < ps.len()
        invariant
            i <= ps.len(),
            out@.len() == i,
            forall|j: int|
                0 <= j < i ==> (#[trigger] out@[j]).0@ == ps@[j].0@ && out@[j].1@ == ps@[j].1@,
        decreases ps.len() - i,
    {
        assert(decreases_to!(*ps => ps[i as int]));
        let pair = &ps[i];
        out.push((pair.0.clone(), pair.1.clone()));
        i += 1;
    }
    assert(pairs_view(out@) =~= pairs_view(ps@));
    out
}

/// A copy of each binding.
pub fn clone_bindings(bs: &Vec<(String, LiteralValue)>) -> (r: Vec<(String, LiteralValue)>)
    ensures
        bindings_view(r@) == bindings_view(bs@),
    decreases bs,
{
    let mut out: Vec<(String, LiteralValue)> = Vec::new();
    let mut i: usize = 0;
    while i < bs.len()
        invariant
            i <= bs.len(),
            out@.len() == i,
            forall|j: int|
                0 <= j < i ==> (#[trigger] out@[j]).0@ == bs@[j].0@ && out@[j].1@ == bs@[j].1@,
        decreases bs.len() - i,
    {
        assert(decreases_to!(*bs => bs[i as int]));
        let binding = &bs[i];
        out.push((binding.0.clone(), binding.1.clone()));
        i += 1;
    }
    assert(bindings_view(out@) =~= bindings_view(bs@));
    out
}

impl Clone for Instruction {
    fn clone(&self) -> (r: Self)
        ensures
            r@ == self@,
        decreases self,
    {
        let instruction = match &self.instruction {
            InstructionType::StoreName(name, e) => InstructionType::StoreName(name.clone(), e.clone()),
            InstructionType::Return(e) => InstructionType::Return(e.clone()),
            InstructionType::Expression(e) => InstructionType::Expression(e.clone()),
            InstructionType::Nop => InstructionType::Nop,
        };
        Instruction { instruction, position: self.position }
    }
}

impl Clone for IrExpression {
    fn clone(&self) -> (r: Self)
        ensures
            r@ == self@,
        decreases self,
    {
        match self {
            IrExpression::Identifier(name) => IrExpression::Identifier(name.clone()),
            IrExpression::Literal(v) => IrExpression::Literal(v.clone()),
            IrExpression::Block(b) => IrExpression::Block(clone_block(b)),
            IrExpression::If(c, t, a) => {
                let alternative = match &**a {
                    Some(x) => Some(x.clone()),
                    None => None,
                };
                IrExpression::If(
                    Box::new((&**c).clone()),
                    Box::new((&**t).clone()),
                    Box::new(alternative),
                )
            },
            IrExpression::Call(f, args) => IrExpression::Call(
                Box::new((&**f).clone()),
                clone_expressions(args),
            ),
            IrExpression::Index(l, i) => IrExpression::Index(
                Box::new((&**l).clone()),
                Box::new((&**i).clone()),
            ),
            IrExpression::Prefix(op, r) => IrExpression::Prefix(*op, Box::new((&**r).clone())),
            IrExpression::Infix(op, l, r) => IrExpression::Infix(
                *op,
                Box::new((&**l).clone()),
                Box::new((&**r).clone()),
            ),
        }
    }
}

impl Clone for LiteralValue {
    fn clone(&self) -> (r: Self)
        ensures
            r@ == self@,
        decreases self,
    {
        match self {
            LiteralValue::Number(bits) => LiteralValue::Number(*bits),
            LiteralValue::String(s) => LiteralValue::String(s.clone()),
            LiteralValue::Boolean(b) => LiteralValue::Boolean(*b),
            LiteralValue::Array(es) => LiteralValue::Array(clone_expressions(es)),
            LiteralValue::Object(ps) => LiteralValue::Object(clone_pairs(ps)),
            LiteralValue::Function(parameters, body, result, captured) => {
                let captured = match captured {
                    Some(env) => Some(env.clone()),
                    None => None,
                };
                LiteralValue::Function(
                    clone_parameters(parameters),
                    clone_block(body),
                    result.clone(),
                    captured,
                )
            },
        }
    }
}

impl Clone for IrEnvironment {
    fn clone(&self) -> (r: Self)
        ensures
            r@ == self@,
        decreases self,
    {
        let parent = match &self.parent {
            Some(p) => Some(Box::new((&**p).clone())),
            None => None,
        };
        IrEnvironment { values: clone_bindings(&self.values), parent }
    }
}

} // verus!
