//! What evaluation means: the value, the output and the environment that
//! the interpreter computes, as functions of the instruction tree.
//!
//! Evaluation nests: a call runs the body of a function, and an index runs
//! an element of an array that is not yet the literal of a plain value.
//! `depth` bounds that nesting, so that every evaluation ends.

use crate::builtin::builtin_named;
use crate::error::{RuntimeErrorKindView, RuntimeErrorView};
use crate::instruction::{EnvView, ExprView, InstructionTypeView, InstructionView, ValueView};
use crate::number::{
    ieee_difference, ieee_product, ieee_quotient, ieee_sum, index_of, negated, number_eq,
    number_le, number_lt,
};
use crate::position::Position;
use crate::text::{text_le, text_lt};
use crate::token::TokenKind;
use vstd::prelude::*;

verus! {

/// How an evaluation ended, and the output after it.
pub struct Evaluation<T> {
    pub result: Result<T, RuntimeErrorView>,
    pub output: Seq<ValueView>,
}

/// Where a run of instructions stopped: the environment it reached, the
/// output, and the error that stopped it, if one did.
pub struct Run {
    pub env: EnvView,
    pub output: Seq<ValueView>,
    pub failure: Option<RuntimeErrorView>,
}

/// An evaluation that gave a value.
pub open spec fn done<T>(value: T, output: Seq<ValueView>) -> Evaluation<T> {
    Evaluation { result: Ok(value), output }
}

/// An evaluation that failed at a position.
pub open spec fn failed<T>(kind: RuntimeErrorKindView, position: Position, output: Seq<ValueView>) -> Evaluation<T> {
    Evaluation { result: Err(RuntimeErrorView { kind, position }), output }
}

/// The value that `false` stands for where an evaluation has none to give.
pub open spec fn no_value() -> ValueView {
    ValueView::Boolean(false)
}

/// The value of a prefix operator on a value: `-` negates a number and `!`
/// flips a Boolean.
pub open spec fn prefix_value(op: TokenKind, right: ValueView) -> Option<ValueView> {
    match (op, right) {
        (TokenKind::Minus, ValueView::Number(n)) => Some(ValueView::Number(negated(n))),
        (TokenKind::Bang, ValueView::Boolean(b)) => Some(ValueView::Boolean(!b)),
        _ => None,
    }
}

/// The value of an infix operator on two values. Two numbers have the four
/// arithmetic operators and the six comparisons, two strings have `+`, which
/// joins them, and the six comparisons, two Booleans have `==` and `!=`.
pub open spec fn infix_value(op: TokenKind, left: ValueView, right: ValueView) -> Option<ValueView> {
    match (left, right) {
        (ValueView::Number(a), ValueView::Number(b)) => match op {
            TokenKind::Plus => Some(ValueView::Number(ieee_sum(a, b))),
            TokenKind::Minus => Some(ValueView::Number(ieee_difference(a, b))),
            TokenKind::Asterisk => Some(ValueView::Number(ieee_product(a, b))),
            TokenKind::Slash => Some(ValueView::Number(ieee_quotient(a, b))),
            TokenKind::EQ => Some(ValueView::Boolean(number_eq(a, b))),
            TokenKind::NEQ => Some(ValueView::Boolean(!number_eq(a, b))),
            TokenKind::LT => Some(ValueView::Boolean(number_lt(a, b))),
            TokenKind::LTE => Some(ValueView::Boolean(number_le(a, b))),
            TokenKind::GT => Some(ValueView::Boolean(number_lt(b, a))),
            TokenKind::GTE => Some(ValueView::Boolean(number_le(b, a))),
            _ => None,
        },
        (ValueView::String(a), ValueView::String(b)) => match op {
            TokenKind::Plus => Some(ValueView::String(a + b)),
            TokenKind::EQ => Some(ValueView::Boolean(a == b)),
            TokenKind::NEQ => Some(ValueView::Boolean(a != b)),
            TokenKind::LT => Some(ValueView::Boolean(text_lt(a, b))),
            TokenKind::LTE => Some(ValueView::Boolean(text_le(a, b))),
            TokenKind::GT => Some(ValueView::Boolean(text_lt(b, a))),
            TokenKind::GTE => Some(ValueView::Boolean(text_le(b, a))),
            _ => None,
        },
        (ValueView::Boolean(a), ValueView::Boolean(b)) => match op {
            TokenKind::EQ => Some(ValueView::Boolean(a == b)),
            TokenKind::NEQ => Some(ValueView::Boolean(a != b)),
            _ => None,
        },
        _ => None,
    }
}

/// A value is plain when evaluation has nothing left to do in it: every
/// element of an array is a literal of a plain value. Numbers, strings,
/// Booleans, objects and functions are plain.
pub open spec fn plain(v: ValueView) -> bool
    decreases v,
{
    match v {
        ValueView::Array(elements) => forall|i: int|
            0 <= i < elements.len() ==> (#[trigger] elements[i]) is Literal && plain(
                elements[i]->Literal_0,
            ),
        _ => true,
    }
}

/// The elements of an evaluated array: each value as a literal.
pub open spec fn literals(values: Seq<ValueView>) -> Seq<ExprView> {
    Seq::new(values.len(), |i: int| ExprView::Literal(values[i]))
}

/// The environment in which the body of `function` runs when it is called
/// from `env` with `arguments`: the captured environment, or else a new
/// frame inside `env`, with the parameters bound to the arguments.
pub open spec fn call_env(function: ValueView, arguments: Seq<ValueView>, env: EnvView) -> EnvView
    recommends
        function is Function,
{
    let base = match function->Function_3 {
        Some(captured) => captured,
        None => env.child(),
    };
    base.bind_all(function->Function_0, arguments)
}

/// Why `callee` cannot be called with `arguments` at this depth, if it
/// cannot: it is no function, it has another number of parameters, or the
/// depth is used up.
pub open spec fn call_refusal(callee: ValueView, arguments: Seq<ValueView>, depth: nat) -> Option<
    RuntimeErrorKindView,
> {
    match callee {
        ValueView::Function(parameters, _, _, _, _) => if parameters.len() != arguments.len() {
            Some(
                RuntimeErrorKindView::ArityMismatch(
                    parameters.len() as usize,
                    arguments.len() as usize,
                ),
            )
        } else if depth == 0 {
            Some(RuntimeErrorKindView::DepthExceeded)
        } else {
            None
        },
        other => Some(RuntimeErrorKindView::NotAFunction(other)),
    }
}

/// What a call gives back for the value of the body: a function that has
/// captured no environment captures a new frame inside `env`, the
/// environment of the call.
pub open spec fn returned(value: ValueView, env: EnvView) -> ValueView {
    match value {
        ValueView::Function(parameters, body, result, None, kinds) => ValueView::Function(
            parameters,
            body,
            result,
            Some(env.child()),
            kinds,
        ),
        other => other,
    }
}

/// The value of an expression in an environment.
pub open spec fn eval_expr(
    e: ExprView,
    position: Position,
    env: EnvView,
    out: Seq<ValueView>,
    depth: nat,
) -> Evaluation<ValueView>
    decreases depth, e, 0nat,
{
    match e {
        ExprView::Identifier(name) => match env.lookup(name) {
            Some(v) => done(v, out),
            None => failed(RuntimeErrorKindView::UndefinedVariable(name), position, out),
        },
        ExprView::Literal(ValueView::Array(elements)) => {
            let r = eval_exprs(elements, position, env, out, depth);
            match r.result {
                Ok(values) => done(ValueView::Array(literals(values)), r.output),
                Err(x) => Evaluation { result: Err(x), output: r.output },
            }
        },
        ExprView::Literal(v) => done(v, out),
        ExprView::Block(b) => run_block(b, env.child(), out, depth),
        ExprView::If(c, t, a) => {
            let rc = eval_expr(*c, position, env, out, depth);
            match rc.result {
                Ok(ValueView::Boolean(true)) => eval_expr(*t, position, env, rc.output, depth),
                Ok(ValueView::Boolean(false)) => match a {
                    Some(x) => eval_expr(*x, position, env, rc.output, depth),
                    None => done(no_value(), rc.output),
                },
                Ok(v) => failed(RuntimeErrorKindView::InvalidCondition(v), position, rc.output),
                Err(x) => Evaluation { result: Err(x), output: rc.output },
            }
        },
        ExprView::Call(f, arguments) => {
            let ra = eval_exprs(arguments, position, env, out, depth);
            match ra.result {
                Err(x) => Evaluation { result: Err(x), output: ra.output },
                Ok(values) => if *f is Identifier && env.lookup(f->Identifier_0).is_none() {
                    match builtin_named(f->Identifier_0) {
                        Some(builtin) => done(
                            builtin.value(values),
                            builtin.output(values, ra.output),
                        ),
                        None => failed(
                            RuntimeErrorKindView::UndefinedVariable(f->Identifier_0),
                            position,
                            ra.output,
                        ),
                    }
                } else {
                    let rf = eval_expr(*f, position, env, ra.output, depth);
                    match rf.result {
                        Err(x) => rf,
                        Ok(function) => match call_refusal(function, values, depth) {
                            Some(kind) => failed(kind, position, rf.output),
                            None => {
                                let inner = call_env(function, values, env);
                                let rb = run_block(
                                    function->Function_1,
                                    inner,
                                    rf.output,
                                    (depth - 1) as nat,
                                );
                                match rb.result {
                                    Ok(v) => done(returned(v, inner), rb.output),
                                    Err(x) => rb,
                                }
                            },
                        },
                    }
                },
            }
        },
        ExprView::Index(l, i) => {
            let rl = eval_expr(*l, position, env, out, depth);
            match rl.result {
                Err(x) => rl,
                Ok(left) => {
                    let ri = eval_expr(*i, position, env, rl.output, depth);
                    match ri.result {
                        Err(x) => ri,
                        Ok(index) => match (left, index) {
                            (ValueView::Array(elements), ValueView::Number(n)) => {
                                if index_of(n) >= elements.len() {
                                    failed(
                                        RuntimeErrorKindView::IndexOutOfBounds(index_of(n)),
                                        position,
                                        ri.output,
                                    )
                                } else {
                                    let element = elements[index_of(n) as int];
                                    if element is Literal && plain(element->Literal_0) {
                                        done(element->Literal_0, ri.output)
                                    } else if depth == 0 {
                                        failed(
                                            RuntimeErrorKindView::DepthExceeded,
                                            position,
                                            ri.output,
                                        )
                                    } else {
                                        eval_expr(
                                            element,
                                            position,
                                            env,
                                            ri.output,
                                            (depth - 1) as nat,
                                        )
                                    }
                                }
                            },
                            _ => failed(RuntimeErrorKindView::NotAnArray(left), position, ri.output),
                        },
                    }
                },
            }
        },
        ExprView::Prefix(op, r) => {
            let rr = eval_expr(*r, position, env, out, depth);
            match rr.result {
                Err(x) => rr,
                Ok(right) => match prefix_value(op, right) {
                    Some(v) => done(v, rr.output),
                    None => failed(RuntimeErrorKindView::InvalidOperator(op), position, rr.output),
                },
            }
        },
        ExprView::Infix(op, l, r) => {
            let rl = eval_expr(*l, position, env, out, depth);
            match rl.result {
                Err(x) => rl,
                Ok(left) => {
                    let rr = eval_expr(*r, position, env, rl.output, depth);
                    match rr.result {
                        Err(x) => rr,
                        Ok(right) => match infix_value(op, left, right) {
                            Some(v) => done(v, rr.output),
                            None => failed(
                                RuntimeErrorKindView::InvalidOperands(left, right, op),
                                position,
                                rr.output,
                            ),
                        },
                    }
                },
            }
        },
    }
}

/// The values of the expressions, from left to right, up to the first that
/// fails: the evaluation of each starts from the output of those before it.
pub open spec fn eval_exprs(
    es: Seq<ExprView>,
    position: Position,
    env: EnvView,
    out: Seq<ValueView>,
    depth: nat,
) -> Evaluation<Seq<ValueView>>
    decreases depth, es, 0nat,
{
    if es.len() == 0 {
        done(Seq::empty(), out)
    } else {
        let init = eval_exprs(es.drop_last(), position, env, out, depth);
        match init.result {
            Err(x) => init,
            Ok(values) => {
                let last = eval_expr(es.last(), position, env, init.output, depth);
                match last.result {
                    Err(x) => Evaluation { result: Err(x), output: last.output },
                    Ok(v) => done(values.push(v), last.output),
                }
            },
        }
    }
}

/// One instruction: a store binds the value of its expression in the frame,
/// an expression is evaluated for its output, and the others do nothing.
pub open spec fn run_instruction(i: InstructionView, env: EnvView, out: Seq<ValueView>, depth: nat) -> Run
    decreases depth, i, 0nat,
{
    match i.instruction {
        InstructionTypeView::StoreName(name, e) => {
            let r = eval_expr(e, i.position, env, out, depth);
            match r.result {
                Ok(v) => Run { env: env.bind(name, v), output: r.output, failure: None },
                Err(x) => Run { env, output: r.output, failure: Some(x) },
            }
        },
        InstructionTypeView::Expression(e) => {
            let r = eval_expr(e, i.position, env, out, depth);
            match r.result {
                Ok(v) => Run { env, output: r.output, failure: None },
                Err(x) => Run { env, output: r.output, failure: Some(x) },
            }
        },
        InstructionTypeView::Return(_) => Run { env, output: out, failure: None },
        InstructionTypeView::Nop => Run { env, output: out, failure: None },
    }
}

/// The instructions in order, up to the first that fails.
pub open spec fn run_instructions(b: Seq<InstructionView>, env: EnvView, out: Seq<ValueView>, depth: nat) -> Run
    decreases depth, b, 0nat,
{
    if b.len() == 0 {
        Run { env, output: out, failure: None }
    } else {
        let init = run_instructions(b.drop_last(), env, out, depth);
        match init.failure {
            Some(x) => init,
            None => run_instruction(b.last(), init.env, init.output, depth),
        }
    }
}

/// The value of a block that has run: that of the expression of its last
/// instruction, where that is a return, and `false` otherwise.
pub open spec fn block_value(b: Seq<InstructionView>, env: EnvView, out: Seq<ValueView>, depth: nat) -> Evaluation<
    ValueView,
>
    decreases depth, b, 0nat,
{
    if b.len() > 0 && b.last().instruction is Return {
        eval_expr(b.last().instruction->Return_0, b.last().position, env, out, depth)
    } else {
        done(no_value(), out)
    }
}

/// A block run from `env` to its value.
pub open spec fn run_block(b: Seq<InstructionView>, env: EnvView, out: Seq<ValueView>, depth: nat) -> Evaluation<
    ValueView,
>
    decreases depth, b, 1nat,
{
    let ran = run_instructions(b, env, out, depth);
    match ran.failure {
        Some(x) => Evaluation { result: Err(x), output: ran.output },
        None => block_value(b, ran.env, ran.output, depth),
    }
}

} // verus!
