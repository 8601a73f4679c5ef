//! The interpreter: it walks the instruction tree and computes what
//! `semantics` defines.

use crate::builtin::get_builtin;
use crate::error::{RuntimeError, RuntimeErrorKind, RuntimeErrorView};
use crate::instruction::{
    block_view, exprs_view, group_views, names_view, values_view, ExprView, Instruction,
    InstructionType, InstructionView, IrEnvironment, IrExpression, LiteralValue, ValueView,
};
use crate::number;
use crate::position::Position;
use crate::semantics::{
    block_value, call_env, call_refusal, eval_expr, eval_exprs, infix_value, literals, plain,
    prefix_value, returned, run_block, run_instruction, run_instructions, Evaluation, Run,
};
use crate::text;
use crate::token::TokenKind;
use vstd::prelude::*;

verus! {

broadcast use group_views;

/// The depth of nested calls and element evaluations that a new interpreter
/// allows: what a thread with a stack of two megabytes bears. Who runs the
/// interpreter on a larger stack may raise `depth`.
pub const DEFAULT_DEPTH: usize = 256;

/// The instructions of a program with the state of its run: the
/// environment, the output that the native functions have appended, and the
/// depth that is left for nested calls.
#[derive(Debug)]
pub struct IrInterpreter {
    pub instructions: Vec<Instruction>,
    pub environment: IrEnvironment,
    pub output: Vec<LiteralValue>,
    pub depth: usize,
}

/// The view of the result of an evaluation.
pub open spec fn value_result_view(r: Result<LiteralValue, RuntimeError>) -> Result<
    ValueView,
    RuntimeErrorView,
> {
    match r {
        Ok(v) => Ok(v@),
        Err(x) => Err(x@),
    }
}

/// The view of the result of the evaluation of several expressions.
pub open spec fn values_result_view(r: Result<Vec<LiteralValue>, RuntimeError>) -> Result<
    Seq<ValueView>,
    RuntimeErrorView,
> {
    match r {
        Ok(vs) => Ok(values_view(vs@)),
        Err(x) => Err(x@),
    }
}

/// The error of a run, if it failed.
pub open spec fn failure_view(r: Result<(), RuntimeError>) -> Option<RuntimeErrorView> {
    match r {
        Ok(_) => None,
        Err(x) => Some(x@),
    }
}

/// Once the evaluation of a prefix has failed, that of the whole sequence
/// has failed in the same way.
pub proof fn lemma_eval_exprs_failed_prefix(
    es: Seq<ExprView>,
    k: int,
    position: Position,
    env: crate::instruction::EnvView,
    out: Seq<ValueView>,
    depth: nat,
)
    requires
        0 <= k <= es.len(),
        eval_exprs(es.take(k), position, env, out, depth).result is Err,
    ensures
        eval_exprs(es, position, env, out, depth) == eval_exprs(es.take(k), position, env, out, depth),
    decreases es.len() - k,
{
    if k == es.len() {
        assert(es.take(k) =~= es);
    } else {
        assert(es.take(k + 1).drop_last() =~= es.take(k));
        lemma_eval_exprs_failed_prefix(es, k + 1, position, env, out, depth);
    }
}

/// Once a run of a prefix has failed, that of the whole sequence has failed
/// in the same way.
pub proof fn lemma_run_failed_prefix(
    b: Seq<InstructionView>,
    k: int,
    env: crate::instruction::EnvView,
    out: Seq<ValueView>,
    depth: nat,
)
    requires
        0 <= k <= b.len(),
        run_instructions(b.take(k), env, out, depth).failure is Some,
    ensures
        run_instructions(b, env, out, depth) == run_instructions(b.take(k), env, out, depth),
    decreases b.len() - k,
{
    if k == b.len() {
        assert(b.take(k) =~= b);
    } else {
        assert(b.take(k + 1).drop_last() =~= b.take(k));
        lemma_run_failed_prefix(b, k + 1, env, out, depth);
    }
}

/// Evaluates the expressions from left to right.
pub fn evaluate_all(
    es: &Vec<IrExpression>,
    position: Position,
    env: &IrEnvironment,
    out: &mut Vec<LiteralValue>,
    depth: usize,
) -> (r: Result<Vec<LiteralValue>, RuntimeError>)
    ensures
        ({
            let s = eval_exprs(exprs_view(es@), position, env@, values_view(old(out)@), depth as nat);
            values_result_view(r) == s.result && values_view(final(out)@) == s.output
        }),
    decreases depth, 1nat, es, 0nat,
{
    let ghost sv = exprs_view(es@);
    let ghost start = values_view(out@);
    let mut acc: Vec<LiteralValue> = Vec::new();
    let mut i: usize = 0;
    assert(values_view(acc@) =~= Seq::empty());
    assert(sv.take(0) =~= Seq::empty());
    while i < es.len()
        invariant
            i <= es.len(),
            sv == exprs_view(es@),
            start == values_view(old(out)@),
            eval_exprs(sv.take(i as int), position, env@, start, depth as nat) == done_values(
                values_view(acc@),
                values_view(out@),
            ),
        decreases es.len() - i,
    {
        assert(decreases_to!(*es => es[i as int]));
        assert(sv.take(i + 1).drop_last() =~= sv.take(i as int));
        assert(sv.take(i + 1).last() == es[i as int]@);
        match evaluate(&es[i], position, env, out, depth) {
            Ok(v) => {
                let ghost before = values_view(acc@);
                acc.push(v);
                assert(values_view(acc@) =~= before.push(v@));
            },
            Err(x) => {
                proof {
                    lemma_eval_exprs_failed_prefix(sv, i + 1, position, env@, start, depth as nat);
                }
                return Err(x);
            },
        }
        i += 1;
    }
    assert(sv.take(es.len() as int) =~= sv);
    Ok(acc)
}

/// An evaluation of several expressions that gave `values`.
pub open spec fn done_values(values: Seq<ValueView>, output: Seq<ValueView>) -> Evaluation<
    Seq<ValueView>,
> {
    Evaluation { result: Ok(values), output }
}

/// Evaluates the elements of an array from left to right, and gives each
/// value as a literal.
pub fn evaluate_elements(
    es: &Vec<IrExpression>,
    position: Position,
    env: &IrEnvironment,
    out: &mut Vec<LiteralValue>,
    depth: usize,
) -> (r: Result<Vec<IrExpression>, RuntimeError>)
    ensures
        ({
            let s = eval_exprs(exprs_view(es@), position, env@, values_view(old(out)@), depth as nat);
            &&& values_view(final(out)@) == s.output
            &&& match r {
                Ok(elements) => s.result is Ok && exprs_view(elements@) == literals(s.result->Ok_0),
                Err(x) => s.result == Err::<Seq<ValueView>, RuntimeErrorView>(x@),
            }
        }),
    decreases depth, 1nat, es, 0nat,
{
    let ghost sv = exprs_view(es@);
    let ghost start = values_view(out@);
    let ghost mut values: Seq<ValueView> = Seq::empty();
    let mut acc: Vec<IrExpression> = Vec::new();
    let mut i: usize = 0;
    assert(exprs_view(acc@) =~= literals(values));
    assert(sv.take(0) =~= Seq::empty());
    while i < es.len()
        invariant
            i <= es.len(),
            sv == exprs_view(es@),
            start == values_view(old(out)@),
            exprs_view(acc@) == literals(values),
            eval_exprs(sv.take(i as int), position, env@, start, depth as nat) == done_values(
                values,
                values_view(out@),
            ),
        decreases es.len() - i,
    {
        assert(decreases_to!(*es => es[i as int]));
        assert(sv.take(i + 1).drop_last() =~= sv.take(i as int));
        assert(sv.take(i + 1).last() == es[i as int]@);
        match evaluate(&es[i], position, env, out, depth) {
            Ok(v) => {
                let ghost old_acc = acc@;
                let ghost old_values = values;
                proof {
                    values = values.push(v@);
                }
                acc.push(IrExpression::Literal(v));
                assert forall|j: int| 0 <= j < acc@.len() implies exprs_view(acc@)[j] == literals(
                    values,
                )[j] by {
                    if j < old_acc.len() {
                        assert(acc@[j] == old_acc[j]);
                        assert(exprs_view(old_acc)[j] == literals(old_values)[j]);
                    }
                }
                assert(exprs_view(acc@) =~= literals(values));
            },
            Err(x) => {
                proof {
                    lemma_eval_exprs_failed_prefix(sv, i + 1, position, env@, start, depth as nat);
                }
                return Err(x);
            },
        }
        i += 1;
    }
    assert(sv.take(es.len() as int) =~= sv);
    Ok(acc)
}

/// Whether a value is plain.
pub fn is_plain(v: &LiteralValue) -> (r: bool)
    ensures
        r == plain(v@),
    decreases v,
{
    match v {
        LiteralValue::Array(elements) => {
            let ghost sv = exprs_view(elements@);
            let mut i: usize = 0;
            while i < elements.len()
                invariant
                    i <= elements.len(),
                    decreases_to!(v => elements),
                    sv == exprs_view(elements@),
                    v@ == ValueView::Array(sv),
                    forall|j: int|
                        0 <= j < i ==> (#[trigger] sv[j]) is Literal && plain(sv[j]->Literal_0),
                decreases elements.len() - i,
            {
                assert(decreases_to!(*elements => elements[i as int]));
                let ok = match &elements[i] {
                    IrExpression::Literal(inner) => is_plain(inner),
                    _ => false,
                };
                assert(ok == (sv[i as int] is Literal && plain(sv[i as int]->Literal_0))) by {
                    reveal_with_fuel(crate::instruction::expr_view, 2);
                }
                if !ok {
                    return false;
                }
                i += 1;
            }
            true
        },
        _ => true,
    }
}

/// The value of an infix operator on two values, where it has one.
pub fn apply_infix(op: TokenKind, left: &LiteralValue, right: &LiteralValue) -> (r: Option<LiteralValue>)
    ensures
        crate::environment::optional_value_view(r) == infix_value(op, left@, right@),
{
    match (left, right) {
        (LiteralValue::Number(a), LiteralValue::Number(b)) => match op {
            TokenKind::Plus => Some(LiteralValue::Number(number::sum(*a, *b))),
            TokenKind::Minus => Some(LiteralValue::Number(number::difference(*a, *b))),
            TokenKind::Asterisk => Some(LiteralValue::Number(number::product(*a, *b))),
            TokenKind::Slash => Some(LiteralValue::Number(number::quotient(*a, *b))),
            TokenKind::EQ => Some(LiteralValue::Boolean(number::equal(*a, *b))),
            TokenKind::NEQ => Some(LiteralValue::Boolean(!number::equal(*a, *b))),
            TokenKind::LT => Some(LiteralValue::Boolean(number::less(*a, *b))),
            TokenKind::LTE => Some(LiteralValue::Boolean(number::less_or_equal(*a, *b))),
            TokenKind::GT => Some(LiteralValue::Boolean(number::less(*b, *a))),
            TokenKind::GTE => Some(LiteralValue::Boolean(number::less_or_equal(*b, *a))),
            _ => None,
        },
        (LiteralValue::String(a), LiteralValue::String(b)) => match op {
            TokenKind::Plus => Some(LiteralValue::String(text::joined(a, b))),
            TokenKind::EQ => Some(LiteralValue::Boolean(*a == *b)),
            TokenKind::NEQ => Some(LiteralValue::Boolean(!(*a == *b))),
            TokenKind::LT => Some(LiteralValue::Boolean(text::less(a, b))),
            TokenKind::LTE => Some(LiteralValue::Boolean(text::less_or_equal(a, b))),
            TokenKind::GT => Some(LiteralValue::Boolean(text::less(b, a))),
            TokenKind::GTE => Some(LiteralValue::Boolean(text::less_or_equal(b, a))),
            _ => None,
        },
        (LiteralValue::Boolean(a), LiteralValue::Boolean(b)) => match op {
            TokenKind::EQ => Some(LiteralValue::Boolean(*a == *b)),
            TokenKind::NEQ => Some(LiteralValue::Boolean(*a != *b)),
            _ => None,
        },
        _ => None,
    }
}

/// The value of a prefix operator on a value, where it has one.
pub fn apply_prefix(op: TokenKind, right: &LiteralValue) -> (r: Option<LiteralValue>)
    ensures
        crate::environment::optional_value_view(r) == prefix_value(op, right@),
{
    match (op, right) {
        (TokenKind::Minus, LiteralValue::Number(n)) => Some(LiteralValue::Number(number::negate(*n))),
        (TokenKind::Bang, LiteralValue::Boolean(b)) => Some(LiteralValue::Boolean(!*b)),
        _ => None,
    }
}

/// The environment in which the body of a function runs: `base` with the
/// parameters bound to the arguments.
fn bind_parameters(
    base: IrEnvironment,
    parameters: &Vec<crate::instruction::Parameter>,
    arguments: &Vec<LiteralValue>,
) -> (r:
    IrEnvironment)
    requires
        parameters.len() == arguments.len(),
    ensures
        r@ == base@.bind_all(names_view(parameters@), values_view(arguments@)),
{
    let mut env = base;
    let ghost names = names_view(parameters@);
    let ghost values = values_view(arguments@);
    let mut i: usize = 0;
    assert(names.take(0) =~= Seq::empty());
    while i < parameters.len()
        invariant
            i <= parameters.len(),
            parameters.len() == arguments.len(),
            names == names_view(parameters@),
            values == values_view(arguments@),
            env@ == base@.bind_all(names.take(i as int), values.take(i as int)),
        decreases parameters.len() - i,
    {
        assert(names.take(i + 1).drop_last() =~= names.take(i as int));
        assert(values.take(i + 1).drop_last() =~= values.take(i as int));
        env.set(&parameters[i].name, &arguments[i]);
        i += 1;
    }
    assert(names.take(parameters.len() as int) =~= names);
    assert(values.take(parameters.len() as int) =~= values);
    env
}

/// Evaluates an expression in an environment. What native functions report
/// is appended to `out`; `depth` bounds the nesting of calls and element
/// evaluations.
pub fn evaluate(
    e: &IrExpression,
    position: Position,
    env: &IrEnvironment,
    out: &mut Vec<LiteralValue>,
    depth: usize,
) -> (r: Result<LiteralValue, RuntimeError>)
    ensures
        ({
            let s = eval_expr(e@, position, env@, values_view(old(out)@), depth as nat);
            value_result_view(r) == s.result && values_view(final(out)@) == s.output
        }),
    decreases depth, 1nat, e, 1nat,
{
    match e {
        IrExpression::Identifier(name) => match env.get(name) {
            Some(value) => Ok(value),
            None => Err(
                RuntimeError::new(RuntimeErrorKind::UndefinedVariable(name.clone()), position),
            ),
        },
        IrExpression::Literal(value) => match value {
            LiteralValue::Array(elements) => {
                assert(value@ == ValueView::Array(exprs_view(elements@)));
                match evaluate_elements(elements, position, env, out, depth) {
                    Ok(evaluated) => Ok(LiteralValue::Array(evaluated)),
                    Err(x) => Err(x),
                }
            },
            _ => Ok(value.clone()),
        },
        IrExpression::Block(block) => run(block, IrEnvironment::new(Some(env)), out, depth),
        IrExpression::If(_, _, _) => evaluate_if(e, position, env, out, depth),
        IrExpression::Call(_, _) => evaluate_call(e, position, env, out, depth),
        IrExpression::Index(_, _) => evaluate_index(e, position, env, out, depth),
        IrExpression::Prefix(_, _) => evaluate_prefix(e, position, env, out, depth),
        IrExpression::Infix(_, _, _) => evaluate_infix(e, position, env, out, depth),
    }
}

/// Evaluates a conditional: the condition, and then the branch that it
/// selects.
fn evaluate_if(
    e: &IrExpression,
    position: Position,
    env: &IrEnvironment,
    out: &mut Vec<LiteralValue>,
    depth: usize,
) -> (r: Result<LiteralValue, RuntimeError>)
    requires
        e is If,
    ensures
        ({
            let s = eval_expr(e@, position, env@, values_view(old(out)@), depth as nat);
            value_result_view(r) == s.result && values_view(final(out)@) == s.output
        }),
    decreases depth, 1nat, e, 0nat,
{
    match e {
        IrExpression::If(condition, consequence, alternative) => {
            match evaluate(condition, position, env, out, depth) {
                Err(x) => Err(x),
                Ok(LiteralValue::Boolean(true)) => evaluate(consequence, position, env, out, depth),
                Ok(LiteralValue::Boolean(false)) => match &**alternative {
                    Some(alternative) => evaluate(alternative, position, env, out, depth),
                    None => Ok(LiteralValue::Boolean(false)),
                },
                Ok(other) => Err(
                    RuntimeError::new(RuntimeErrorKind::InvalidCondition(other), position),
                ),
            }
        },
        _ => Ok(LiteralValue::Boolean(false)),
    }
}

/// Evaluates a call: the arguments from left to right, then the function,
/// then its body. A name that the environment does not bind is looked up
/// among the native functions.
fn evaluate_call(
    e: &IrExpression,
    position: Position,
    env: &IrEnvironment,
    out: &mut Vec<LiteralValue>,
    depth: usize,
) -> (r: Result<LiteralValue, RuntimeError>)
    requires
        e is Call,
    ensures
        ({
            let s = eval_expr(e@, position, env@, values_view(old(out)@), depth as nat);
            value_result_view(r) == s.result && values_view(final(out)@) == s.output
        }),
    decreases depth, 1nat, e, 0nat,
{
    match e {
        IrExpression::Call(function, arguments) => {
            let values = match evaluate_all(arguments, position, env, out, depth) {
                Ok(values) => values,
                Err(x) => {
                    return Err(x);
                },
            };
            let unbound = match &**function {
                IrExpression::Identifier(name) => match env.get(name) {
                    Some(_) => None,
                    None => Some(name),
                },
                _ => None,
            };
            match unbound {
                Some(name) => match get_builtin(name) {
                    Some(builtin) => Ok(builtin.call(values, out)),
                    None => Err(
                        RuntimeError::new(
                            RuntimeErrorKind::UndefinedVariable(name.clone()),
                            position,
                        ),
                    ),
                },
                None => {
                    let callee = match evaluate(function, position, env, out, depth) {
                        Ok(callee) => callee,
                        Err(x) => {
                            return Err(x);
                        },
                    };
                    call(callee, values, position, env, out, depth)
                },
            }
        },
        _ => Ok(LiteralValue::Boolean(false)),
    }
}

/// Evaluates an index: the array, the index, and then the element that the
/// truncated index selects.
fn evaluate_index(
    e: &IrExpression,
    position: Position,
    env: &IrEnvironment,
    out: &mut Vec<LiteralValue>,
    depth: usize,
) -> (r: Result<LiteralValue, RuntimeError>)
    requires
        e is Index,
    ensures
        ({
            let s = eval_expr(e@, position, env@, values_view(old(out)@), depth as nat);
            value_result_view(r) == s.result && values_view(final(out)@) == s.output
        }),
    decreases depth, 1nat, e, 0nat,
{
    match e {
        IrExpression::Index(left, index) => {
            let left = match evaluate(left, position, env, out, depth) {
                Ok(v) => v,
                Err(x) => {
                    return Err(x);
                },
            };
            let index = match evaluate(index, position, env, out, depth) {
                Ok(v) => v,
                Err(x) => {
                    return Err(x);
                },
            };
            match (left, index) {
                (LiteralValue::Array(elements), LiteralValue::Number(n)) => {
                    let at = number::to_index(n);
                    if at >= elements.len() {
                        return Err(
                            RuntimeError::new(RuntimeErrorKind::IndexOutOfBounds(at), position),
                        );
                    }
                    let ready = match &elements[at] {
                        IrExpression::Literal(v) => is_plain(v),
                        _ => false,
                    };
                    assert(ready == (elements[at as int]@ is Literal && plain(
                        elements[at as int]@->Literal_0,
                    ))) by {
                        reveal_with_fuel(crate::instruction::expr_view, 2);
                    }
                    if ready {
                        match &elements[at] {
                            IrExpression::Literal(v) => Ok(v.clone()),
                            _ => Err(RuntimeError::new(RuntimeErrorKind::DepthExceeded, position)),
                        }
                    } else if depth == 0 {
                        Err(RuntimeError::new(RuntimeErrorKind::DepthExceeded, position))
                    } else {
                        evaluate(&elements[at], position, env, out, depth - 1)
                    }
                },
                (left, _) => Err(RuntimeError::new(RuntimeErrorKind::NotAnArray(left), position)),
            }
        },
        _ => Ok(LiteralValue::Boolean(false)),
    }
}

/// Evaluates a prefix operator on the value of its operand.
fn evaluate_prefix(
    e: &IrExpression,
    position: Position,
    env: &IrEnvironment,
    out: &mut Vec<LiteralValue>,
    depth: usize,
) -> (r: Result<LiteralValue, RuntimeError>)
    requires
        e is Prefix,
    ensures
        ({
            let s = eval_expr(e@, position, env@, values_view(old(out)@), depth as nat);
            value_result_view(r) == s.result && values_view(final(out)@) == s.output
        }),
    decreases depth, 1nat, e, 0nat,
{
    match e {
        IrExpression::Prefix(operator, right) => {
            let right = match evaluate(right, position, env, out, depth) {
                Ok(v) => v,
                Err(x) => {
                    return Err(x);
                },
            };
            match apply_prefix(*operator, &right) {
                Some(v) => Ok(v),
                None => Err(
                    RuntimeError::new(RuntimeErrorKind::InvalidOperator(*operator), position),
                ),
            }
        },
        _ => Ok(LiteralValue::Boolean(false)),
    }
}

/// Evaluates an infix operator on the values of its operands, the left one
/// first.
fn evaluate_infix(
    e: &IrExpression,
    position: Position,
    env: &IrEnvironment,
    out: &mut Vec<LiteralValue>,
    depth: usize,
) -> (r: Result<LiteralValue, RuntimeError>)
    requires
        e is Infix,
    ensures
        ({
            let s = eval_expr(e@, position, env@, values_view(old(out)@), depth as nat);
            value_result_view(r) == s.result && values_view(final(out)@) == s.output
        }),
    decreases depth, 1nat, e, 0nat,
{
    match e {
        IrExpression::Infix(operator, left, right) => {
            let left = match evaluate(left, position, env, out, depth) {
                Ok(v) => v,
                Err(x) => {
                    return Err(x);
                },
            };
            let right = match evaluate(right, position, env, out, depth) {
                Ok(v) => v,
                Err(x) => {
                    return Err(x);
                },
            };
            match apply_infix(*operator, &left, &right) {
                Some(v) => Ok(v),
                None => Err(
                    RuntimeError::new(
                        RuntimeErrorKind::InvalidOperands(left, right, *operator),
                        position,
                    ),
                ),
            }
        },
        _ => Ok(LiteralValue::Boolean(false)),
    }
}

/// What a call of `callee` with `arguments` from `env` gives: the error of
/// `call_refusal`, or else what the body gives in the environment of the
/// call, as `returned` hands it back.
pub open spec fn call_value(
    callee: ValueView,
    arguments: Seq<ValueView>,
    position: Position,
    env: crate::instruction::EnvView,
    out: Seq<ValueView>,
    depth: nat,
) -> Evaluation<ValueView> {
    match call_refusal(callee, arguments, depth) {
        Some(kind) => crate::semantics::failed(kind, position, out),
        None => {
            let inner = call_env(callee, arguments, env);
            let rb = run_block(callee->Function_1, inner, out, (depth - 1) as nat);
            match rb.result {
                Ok(v) => crate::semantics::done(returned(v, inner), rb.output),
                Err(x) => rb,
            }
        },
    }
}

/// Calls a value with the values of the arguments.
pub fn call(
    callee: LiteralValue,
    arguments: Vec<LiteralValue>,
    position: Position,
    env: &IrEnvironment,
    out: &mut Vec<LiteralValue>,
    depth: usize,
) -> (r: Result<LiteralValue, RuntimeError>)
    ensures
        ({
            let s = call_value(
                callee@,
                values_view(arguments@),
                position,
                env@,
                values_view(old(out)@),
                depth as nat,
            );
            value_result_view(r) == s.result && values_view(final(out)@) == s.output
        }),
    decreases depth, 0nat,
{
    match callee {
        LiteralValue::Function(parameters, body, result, captured) => {
            if parameters.len() != arguments.len() {
                return Err(
                    RuntimeError::new(
                        RuntimeErrorKind::ArityMismatch(parameters.len(), arguments.len()),
                        position,
                    ),
                );
            }
            if depth == 0 {
                return Err(RuntimeError::new(RuntimeErrorKind::DepthExceeded, position));
            }
            let base = match captured {
                Some(captured) => captured,
                None => IrEnvironment::new(Some(env)),
            };
            let inner = bind_parameters(base, &parameters, &arguments);
            match run(&body, inner.clone(), out, depth - 1) {
                Ok(LiteralValue::Function(parameters, body, result, None)) => Ok(
                    LiteralValue::Function(
                        parameters,
                        body,
                        result,
                        Some(IrEnvironment::new(Some(&inner))),
                    ),
                ),
                Ok(value) => Ok(value),
                Err(x) => Err(x),
            }
        },
        other => Err(RuntimeError::new(RuntimeErrorKind::NotAFunction(other), position)),
    }
}

/// Runs one instruction in the environment.
pub fn step(
    instruction: &Instruction,
    env: &mut IrEnvironment,
    out: &mut Vec<LiteralValue>,
    depth: usize,
) -> (r: Result<(), RuntimeError>)
    ensures
        ({
            let s = run_instruction(instruction@, old(env)@, values_view(old(out)@), depth as nat);
            &&& failure_view(r) == s.failure
            &&& final(env)@ == s.env
            &&& values_view(final(out)@) == s.output
        }),
    decreases depth, 1nat, instruction, 0nat,
{
    match &instruction.instruction {
        InstructionType::StoreName(name, expression) => {
            match evaluate(expression, instruction.position, env, out, depth) {
                Ok(value) => {
                    env.set(name, &value);
                    Ok(())
                },
                Err(x) => Err(x),
            }
        },
        InstructionType::Expression(expression) => {
            match evaluate(expression, instruction.position, env, out, depth) {
                Ok(_) => Ok(()),
                Err(x) => Err(x),
            }
        },
        InstructionType::Return(_) => Ok(()),
        InstructionType::Nop => Ok(()),
    }
}

/// Runs the instructions in order, up to the first that fails.
pub fn run_all(
    block: &Vec<Instruction>,
    env: &mut IrEnvironment,
    out: &mut Vec<LiteralValue>,
    depth: usize,
) -> (r: Result<(), RuntimeError>)
    ensures
        ({
            let s = run_instructions(
                block_view(block@),
                old(env)@,
                values_view(old(out)@),
                depth as nat,
            );
            &&& failure_view(r) == s.failure
            &&& final(env)@ == s.env
            &&& values_view(final(out)@) == s.output
        }),
    decreases depth, 1nat, block, 0nat,
{
    let ghost bv = block_view(block@);
    let ghost start_env = env@;
    let ghost start = values_view(out@);
    let mut i: usize = 0;
    assert(bv.take(0) =~= Seq::empty());
    while i < block.len()
        invariant
            i <= block.len(),
            bv == block_view(block@),
            start_env == old(env)@,
            start == values_view(old(out)@),
            run_instructions(bv.take(i as int), start_env, start, depth as nat).failure.is_none(),
            run_instructions(bv.take(i as int), start_env, start, depth as nat).env == env@,
            run_instructions(bv.take(i as int), start_env, start, depth as nat).output == values_view(out@),
        decreases block.len() - i,
    {
        assert(decreases_to!(*block => block[i as int]));
        assert(bv.take(i + 1).drop_last() =~= bv.take(i as int));
        assert(bv.take(i + 1).last() == block[i as int]@);
        match step(&block[i], env, out, depth) {
            Ok(_) => {},
            Err(x) => {
                proof {
                    lemma_run_failed_prefix(bv, i + 1, start_env, start, depth as nat);
                }
                return Err(x);
            },
        }
        i += 1;
    }
    assert(bv.take(block.len() as int) =~= bv);
    Ok(())
}

/// The value of a block that has run in `env`.
pub fn value_of(
    block: &Vec<Instruction>,
    env: &IrEnvironment,
    out: &mut Vec<LiteralValue>,
    depth: usize,
) -> (r: Result<LiteralValue, RuntimeError>)
    ensures
        ({
            let s = block_value(block_view(block@), env@, values_view(old(out)@), depth as nat);
            value_result_view(r) == s.result && values_view(final(out)@) == s.output
        }),
    decreases depth, 1nat, block, 0nat,
{
    if block.len() == 0 {
        return Ok(LiteralValue::Boolean(false));
    }
    let last = &block[block.len() - 1];
    assert(decreases_to!(*block => block[block.len() - 1]));
    assert(block_view(block@).last() == last@);
    match &last.instruction {
        InstructionType::Return(expression) => evaluate(
            expression,
            last.position,
            env,
            out,
            depth,
        ),
        _ => Ok(LiteralValue::Boolean(false)),
    }
}

/// Runs a block from `env` to its value.
pub fn run(block: &Vec<Instruction>, env: IrEnvironment, out: &mut Vec<LiteralValue>, depth: usize) -> (r:
    Result<LiteralValue, RuntimeError>)
    ensures
        ({
            let s = run_block(block_view(block@), env@, values_view(old(out)@), depth as nat);
            value_result_view(r) == s.result && values_view(final(out)@) == s.output
        }),
    decreases depth, 1nat, block, 1nat,
{
    let mut env = env;
    match run_all(block, &mut env, out, depth) {
        Ok(_) => value_of(block, &env, out, depth),
        Err(x) => Err(x),
    }
}

impl Clone for IrInterpreter {
    fn clone(&self) -> (r: Self)
        ensures
            block_view(r.instructions@) == block_view(self.instructions@),
            r.environment@ == self.environment@,
            values_view(r.output@) == values_view(self.output@),
            r.depth == self.depth,
    {
        let mut output: Vec<LiteralValue> = Vec::new();
        let mut i: usize = 0;
        while i < self.output.len()
            invariant
                i <= self.output.len(),
                output@.len() == i,
                forall|j: int| 0 <= j < i ==> (#[trigger] output@[j])@ == self.output@[j]@,
            decreases self.output.len() - i,
        {
            output.push(self.output[i].clone());
            i += 1;
        }
        assert(values_view(output@) =~= values_view(self.output@));
        IrInterpreter {
            instructions: crate::instruction::clone_block(&self.instructions),
            environment: self.environment.clone(),
            output,
            depth: self.depth,
        }
    }
}

impl IrInterpreter {
    /// An interpreter for the instructions, over an empty environment.
    pub fn new(instructions: Vec<Instruction>) -> (r: Self)
        ensures
            r.instructions == instructions,
            r.environment@ == crate::instruction::EnvView::empty(),
            r.output@ == Seq::<LiteralValue>::empty(),
            r.depth == DEFAULT_DEPTH,
    {
        Self {
            instructions,
            environment: IrEnvironment::new(None),
            output: Vec::new(),
            depth: DEFAULT_DEPTH,
        }
    }

    /// An interpreter for the instructions, over a copy of the environment.
    pub fn new_with_environment(instructions: Vec<Instruction>, environment: &IrEnvironment) -> (r:
        Self)
        ensures
            r.instructions == instructions,
            r.environment@ == environment@,
            r.output@ == Seq::<LiteralValue>::empty(),
            r.depth == DEFAULT_DEPTH,
    {
        Self {
            instructions,
            environment: environment.clone(),
            output: Vec::new(),
            depth: DEFAULT_DEPTH,
        }
    }

    /// Runs the instructions in order, up to the first that fails. A store
    /// binds its name in the environment; a return does nothing here: `last`
    /// evaluates it.
    pub fn eval(&mut self) -> (r: Result<(), RuntimeError>)
        ensures
            ({
                let s = run_instructions(
                    block_view(old(self).instructions@),
                    old(self).environment@,
                    values_view(old(self).output@),
                    old(self).depth as nat,
                );
                &&& failure_view(r) == s.failure
                &&& final(self).environment@ == s.env
                &&& values_view(final(self).output@) == s.output
            }),
            final(self).instructions == old(self).instructions,
            final(self).depth == old(self).depth,
    {
        run_all(&self.instructions, &mut self.environment, &mut self.output, self.depth)
    }

    /// The value of the program: that of the expression of the last
    /// instruction, evaluated in the environment as it is, where the last
    /// instruction is a return, and `false` otherwise.
    pub fn last(&mut self) -> (r: Result<LiteralValue, RuntimeError>)
        ensures
            ({
                let s = block_value(
                    block_view(old(self).instructions@),
                    old(self).environment@,
                    values_view(old(self).output@),
                    old(self).depth as nat,
                );
                &&& value_result_view(r) == s.result
                &&& values_view(final(self).output@) == s.output
            }),
            final(self).instructions == old(self).instructions,
            final(self).environment == old(self).environment,
            final(self).depth == old(self).depth,
    {
        value_of(&self.instructions, &self.environment, &mut self.output, self.depth)
    }

    /// Runs one instruction in the environment of the interpreter.
    pub fn eval_instruction(&mut self, instruction: &Instruction) -> (r: Result<(), RuntimeError>)
        ensures
            ({
                let s = run_instruction(
                    instruction@,
                    old(self).environment@,
                    values_view(old(self).output@),
                    old(self).depth as nat,
                );
                &&& failure_view(r) == s.failure
                &&& final(self).environment@ == s.env
                &&& values_view(final(self).output@) == s.output
            }),
            final(self).instructions == old(self).instructions,
            final(self).depth == old(self).depth,
    {
        step(instruction, &mut self.environment, &mut self.output, self.depth)
    }

    /// Evaluates an expression in the environment of the interpreter, which
    /// stays as it is. An error carries `position`.
    pub fn eval_expression(&mut self, expression: &IrExpression, position: &Position) -> (r: Result<
        LiteralValue,
        RuntimeError,
    >)
        ensures
            ({
                let s = eval_expr(
                    expression@,
                    *position,
                    old(self).environment@,
                    values_view(old(self).output@),
                    old(self).depth as nat,
                );
                &&& value_result_view(r) == s.result
                &&& values_view(final(self).output@) == s.output
            }),
            final(self).instructions == old(self).instructions,
            final(self).environment == old(self).environment,
            final(self).depth == old(self).depth,
    {
        evaluate(expression, *position, &self.environment, &mut self.output, self.depth)
    }
}

} // verus!
