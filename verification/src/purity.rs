//! Evaluation never reads the output: it gives the same result whatever
//! was appended before, and appends the same values after it.

use crate::builtin::builtin_named;
use crate::instruction::{EnvView, ExprView, InstructionTypeView, InstructionView, ValueView};
use crate::number::index_of;
use crate::position::Position;
use crate::semantics::{
    block_value, call_env, call_refusal, eval_expr, eval_exprs, run_block, run_instruction,
    run_instructions, Evaluation, Run,
};
use vstd::prelude::*;

verus! {

/// The evaluation `r`, had `out` been appended before it.
pub open spec fn after<T>(out: Seq<ValueView>, r: Evaluation<T>) -> Evaluation<T> {
    Evaluation { result: r.result, output: out + r.output }
}

/// The run `r`, had `out` been appended before it.
pub open spec fn run_after(out: Seq<ValueView>, r: Run) -> Run {
    Run { env: r.env, output: out + r.output, failure: r.failure }
}

/// An expression gives what it gives from an empty output, and appends what
/// it appends then.
pub proof fn lemma_eval_appends(
    e: ExprView,
    position: Position,
    env: EnvView,
    out: Seq<ValueView>,
    depth: nat,
)
    ensures
        eval_expr(e, position, env, out, depth) == after(
            out,
            eval_expr(e, position, env, Seq::empty(), depth),
        ),
    decreases depth, e, 1nat,
{
    let none = Seq::<ValueView>::empty();
    assert(out + none =~= out);
    match e {
        ExprView::Identifier(_) => {},
        ExprView::Literal(ValueView::Array(elements)) => {
            lemma_evals_append(elements, position, env, out, depth);
        },
        ExprView::Literal(_) => {},
        ExprView::Block(b) => {
            lemma_block_appends(b, env.child(), out, depth);
        },
        ExprView::If(c, t, a) => {
            lemma_eval_appends(*c, position, env, out, depth);
            let c0 = eval_expr(*c, position, env, none, depth);
            lemma_then(*t, position, env, out, c0.output, depth);
            match a {
                Some(x) => {
                    lemma_then(*x, position, env, out, c0.output, depth);
                },
                None => {},
            }
        },
        ExprView::Call(f, arguments) => {
            lemma_call_appends(e, position, env, out, depth);
        },
        ExprView::Index(l, i) => {
            lemma_eval_appends(*l, position, env, out, depth);
            let l0 = eval_expr(*l, position, env, none, depth);
            lemma_then(*i, position, env, out, l0.output, depth);
            let i0 = eval_expr(*i, position, env, l0.output, depth);
            if l0.result is Ok && i0.result is Ok {
                match (l0.result->Ok_0, i0.result->Ok_0) {
                    (ValueView::Array(elements), ValueView::Number(n)) => {
                        let ready = index_of(n) < elements.len() && elements[index_of(
                            n,
                        ) as int] is Literal && crate::semantics::plain(
                            elements[index_of(n) as int]->Literal_0,
                        );
                        if index_of(n) < elements.len() && depth > 0 && !ready {
                            let element = elements[index_of(n) as int];
                            let deeper = (depth - 1) as nat;
                            lemma_eval_appends(element, position, env, out + i0.output, deeper);
                            lemma_eval_appends(element, position, env, i0.output, deeper);
                            let r = eval_expr(element, position, env, none, deeper);
                            assert((out + i0.output) + r.output =~= out + (i0.output + r.output));
                        }
                    },
                    _ => {},
                }
            }
        },
        ExprView::Prefix(_, r) => {
            lemma_eval_appends(*r, position, env, out, depth);
        },
        ExprView::Infix(_, l, r) => {
            lemma_eval_appends(*l, position, env, out, depth);
            let l0 = eval_expr(*l, position, env, none, depth);
            lemma_then(*r, position, env, out, l0.output, depth);
        },
    }
}

/// An expression that is evaluated after `done` was appended to `out`
/// gives what it gives after `done` alone, with `out` before.
pub proof fn lemma_then(
    e: ExprView,
    position: Position,
    env: EnvView,
    out: Seq<ValueView>,
    done: Seq<ValueView>,
    depth: nat,
)
    ensures
        eval_expr(e, position, env, out + done, depth) == after(
            out,
            eval_expr(e, position, env, done, depth),
        ),
    decreases depth, e, 2nat,
{
    lemma_eval_appends(e, position, env, out + done, depth);
    lemma_eval_appends(e, position, env, done, depth);
    let r = eval_expr(e, position, env, Seq::empty(), depth);
    assert((out + done) + r.output =~= out + (done + r.output));
}

/// A call gives what it gives from an empty output, and appends what it
/// appends then.
pub proof fn lemma_call_appends(
    e: ExprView,
    position: Position,
    env: EnvView,
    out: Seq<ValueView>,
    depth: nat,
)
    requires
        e is Call,
    ensures
        eval_expr(e, position, env, out, depth) == after(
            out,
            eval_expr(e, position, env, Seq::empty(), depth),
        ),
    decreases depth, e, 0nat,
{
    let none = Seq::<ValueView>::empty();
    let f = *e->Call_0;
    let arguments = e->Call_1;
    lemma_evals_append(arguments, position, env, out, depth);
    let a0 = eval_exprs(arguments, position, env, none, depth);
    if a0.result is Ok {
        let values = a0.result->Ok_0;
        if f is Identifier && env.lookup(f->Identifier_0).is_none() {
            match builtin_named(f->Identifier_0) {
                Some(builtin) => {
                    assert(builtin.output(values, out + a0.output) =~= out + builtin.output(
                        values,
                        a0.output,
                    ));
                },
                None => {},
            }
        } else {
            lemma_then(f, position, env, out, a0.output, depth);
            let f0 = eval_expr(f, position, env, a0.output, depth);
            if f0.result is Ok {
                let function = f0.result->Ok_0;
                if call_refusal(function, values, depth).is_none() {
                    let inner = call_env(function, values, env);
                    let body = function->Function_1;
                    let deeper = (depth - 1) as nat;
                    lemma_block_appends(body, inner, out + f0.output, deeper);
                    lemma_block_appends(body, inner, f0.output, deeper);
                    let r = run_block(body, inner, none, deeper);
                    assert((out + f0.output) + r.output =~= out + (f0.output + r.output));
                }
            }
        }
    }
}

/// Expressions that are evaluated one after the other give what they give
/// from an empty output, and append what they append then.
pub proof fn lemma_evals_append(
    es: Seq<ExprView>,
    position: Position,
    env: EnvView,
    out: Seq<ValueView>,
    depth: nat,
)
    ensures
        eval_exprs(es, position, env, out, depth) == after(
            out,
            eval_exprs(es, position, env, Seq::empty(), depth),
        ),
    decreases depth, es, 0nat,
{
    let none = Seq::<ValueView>::empty();
    assert(out + none =~= out);
    if es.len() > 0 {
        lemma_evals_append(es.drop_last(), position, env, out, depth);
        let init = eval_exprs(es.drop_last(), position, env, none, depth);
        lemma_then(es.last(), position, env, out, init.output, depth);
    }
}

/// An instruction does what it does from an empty output, and appends what
/// it appends then.
pub proof fn lemma_instruction_appends(
    i: InstructionView,
    env: EnvView,
    out: Seq<ValueView>,
    depth: nat,
)
    ensures
        run_instruction(i, env, out, depth) == run_after(
            out,
            run_instruction(i, env, Seq::empty(), depth),
        ),
    decreases depth, i, 0nat,
{
    let none = Seq::<ValueView>::empty();
    assert(out + none =~= out);
    match i.instruction {
        InstructionTypeView::StoreName(_, e) => {
            lemma_eval_appends(e, i.position, env, out, depth);
        },
        InstructionTypeView::Expression(e) => {
            lemma_eval_appends(e, i.position, env, out, depth);
        },
        _ => {},
    }
}

/// A run of instructions does what it does from an empty output, and
/// appends what it appends then.
pub proof fn lemma_run_appends(b: Seq<InstructionView>, env: EnvView, out: Seq<ValueView>, depth: nat)
    ensures
        run_instructions(b, env, out, depth) == run_after(
            out,
            run_instructions(b, env, Seq::empty(), depth),
        ),
    decreases depth, b, 0nat,
{
    let none = Seq::<ValueView>::empty();
    assert(out + none =~= out);
    if b.len() > 0 {
        lemma_run_appends(b.drop_last(), env, out, depth);
        let init = run_instructions(b.drop_last(), env, none, depth);
        if init.failure.is_none() {
            lemma_instruction_appends(b.last(), init.env, out + init.output, depth);
            lemma_instruction_appends(b.last(), init.env, init.output, depth);
            let r = run_instruction(b.last(), init.env, none, depth);
            assert((out + init.output) + r.output =~= out + (init.output + r.output));
        }
    }
}

/// A block gives what it gives from an empty output, and appends what it
/// appends then.
pub proof fn lemma_block_appends(b: Seq<InstructionView>, env: EnvView, out: Seq<ValueView>, depth: nat)
    ensures
        run_block(b, env, out, depth) == after(out, run_block(b, env, Seq::empty(), depth)),
    decreases depth, b, 1nat,
{
    let none = Seq::<ValueView>::empty();
    assert(out + none =~= out);
    lemma_run_appends(b, env, out, depth);
    let ran = run_instructions(b, env, none, depth);
    if ran.failure.is_none() && b.len() > 0 && b.last().instruction is Return {
        let e = b.last().instruction->Return_0;
        lemma_eval_appends(e, b.last().position, ran.env, out + ran.output, depth);
        lemma_eval_appends(e, b.last().position, ran.env, ran.output, depth);
        let r = eval_expr(e, b.last().position, ran.env, none, depth);
        assert((out + ran.output) + r.output =~= out + (ran.output + r.output));
    }
}

/// Evaluation is repeatable: whatever an expression has appended to the
/// output, evaluated again in the same environment it gives the same result
/// and appends the same values once more.
pub proof fn lemma_evaluation_repeats(
    e: ExprView,
    position: Position,
    env: EnvView,
    out: Seq<ValueView>,
    depth: nat,
)
    ensures
        ({
            let first = eval_expr(e, position, env, out, depth);
            let second = eval_expr(e, position, env, first.output, depth);
            let alone = eval_expr(e, position, env, Seq::empty(), depth);
            &&& second.result == first.result
            &&& first.output == out + alone.output
            &&& second.output == first.output + alone.output
        }),
{
    lemma_eval_appends(e, position, env, out, depth);
    lemma_eval_appends(e, position, env, eval_expr(e, position, env, out, depth).output, depth);
}

} // verus!
