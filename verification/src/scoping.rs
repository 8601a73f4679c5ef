//! Names that are bound before they are used. In a first-order program,
//! in which functions are bound by name, take data and give data, and in
//! which every name is bound before its use, no name is ever found unbound
//! while the program runs.

use crate::builtin::builtin_named;
use crate::environment::lemma_bind_lookup;
use crate::error::RuntimeErrorView;
use crate::instruction::{EnvView, ExprView, InstructionTypeView, InstructionView, ValueView};
use crate::laws::lemma_child_sees_parent;
use crate::number::index_of;
use crate::position::Position;
use crate::semantics::{
    plain, call_env, call_refusal, eval_expr, eval_exprs, literals, returned, run_block,
    run_instruction, run_instructions,
};
use vstd::prelude::*;

verus! {

/// The names that the first `n` instructions store.
pub open spec fn stored(b: Seq<InstructionView>, n: int) -> Set<Seq<char>>
    decreases n,
{
    if n <= 0 || n > b.len() {
        Set::empty()
    } else {
        match b[n - 1].instruction {
            InstructionTypeView::StoreName(name, _) => stored(b, n - 1).insert(name),
            _ => stored(b, n - 1),
        }
    }
}

/// The names of a sequence, as a set.
pub open spec fn name_set(names: Seq<Seq<char>>) -> Set<Seq<char>> {
    Set::new(|name: Seq<char>| names.contains(name))
}

/// The expression is one of data in a first-order program, where the
/// names of `bound` are bound and those of `functions` are the names of
/// functions: it uses as data a bound name that is not that of a function,
/// it calls by name a bound name or a native function, with data for
/// arguments, and it holds no function literal.
pub open spec fn data(e: ExprView, bound: Set<Seq<char>>, functions: Set<Seq<char>>) -> bool
    decreases e, 0nat,
{
    match e {
        ExprView::Identifier(name) => bound.contains(name) && !functions.contains(name),
        ExprView::Literal(ValueView::Array(elements)) => data_all(
            elements,
            elements.len() as int,
            bound,
            functions,
        ),
        ExprView::Literal(ValueView::Function(_, _, _, _, _)) => false,
        ExprView::Literal(_) => true,
        ExprView::Block(b) => block_ok(b, b.len() as int, bound, functions),
        ExprView::If(c, t, a) => data(*c, bound, functions) && data(*t, bound, functions) && (match a {
            Some(x) => data(*x, bound, functions),
            None => true,
        }),
        ExprView::Call(f, arguments) => {
            &&& *f is Identifier
            &&& bound.contains(f->Identifier_0) || builtin_named(f->Identifier_0).is_some()
            &&& data_all(arguments, arguments.len() as int, bound, functions)
        },
        ExprView::Index(l, i) => data(*l, bound, functions) && data(*i, bound, functions),
        ExprView::Prefix(_, r) => data(*r, bound, functions),
        ExprView::Infix(_, l, r) => data(*l, bound, functions) && data(*r, bound, functions),
    }
}

/// Each of the first `n` expressions is one of data.
pub open spec fn data_all(
    es: Seq<ExprView>,
    n: int,
    bound: Set<Seq<char>>,
    functions: Set<Seq<char>>,
) -> bool
    decreases es, n,
{
    if n <= 0 || n > es.len() {
        true
    } else {
        data_all(es, n - 1, bound, functions) && data(es[n - 1], bound, functions)
    }
}

/// The instruction is one of a first-order program: under the name of a
/// function it stores a function literal that has captured nothing and is
/// well formed, the name itself being bound in its body, so that the
/// function may call itself; under another name it stores data; it returns
/// and evaluates data.
pub open spec fn instruction_ok(
    i: InstructionTypeView,
    bound: Set<Seq<char>>,
    functions: Set<Seq<char>>,
) -> bool
    decreases i, 0nat,
{
    match i {
        InstructionTypeView::StoreName(name, e) => if functions.contains(name) {
            &&& e is Literal
            &&& e->Literal_0 is Function
            &&& e->Literal_0->Function_3 is None
            &&& function_ok(
                e->Literal_0->Function_0,
                e->Literal_0->Function_1,
                bound.insert(name),
                functions,
            )
        } else {
            data(e, bound, functions)
        },
        InstructionTypeView::Return(e) => data(e, bound, functions),
        InstructionTypeView::Expression(e) => data(e, bound, functions),
        InstructionTypeView::Nop => true,
    }
}

/// Each of the first `n` instructions is one of a first-order program,
/// given the names of `bound` and those that the instructions before it
/// store.
pub open spec fn block_ok(
    b: Seq<InstructionView>,
    n: int,
    bound: Set<Seq<char>>,
    functions: Set<Seq<char>>,
) -> bool
    decreases b, n,
{
    if n <= 0 || n > b.len() {
        true
    } else {
        block_ok(b, n - 1, bound, functions) && instruction_ok(
            b[n - 1].instruction,
            bound + stored(b, n - 1),
            functions,
        )
    }
}

/// A function is well formed: no parameter has the name of a function, and
/// the body is a block of a first-order program in which the parameters are
/// bound besides.
pub open spec fn function_ok(
    parameters: Seq<Seq<char>>,
    body: Seq<InstructionView>,
    bound: Set<Seq<char>>,
    functions: Set<Seq<char>>,
) -> bool
    decreases body, body.len() + 1,
{
    &&& forall|i: int| 0 <= i < parameters.len() ==> !functions.contains(#[trigger] parameters[i])
    &&& block_ok(body, body.len() as int, bound + name_set(parameters), functions)
}

/// A value of data: a number, a string, a Boolean, an object, or an array
/// whose elements are literals of values of data. No function is one.
pub open spec fn datum(v: ValueView) -> bool
    decreases v,
{
    match v {
        ValueView::Array(elements) => forall|i: int|
            0 <= i < elements.len() ==> (#[trigger] elements[i]) is Literal && datum(
                elements[i]->Literal_0,
            ),
        ValueView::Function(_, _, _, _, _) => false,
        _ => true,
    }
}

/// What a name is bound to fits the name: the name of a function is bound
/// to a well-formed function that has captured nothing, another name to a
/// value of data.
pub open spec fn fits(
    v: ValueView,
    function: bool,
    bound: Set<Seq<char>>,
    functions: Set<Seq<char>>,
) -> bool {
    if function {
        &&& v is Function
        &&& v->Function_3 is None
        &&& function_ok(v->Function_0, v->Function_1, bound, functions)
    } else {
        datum(v)
    }
}

/// The environment binds the names of `bound` and no others, each to a
/// value that fits it.
pub open spec fn binds(env: EnvView, bound: Set<Seq<char>>, functions: Set<Seq<char>>) -> bool {
    &&& forall|name: Seq<char>| bound.contains(name) <==> (#[trigger] env.lookup(name)).is_some()
    &&& forall|name: Seq<char>|
        (#[trigger] env.lookup(name)).is_some() ==> fits(
            env.lookup(name)->Some_0,
            functions.contains(name),
            bound,
            functions,
        )
}

/// The result is the error of a name that was found unbound.
pub open spec fn unbound<T>(r: Result<T, RuntimeErrorView>) -> bool {
    r is Err && r->Err_0.kind is UndefinedVariable
}

/// The failure is that of a name that was found unbound.
pub open spec fn failed_unbound(failure: Option<RuntimeErrorView>) -> bool {
    failure is Some && failure->Some_0.kind is UndefinedVariable
}

/// A value of data is plain.
pub proof fn lemma_datum_plain(v: ValueView)
    requires
        datum(v),
    ensures
        plain(v),
    decreases v,
{
    match v {
        ValueView::Array(elements) => {
            assert forall|i: int| 0 <= i < elements.len() implies (#[trigger] elements[i]) is Literal
                && plain(elements[i]->Literal_0) by {
                lemma_datum_plain(elements[i]->Literal_0);
            }
        },
        _ => {},
    }
}

/// An array of literals of values of data is a value of data.
pub proof fn lemma_literals_datum(values: Seq<ValueView>)
    requires
        forall|i: int| 0 <= i < values.len() ==> datum(#[trigger] values[i]),
    ensures
        datum(ValueView::Array(literals(values))),
{
    assert forall|i: int| 0 <= i < literals(values).len() implies (#[trigger] literals(
        values,
    )[i]) is Literal && datum(literals(values)[i]->Literal_0) by {
        assert(literals(values)[i] == ExprView::Literal(values[i]));
    }
}

/// What is an expression of data stays one when more names are bound.
pub proof fn lemma_data_grows(
    e: ExprView,
    bound: Set<Seq<char>>,
    more: Set<Seq<char>>,
    functions: Set<Seq<char>>,
)
    requires
        data(e, bound, functions),
        bound.subset_of(more),
    ensures
        data(e, more, functions),
    decreases e, 0nat,
{
    match e {
        ExprView::Literal(ValueView::Array(elements)) => {
            lemma_data_all_grows(elements, elements.len() as int, bound, more, functions);
        },
        ExprView::Block(b) => {
            lemma_block_grows(b, b.len() as int, bound, more, functions);
        },
        ExprView::If(c, t, a) => {
            lemma_data_grows(*c, bound, more, functions);
            lemma_data_grows(*t, bound, more, functions);
            match a {
                Some(x) => {
                    lemma_data_grows(*x, bound, more, functions);
                },
                None => {},
            }
        },
        ExprView::Call(f, arguments) => {
            lemma_data_all_grows(arguments, arguments.len() as int, bound, more, functions);
        },
        ExprView::Index(l, i) => {
            lemma_data_grows(*l, bound, more, functions);
            lemma_data_grows(*i, bound, more, functions);
        },
        ExprView::Prefix(_, r) => {
            lemma_data_grows(*r, bound, more, functions);
        },
        ExprView::Infix(_, l, r) => {
            lemma_data_grows(*l, bound, more, functions);
            lemma_data_grows(*r, bound, more, functions);
        },
        _ => {},
    }
}

/// What are expressions of data stay such when more names are bound.
pub proof fn lemma_data_all_grows(
    es: Seq<ExprView>,
    n: int,
    bound: Set<Seq<char>>,
    more: Set<Seq<char>>,
    functions: Set<Seq<char>>,
)
    requires
        data_all(es, n, bound, functions),
        bound.subset_of(more),
    ensures
        data_all(es, n, more, functions),
    decreases es, n,
{
    if 0 < n <= es.len() {
        lemma_data_all_grows(es, n - 1, bound, more, functions);
        lemma_data_grows(es[n - 1], bound, more, functions);
    }
}

/// What is a block of a first-order program stays one when more names are
/// bound.
pub proof fn lemma_block_grows(
    b: Seq<InstructionView>,
    n: int,
    bound: Set<Seq<char>>,
    more: Set<Seq<char>>,
    functions: Set<Seq<char>>,
)
    requires
        block_ok(b, n, bound, functions),
        bound.subset_of(more),
    ensures
        block_ok(b, n, more, functions),
    decreases b, n,
{
    reveal_with_fuel(block_ok, 2);
    if 0 < n <= b.len() {
        lemma_block_grows(b, n - 1, bound, more, functions);
        let before = bound + stored(b, n - 1);
        let after = more + stored(b, n - 1);
        assert(before.subset_of(after));
        match b[n - 1].instruction {
            InstructionTypeView::StoreName(name, e) => {
                if functions.contains(name) {
                    assert(before.insert(name).subset_of(after.insert(name)));
                    lemma_function_grows(
                        e->Literal_0->Function_0,
                        e->Literal_0->Function_1,
                        before.insert(name),
                        after.insert(name),
                        functions,
                    );
                } else {
                    lemma_data_grows(e, before, after, functions);
                }
            },
            InstructionTypeView::Return(e) => {
                lemma_data_grows(e, before, after, functions);
            },
            InstructionTypeView::Expression(e) => {
                lemma_data_grows(e, before, after, functions);
            },
            InstructionTypeView::Nop => {},
        }
    }
}

/// A well-formed function stays one when more names are bound.
pub proof fn lemma_function_grows(
    parameters: Seq<Seq<char>>,
    body: Seq<InstructionView>,
    bound: Set<Seq<char>>,
    more: Set<Seq<char>>,
    functions: Set<Seq<char>>,
)
    requires
        function_ok(parameters, body, bound, functions),
        bound.subset_of(more),
    ensures
        function_ok(parameters, body, more, functions),
    decreases body, body.len() + 1,
{
    assert((bound + name_set(parameters)).subset_of(more + name_set(parameters)));
    lemma_block_grows(
        body,
        body.len() as int,
        bound + name_set(parameters),
        more + name_set(parameters),
        functions,
    );
}

/// What fits a name still fits it when more names are bound.
pub proof fn lemma_fits_grows(
    v: ValueView,
    function: bool,
    bound: Set<Seq<char>>,
    more: Set<Seq<char>>,
    functions: Set<Seq<char>>,
)
    requires
        fits(v, function, bound, functions),
        bound.subset_of(more),
    ensures
        fits(v, function, more, functions),
{
    if function {
        lemma_function_grows(v->Function_0, v->Function_1, bound, more, functions);
    }
}

/// A new frame binds what the environment around it binds.
pub proof fn lemma_child_binds(env: EnvView, bound: Set<Seq<char>>, functions: Set<Seq<char>>)
    requires
        binds(env, bound, functions),
    ensures
        binds(env.child(), bound, functions),
{
    assert forall|name: Seq<char>| bound.contains(name) <==> (#[trigger] env.child().lookup(
        name,
    )).is_some() by {
        lemma_child_sees_parent(env, name);
    }
    assert forall|name: Seq<char>| (#[trigger] env.child().lookup(name)).is_some() implies fits(
        env.child().lookup(name)->Some_0,
        functions.contains(name),
        bound,
        functions,
    ) by {
        lemma_child_sees_parent(env, name);
    }
}

/// After a value that fits a name was bound to it, the environment binds
/// that name besides those it bound.
pub proof fn lemma_bind_binds(
    env: EnvView,
    bound: Set<Seq<char>>,
    functions: Set<Seq<char>>,
    name: Seq<char>,
    value: ValueView,
)
    requires
        binds(env, bound, functions),
        fits(value, functions.contains(name), bound.insert(name), functions),
    ensures
        binds(env.bind(name, value), bound.insert(name), functions),
{
    let after = env.bind(name, value);
    let more = bound.insert(name);
    assert forall|other: Seq<char>| more.contains(other) <==> (#[trigger] after.lookup(
        other,
    )).is_some() by {
        lemma_bind_lookup(env, name, value, other);
    }
    assert forall|other: Seq<char>| (#[trigger] after.lookup(other)).is_some() implies fits(
        after.lookup(other)->Some_0,
        functions.contains(other),
        more,
        functions,
    ) by {
        lemma_bind_lookup(env, name, value, other);
        if other != name {
            assert(env.lookup(other).is_some());
            lemma_fits_grows(
                env.lookup(other)->Some_0,
                functions.contains(other),
                bound,
                more,
                functions,
            );
        }
    }
}

/// After parameters that are no names of functions were bound to values of
/// data, the environment binds them besides the names it bound.
pub proof fn lemma_bind_all_binds(
    env: EnvView,
    bound: Set<Seq<char>>,
    functions: Set<Seq<char>>,
    names: Seq<Seq<char>>,
    values: Seq<ValueView>,
)
    requires
        binds(env, bound, functions),
        names.len() == values.len(),
        forall|i: int| 0 <= i < names.len() ==> !functions.contains(#[trigger] names[i]),
        forall|i: int| 0 <= i < values.len() ==> datum(#[trigger] values[i]),
    ensures
        binds(env.bind_all(names, values), bound + name_set(names), functions),
    decreases names.len(),
{
    if names.len() == 0 {
        assert(bound + name_set(names) =~= bound);
    } else {
        let init = names.drop_last();
        lemma_bind_all_binds(env, bound, functions, init, values.drop_last());
        let before = env.bind_all(init, values.drop_last());
        let known = bound + name_set(init);
        assert(names.last() == names[names.len() - 1]);
        assert(values.last() == values[values.len() - 1]);
        lemma_bind_binds(before, known, functions, names.last(), values.last());
        assert(known.insert(names.last()) =~= bound + name_set(names)) by {
            assert forall|name: Seq<char>| known.insert(names.last()).contains(name) <==> (bound
                + name_set(names)).contains(name) by {
                if init.contains(name) {
                    let i = choose|i: int| 0 <= i < init.len() && init[i] == name;
                    assert(names[i] == name);
                }
                if names.contains(name) {
                    let i = choose|i: int| 0 <= i < names.len() && names[i] == name;
                    if i < init.len() {
                        assert(init[i] == name);
                    }
                }
            }
        }
    }
}

/// An expression of data, evaluated in an environment that binds the bound
/// names as they are meant, does not find a name unbound, and gives a value
/// of data.
pub proof fn lemma_data_evaluates(
    e: ExprView,
    bound: Set<Seq<char>>,
    functions: Set<Seq<char>>,
    position: Position,
    env: EnvView,
    out: Seq<ValueView>,
    depth: nat,
)
    requires
        data(e, bound, functions),
        binds(env, bound, functions),
    ensures
        !unbound(eval_expr(e, position, env, out, depth).result),
        eval_expr(e, position, env, out, depth).result is Ok ==> datum(
            eval_expr(e, position, env, out, depth).result->Ok_0,
        ),
    decreases depth, e, 1nat,
{
    match e {
        ExprView::Identifier(name) => {},
        ExprView::Literal(ValueView::Array(elements)) => {
            lemma_data_all_evaluates(
                elements,
                elements.len() as int,
                bound,
                functions,
                position,
                env,
                out,
                depth,
            );
            assert(elements.take(elements.len() as int) =~= elements);
            let r = eval_exprs(elements, position, env, out, depth);
            if r.result is Ok {
                lemma_literals_datum(r.result->Ok_0);
            }
        },
        ExprView::Literal(_) => {},
        ExprView::Block(b) => {
            lemma_child_binds(env, bound, functions);
            lemma_block_evaluates(b, bound, functions, env.child(), out, depth);
        },
        ExprView::If(c, t, a) => {
            let rc = eval_expr(*c, position, env, out, depth);
            lemma_data_evaluates(*c, bound, functions, position, env, out, depth);
            lemma_data_evaluates(*t, bound, functions, position, env, rc.output, depth);
            match a {
                Some(x) => {
                    lemma_data_evaluates(*x, bound, functions, position, env, rc.output, depth);
                },
                None => {},
            }
        },
        ExprView::Call(f, arguments) => {
            lemma_call_evaluates(e, bound, functions, position, env, out, depth);
        },
        ExprView::Index(l, i) => {
            let rl = eval_expr(*l, position, env, out, depth);
            lemma_data_evaluates(*l, bound, functions, position, env, out, depth);
            lemma_data_evaluates(*i, bound, functions, position, env, rl.output, depth);
            let ri = eval_expr(*i, position, env, rl.output, depth);
            if rl.result is Ok && ri.result is Ok {
                match (rl.result->Ok_0, ri.result->Ok_0) {
                    (ValueView::Array(elements), ValueView::Number(n)) => {
                        let at = index_of(n);
                        if at < elements.len() {
                            let v = elements[at as int]->Literal_0;
                            assert(elements[at as int] is Literal && datum(v));
                            lemma_datum_plain(v);
                        }
                    },
                    _ => {},
                }
            }
        },
        ExprView::Prefix(op, r) => {
            lemma_data_evaluates(*r, bound, functions, position, env, out, depth);
        },
        ExprView::Infix(op, l, r) => {
            let rl = eval_expr(*l, position, env, out, depth);
            lemma_data_evaluates(*l, bound, functions, position, env, out, depth);
            lemma_data_evaluates(*r, bound, functions, position, env, rl.output, depth);
        },
    }
}

/// A call by name in a first-order program does not find a name unbound,
/// and gives a value of data.
pub proof fn lemma_call_evaluates(
    e: ExprView,
    bound: Set<Seq<char>>,
    functions: Set<Seq<char>>,
    position: Position,
    env: EnvView,
    out: Seq<ValueView>,
    depth: nat,
)
    requires
        e is Call,
        data(e, bound, functions),
        binds(env, bound, functions),
    ensures
        !unbound(eval_expr(e, position, env, out, depth).result),
        eval_expr(e, position, env, out, depth).result is Ok ==> datum(
            eval_expr(e, position, env, out, depth).result->Ok_0,
        ),
    decreases depth, e, 0nat,
{
    reveal_with_fuel(eval_expr, 2);
    let name = e->Call_0->Identifier_0;
    let arguments = e->Call_1;
    lemma_data_all_evaluates(
        arguments,
        arguments.len() as int,
        bound,
        functions,
        position,
        env,
        out,
        depth,
    );
    assert(arguments.take(arguments.len() as int) =~= arguments);
    let ra = eval_exprs(arguments, position, env, out, depth);
    if ra.result is Ok {
        let values = ra.result->Ok_0;
        if env.lookup(name).is_some() {
            let callee = env.lookup(name)->Some_0;
            assert(fits(callee, functions.contains(name), bound, functions));
            if callee is Function && call_refusal(callee, values, depth).is_none() {
                assert(functions.contains(name));
                let parameters = callee->Function_0;
                let body = callee->Function_1;
                lemma_child_binds(env, bound, functions);
                lemma_bind_all_binds(env.child(), bound, functions, parameters, values);
                let inner = call_env(callee, values, env);
                let known = bound + name_set(parameters);
                assert(inner == env.child().bind_all(parameters, values));
                lemma_block_evaluates(body, known, functions, inner, ra.output, (depth - 1) as nat);
                let rb = run_block(body, inner, ra.output, (depth - 1) as nat);
                if rb.result is Ok {
                    assert(returned(rb.result->Ok_0, inner) == rb.result->Ok_0);
                }
            }
        }
    }
}

/// Expressions of data, evaluated one after the other, do not find a name
/// unbound, and give values of data.
pub proof fn lemma_data_all_evaluates(
    es: Seq<ExprView>,
    n: int,
    bound: Set<Seq<char>>,
    functions: Set<Seq<char>>,
    position: Position,
    env: EnvView,
    out: Seq<ValueView>,
    depth: nat,
)
    requires
        0 <= n <= es.len(),
        data_all(es, n, bound, functions),
        binds(env, bound, functions),
    ensures
        !unbound(eval_exprs(es.take(n), position, env, out, depth).result),
        eval_exprs(es.take(n), position, env, out, depth).result is Ok ==> forall|i: int|
            0 <= i < eval_exprs(es.take(n), position, env, out, depth).result->Ok_0.len() ==> datum(
                #[trigger] eval_exprs(es.take(n), position, env, out, depth).result->Ok_0[i],
            ),
    decreases depth, es, n,
{
    if n > 0 {
        lemma_data_all_evaluates(es, n - 1, bound, functions, position, env, out, depth);
        assert(es.take(n).drop_last() =~= es.take(n - 1));
        assert(es.take(n).last() == es[n - 1]);
        let init = eval_exprs(es.take(n - 1), position, env, out, depth);
        lemma_data_evaluates(es[n - 1], bound, functions, position, env, init.output, depth);
    }
}

/// The first `n` instructions of a block of a first-order program do not
/// find a name unbound, and the environment that they reach binds the names
/// that they have stored besides.
pub proof fn lemma_run_evaluates(
    b: Seq<InstructionView>,
    n: int,
    bound: Set<Seq<char>>,
    functions: Set<Seq<char>>,
    env: EnvView,
    out: Seq<ValueView>,
    depth: nat,
)
    requires
        0 <= n <= b.len(),
        block_ok(b, n, bound, functions),
        binds(env, bound, functions),
    ensures
        !failed_unbound(run_instructions(b.take(n), env, out, depth).failure),
        run_instructions(b.take(n), env, out, depth).failure is None ==> binds(
            run_instructions(b.take(n), env, out, depth).env,
            bound + stored(b, n),
            functions,
        ),
    decreases depth, b, n,
{
    reveal_with_fuel(run_instructions, 2);
    reveal_with_fuel(block_ok, 2);
    if n == 0 {
        assert(bound + stored(b, 0) =~= bound);
    } else {
        lemma_run_evaluates(b, n - 1, bound, functions, env, out, depth);
        assert(b.take(n).drop_last() =~= b.take(n - 1));
        assert(b.take(n).last() == b[n - 1]);
        let init = run_instructions(b.take(n - 1), env, out, depth);
        if init.failure is None {
            let known = bound + stored(b, n - 1);
            match b[n - 1].instruction {
                InstructionTypeView::StoreName(name, e) => {
                    if functions.contains(name) {
                        lemma_bind_binds(init.env, known, functions, name, e->Literal_0);
                    } else {
                        lemma_data_evaluates(
                            e,
                            known,
                            functions,
                            b[n - 1].position,
                            init.env,
                            init.output,
                            depth,
                        );
                        let r = eval_expr(e, b[n - 1].position, init.env, init.output, depth);
                        if r.result is Ok {
                            lemma_bind_binds(init.env, known, functions, name, r.result->Ok_0);
                        }
                    }
                    assert(known.insert(name) =~= bound + stored(b, n));
                },
                InstructionTypeView::Expression(e) => {
                    lemma_data_evaluates(
                        e,
                        known,
                        functions,
                        b[n - 1].position,
                        init.env,
                        init.output,
                        depth,
                    );
                    assert(known =~= bound + stored(b, n));
                },
                _ => {
                    assert(known =~= bound + stored(b, n));
                },
            }
        }
    }
}

/// A block of a first-order program does not find a name unbound, and
/// gives a value of data.
pub proof fn lemma_block_evaluates(
    b: Seq<InstructionView>,
    bound: Set<Seq<char>>,
    functions: Set<Seq<char>>,
    env: EnvView,
    out: Seq<ValueView>,
    depth: nat,
)
    requires
        block_ok(b, b.len() as int, bound, functions),
        binds(env, bound, functions),
    ensures
        !unbound(run_block(b, env, out, depth).result),
        run_block(b, env, out, depth).result is Ok ==> datum(
            run_block(b, env, out, depth).result->Ok_0,
        ),
    decreases depth, b, b.len() + 1,
{
    reveal_with_fuel(block_ok, 2);
    let n = b.len() as int;
    lemma_run_evaluates(b, n, bound, functions, env, out, depth);
    assert(b.take(n) =~= b);
    let ran = run_instructions(b, env, out, depth);
    if ran.failure is None && n > 0 {
        match b[n - 1].instruction {
            InstructionTypeView::Return(e) => {
                let known = bound + stored(b, n - 1);
                assert(stored(b, n) == stored(b, n - 1));
                lemma_data_evaluates(e, known, functions, b[n - 1].position, ran.env, ran.output, depth);
            },
            _ => {},
        }
    }
}

/// A first-order program in which every name is stored before it is used
/// never finds a name unbound: run from the empty environment, neither its
/// instructions nor its value fail with an undefined variable. `functions`
/// are the names that the program gives to its functions; it gives them to
/// nothing else.
pub proof fn lemma_scoped_program(
    b: Seq<InstructionView>,
    functions: Set<Seq<char>>,
    out: Seq<ValueView>,
    depth: nat,
)
    requires
        block_ok(b, b.len() as int, Set::empty(), functions),
    ensures
        !failed_unbound(run_instructions(b, EnvView::empty(), out, depth).failure),
        !unbound(run_block(b, EnvView::empty(), out, depth).result),
{
    let env = EnvView::empty();
    assert forall|name: Seq<char>| (#[trigger] env.lookup(name)).is_none() by {
        reveal_with_fuel(EnvView::lookup, 2);
        assert(crate::environment::frame_find(env.values, name, 0).is_none());
    }
    assert(binds(env, Set::empty(), functions));
    lemma_run_evaluates(b, b.len() as int, Set::empty(), functions, env, out, depth);
    assert(b.take(b.len() as int) =~= b);
    lemma_block_evaluates(b, Set::empty(), functions, env, out, depth);
}

} // verus!
