//! What holds of every program: laws of the environment, of evaluation and
//! of compilation, each proved from the definitions in `semantics` and
//! `lowering`.

use crate::builtin::{builtin_named, log_name, Builtin};
use crate::environment::{frame_find, lemma_bind_lookup, lemma_frame_find};
use crate::instruction::{EnvView, ExprView, InstructionTypeView, InstructionView, ValueView};
use crate::position::Position;
use crate::semantics::{
    plain,
    block_value, call_env, done, eval_expr, eval_exprs, literals, run_block, run_instruction,
    run_instructions, Evaluation, Run,
};
use crate::ast::{Expression, LetStatement, ReturnStatement, Statement};
use crate::lowering::{lower_expr, lower_exprs, lower_statements, start};
use crate::symbol_table::ScopeView;
use crate::types::DataType;
use vstd::prelude::*;

verus! {

/// The instruction that calls `log` with one argument.
pub open spec fn log_call(argument: ExprView, position: Position) -> InstructionView {
    InstructionView {
        instruction: InstructionTypeView::Expression(
            ExprView::Call(Box::new(ExprView::Identifier(log_name())), seq![argument]),
        ),
        position,
    }
}

/// A call of `log`, where no frame binds that name, evaluates the argument
/// and then appends its value to the output.
pub proof fn lemma_log_records(
    argument: ExprView,
    position: Position,
    env: EnvView,
    out: Seq<ValueView>,
    depth: nat,
)
    requires
        env.lookup(log_name()).is_none(),
        eval_expr(argument, position, env, out, depth).result is Ok,
    ensures
        ({
            let r = eval_expr(argument, position, env, out, depth);
            run_instruction(log_call(argument, position), env, out, depth) == (Run {
                env,
                output: r.output.push(r.result->Ok_0),
                failure: None,
            })
        }),
{
    reveal_with_fuel(run_instruction, 2);
    reveal_with_fuel(eval_expr, 2);
    reveal_with_fuel(eval_exprs, 3);
    let arguments = seq![argument];
    let r = eval_expr(argument, position, env, out, depth);
    assert(arguments.drop_last() =~= Seq::<ExprView>::empty());
    assert(arguments.last() == argument);
    assert(eval_exprs(arguments.drop_last(), position, env, out, depth) == done(
        Seq::<ValueView>::empty(),
        out,
    ));
    let values = Seq::<ValueView>::empty().push(r.result->Ok_0);
    assert(eval_exprs(arguments, position, env, out, depth) == done(values, r.output));
    assert(builtin_named(log_name()) == Some(Builtin::Log));
    assert(r.output + values =~= r.output.push(r.result->Ok_0));
}

/// The order of evaluation can be observed: two calls of `log`, one after
/// the other, append the value of the first argument and then that of the
/// second to the output.
pub proof fn lemma_log_order(
    first: ExprView,
    second: ExprView,
    at_first: Position,
    at_second: Position,
    env: EnvView,
    out: Seq<ValueView>,
    depth: nat,
)
    requires
        env.lookup(log_name()).is_none(),
        eval_expr(first, at_first, env, out, depth).result is Ok,
        ({
            let a = eval_expr(first, at_first, env, out, depth);
            eval_expr(second, at_second, env, a.output.push(a.result->Ok_0), depth).result is Ok
        }),
    ensures
        ({
            let a = eval_expr(first, at_first, env, out, depth);
            let b = eval_expr(second, at_second, env, a.output.push(a.result->Ok_0), depth);
            run_instructions(
                seq![log_call(first, at_first), log_call(second, at_second)],
                env,
                out,
                depth,
            ) == (Run { env, output: b.output.push(b.result->Ok_0), failure: None })
        }),
{
    let program = seq![log_call(first, at_first), log_call(second, at_second)];
    let a = eval_expr(first, at_first, env, out, depth);
    lemma_log_records(first, at_first, env, out, depth);
    lemma_log_records(second, at_second, env, a.output.push(a.result->Ok_0), depth);
    reveal_with_fuel(run_instructions, 3);
    assert(program.drop_last() =~= seq![log_call(first, at_first)]);
    assert(program.drop_last().drop_last() =~= Seq::<InstructionView>::empty());
    assert(program.last() == log_call(second, at_second));
    assert(program.drop_last().last() == log_call(first, at_first));
}

/// A new frame sees every binding of the environment around it.
pub proof fn lemma_child_sees_parent(env: EnvView, name: Seq<char>)
    ensures
        env.child().lookup(name) == env.lookup(name),
{
    reveal_with_fuel(EnvView::lookup, 2);
    assert(frame_find(env.child().values, name, 0).is_none());
}

/// Binding names in a frame leaves every other name as it was, and leaves
/// the frames around it as they were.
pub proof fn lemma_bind_all_keeps_others(
    env: EnvView,
    names: Seq<Seq<char>>,
    values: Seq<ValueView>,
    name: Seq<char>,
)
    requires
        names.len() == values.len(),
        forall|i: int| 0 <= i < names.len() ==> names[i] != name,
    ensures
        env.bind_all(names, values).lookup(name) == env.lookup(name),
        env.bind_all(names, values).parent == env.parent,
    decreases names.len(),
{
    if names.len() > 0 {
        let before = env.bind_all(names.drop_last(), values.drop_last());
        lemma_bind_all_keeps_others(env, names.drop_last(), values.drop_last(), name);
        lemma_bind_lookup(before, names.last(), values.last(), name);
    }
}

/// A function sees, when it is called, the bindings of the scope that it
/// works in: those of the environment that it has captured, or else those
/// of the environment of the call, however deep that one is. Only its own
/// parameters hide a name.
pub proof fn lemma_call_sees_scope(
    function: ValueView,
    arguments: Seq<ValueView>,
    env: EnvView,
    name: Seq<char>,
)
    requires
        function is Function,
        function->Function_0.len() == arguments.len(),
        forall|i: int| 0 <= i < function->Function_0.len() ==> function->Function_0[i] != name,
    ensures
        call_env(function, arguments, env).lookup(name) == (match function->Function_3 {
            Some(captured) => captured.lookup(name),
            None => env.lookup(name),
        }),
{
    match function->Function_3 {
        Some(captured) => {
            lemma_bind_all_keeps_others(captured, function->Function_0, arguments, name);
        },
        None => {
            lemma_bind_all_keeps_others(env.child(), function->Function_0, arguments, name);
            lemma_child_sees_parent(env, name);
        },
    }
}

/// One instruction writes to the frame in which it runs alone: the frames
/// around it are as they were.
pub proof fn lemma_instruction_writes_locally(
    i: InstructionView,
    env: EnvView,
    out: Seq<ValueView>,
    depth: nat,
)
    ensures
        run_instruction(i, env, out, depth).env.parent == env.parent,
{
}

/// A run of instructions writes to the frame in which it runs alone: the
/// frames around it are as they were. So what a function writes while it
/// runs in a frame of its own never reaches the scope that it was called
/// from or defined in.
pub proof fn lemma_run_writes_locally(
    b: Seq<InstructionView>,
    env: EnvView,
    out: Seq<ValueView>,
    depth: nat,
)
    ensures
        run_instructions(b, env, out, depth).env.parent == env.parent,
    decreases b.len(),
{
    if b.len() > 0 {
        lemma_run_writes_locally(b.drop_last(), env, out, depth);
        let init = run_instructions(b.drop_last(), env, out, depth);
        if init.failure.is_none() {
            lemma_instruction_writes_locally(b.last(), init.env, init.output, depth);
        }
    }
}

/// The values of the literals of a sequence.
pub open spec fn literal_values(es: Seq<ExprView>) -> Seq<ValueView> {
    Seq::new(es.len(), |i: int| es[i]->Literal_0)
}

/// The literals of plain values evaluate to those values, and append
/// nothing to the output.
pub proof fn lemma_plain_elements(
    es: Seq<ExprView>,
    position: Position,
    env: EnvView,
    out: Seq<ValueView>,
    depth: nat,
)
    requires
        forall|i: int| 0 <= i < es.len() ==> (#[trigger] es[i]) is Literal && plain(es[i]->Literal_0),
    ensures
        eval_exprs(es, position, env, out, depth) == done(literal_values(es), out),
    decreases es, 0nat,
{
    if es.len() == 0 {
        assert(literal_values(es) =~= Seq::<ValueView>::empty());
    } else {
        let init = es.drop_last();
        assert forall|i: int| 0 <= i < init.len() implies (#[trigger] init[i]) is Literal && plain(
            init[i]->Literal_0,
        ) by {
            assert(init[i] == es[i]);
        }
        lemma_plain_elements(init, position, env, out, depth);
        let last = es.last();
        assert(last == es[es.len() - 1]);
        lemma_plain_value(last->Literal_0, position, env, out, depth);
        assert(literal_values(init).push(last->Literal_0) =~= literal_values(es));
    }
}

/// Evaluation is idempotent: the literal of a plain value evaluates to that
/// value, in every environment and at every depth, and appends nothing to
/// the output.
pub proof fn lemma_plain_value(
    v: ValueView,
    position: Position,
    env: EnvView,
    out: Seq<ValueView>,
    depth: nat,
)
    requires
        plain(v),
    ensures
        eval_expr(ExprView::Literal(v), position, env, out, depth) == done(v, out),
    decreases v, 1nat,
{
    match v {
        ValueView::Array(elements) => {
            lemma_plain_elements(elements, position, env, out, depth);
            assert(literals(literal_values(elements)) =~= elements);
        },
        _ => {},
    }
}

/// What evaluation gives for an array literal is plain where the values of
/// its elements are.
pub proof fn lemma_literals_plain(values: Seq<ValueView>)
    requires
        forall|i: int| 0 <= i < values.len() ==> plain(#[trigger] values[i]),
    ensures
        plain(ValueView::Array(literals(values))),
{
    assert forall|i: int| 0 <= i < literals(values).len() implies (#[trigger] literals(
        values,
    )[i]) is Literal && plain(literals(values)[i]->Literal_0) by {
        assert(literals(values)[i] == ExprView::Literal(values[i]));
    }
}

/// A number, a string or a Boolean literal compiles, in every scope, to the
/// literal of a plain value.
pub proof fn lemma_primitive_literal(literal: Expression, scope: ScopeView)
    requires
        literal is NumberLiteral || literal is StringLiteral || literal is BooleanLiteral,
    ensures
        lower_expr(literal, scope) is Ok,
        lower_expr(literal, scope)->Ok_0.ir is Literal,
        plain(lower_expr(literal, scope)->Ok_0.ir->Literal_0),
{
}

/// The expression is a number, a string or a Boolean literal.
pub open spec fn primitive(e: Expression) -> bool {
    e is NumberLiteral || e is StringLiteral || e is BooleanLiteral
}

/// The first `n` of a sequence of number, string and Boolean literals
/// compile, in every scope, to literals of plain values.
pub proof fn lemma_primitive_elements(es: Seq<Expression>, n: int, scope: ScopeView)
    requires
        0 <= n <= es.len(),
        forall|i: int| 0 <= i < n ==> primitive(#[trigger] es[i]),
    ensures
        lower_exprs(es, n, scope) is Ok,
        lower_exprs(es, n, scope)->Ok_0.len() == n,
        forall|i: int|
            0 <= i < n ==> (#[trigger] lower_exprs(es, n, scope)->Ok_0[i]).ir is Literal && plain(
                lower_exprs(es, n, scope)->Ok_0[i].ir->Literal_0,
            ),
    decreases n,
{
    if n > 0 {
        lemma_primitive_elements(es, n - 1, scope);
        lemma_primitive_literal(es[n - 1], scope);
        let before = lower_exprs(es, n - 1, scope)->Ok_0;
        let after = lower_exprs(es, n, scope)->Ok_0;
        assert forall|i: int| 0 <= i < n implies (#[trigger] after[i]).ir is Literal && plain(
            after[i].ir->Literal_0,
        ) by {
            if i < n - 1 {
                assert(after[i] == before[i]);
            }
        }
    }
}

/// An array literal of number, string and Boolean literals compiles, in
/// every scope, to the literal of a plain value.
pub proof fn lemma_primitive_array(literal: Expression, scope: ScopeView)
    requires
        literal is ArrayLiteral,
        forall|i: int|
            0 <= i < literal->ArrayLiteral_elements@.len() ==> primitive(
                #[trigger] literal->ArrayLiteral_elements@[i],
            ),
    ensures
        lower_expr(literal, scope) is Ok,
        lower_expr(literal, scope)->Ok_0.ir is Literal,
        plain(lower_expr(literal, scope)->Ok_0.ir->Literal_0),
{
    let elements = literal->ArrayLiteral_elements@;
    lemma_primitive_elements(elements, elements.len() as int, scope);
    let ls = lower_exprs(elements, elements.len() as int, scope)->Ok_0;
    let irs = crate::lowering::lowered_irs(ls);
    assert forall|i: int| 0 <= i < irs.len() implies (#[trigger] irs[i]) is Literal && plain(
        irs[i]->Literal_0,
    ) by {
        assert(irs[i] == ls[i].ir);
    }
}

/// The program that binds a literal to a name and then returns the name.
pub open spec fn binding_program(
    name: String,
    literal: Expression,
    at_let: Position,
    at_use: Position,
) -> Seq<Statement> {
    seq![
        Statement::LetStatement(
            LetStatement { name, data_type: DataType::Auto, value: literal, position: at_let },
        ),
        Statement::ReturnStatement(
            ReturnStatement {
                value: Expression::Identifier { value: name, position: at_use },
                position: at_use,
            },
        ),
    ]
}

/// A literal comes back from a binding: where an expression compiles to
/// the literal of a plain value, the program `let x = L; return x;`
/// compiles to a store and a return, and run from the empty environment it
/// gives that value and appends nothing to the output. Number, string and Boolean literals compile so
/// (`lemma_primitive_literal`), and so do the arrays of such
/// (`lemma_primitive_array`).
pub proof fn lemma_literal_round_trip(
    name: String,
    literal: Expression,
    at_let: Position,
    at_use: Position,
    out: Seq<ValueView>,
    depth: nat,
)
    requires
        lower_expr(literal, ScopeView::empty()) is Ok,
        lower_expr(literal, ScopeView::empty())->Ok_0.ir is Literal,
        plain(lower_expr(literal, ScopeView::empty())->Ok_0.ir->Literal_0),
    ensures
        ({
            let program = binding_program(name, literal, at_let, at_use);
            let compiled = lower_statements(program, 2, start(ScopeView::empty()));
            &&& compiled is Ok
            &&& compiled->Ok_0.instructions == binding_instructions(
                name@,
                lower_expr(literal, ScopeView::empty())->Ok_0.ir->Literal_0,
                at_let,
                at_use,
            )
            &&& run_block(compiled->Ok_0.instructions, EnvView::empty(), out, depth) == done(
                lower_expr(literal, ScopeView::empty())->Ok_0.ir->Literal_0,
                out,
            )
        }),
{
    let program = binding_program(name, literal, at_let, at_use);
    let v = lower_expr(literal, ScopeView::empty())->Ok_0.ir->Literal_0;
    let first = start(ScopeView::empty());
    reveal_with_fuel(lower_statements, 3);
    reveal_with_fuel(lower_expr, 2);
    let compiled = lower_statements(program, 2, first);
    assert(lower_statements(program, 0, first) == Ok::<
        crate::lowering::Lowering,
        crate::error::CompileErrorView,
    >(first));
    let after_let = lower_statements(program, 1, first);
    assert(after_let is Ok);
    assert(compiled is Ok);
    assert(compiled->Ok_0.instructions =~= binding_instructions(name@, v, at_let, at_use));
    lemma_store_then_read(name@, v, at_let, at_use, EnvView::empty(), out, depth);
}

/// The instructions that store a literal under a name and then return the
/// name.
pub open spec fn binding_instructions(
    name: Seq<char>,
    v: ValueView,
    at_store: Position,
    at_return: Position,
) -> Seq<InstructionView> {
    seq![
        InstructionView {
            instruction: InstructionTypeView::StoreName(name, ExprView::Literal(v)),
            position: at_store,
        },
        InstructionView {
            instruction: InstructionTypeView::Return(ExprView::Identifier(name)),
            position: at_return,
        },
    ]
}

/// What is stored is read back: the instructions that store the literal of
/// a plain value under a name and then return the name give that value, in
/// every environment, and append nothing to the output.
pub proof fn lemma_store_then_read(
    name: Seq<char>,
    v: ValueView,
    at_store: Position,
    at_return: Position,
    env: EnvView,
    out: Seq<ValueView>,
    depth: nat,
)
    requires
        plain(v),
    ensures
        run_block(binding_instructions(name, v, at_store, at_return), env, out, depth) == done(
            v,
            out,
        ),
{
    let instructions = binding_instructions(name, v, at_store, at_return);
    let store = instructions[0];
    let give = instructions[1];
    reveal_with_fuel(run_instructions, 3);
    reveal_with_fuel(run_instruction, 2);
    reveal_with_fuel(run_block, 2);
    reveal_with_fuel(block_value, 2);
    reveal_with_fuel(eval_expr, 2);
    lemma_plain_value(v, at_store, env, out, depth);
    assert(instructions.drop_last() =~= seq![store]);
    assert(instructions.drop_last().drop_last() =~= Seq::<InstructionView>::empty());
    assert(instructions.last() == give);
    assert(instructions.drop_last().last() == store);
    assert(run_instructions(instructions.drop_last(), env, out, depth) == (Run {
        env: env.bind(name, v),
        output: out,
        failure: None,
    }));
    lemma_bind_lookup(env, name, v, name);
}

/// The compiler refuses an expression with a type error alone.
pub proof fn lemma_expr_refused_for_types(e: Expression, scope: ScopeView)
    ensures
        lower_expr(e, scope) is Err ==> lower_expr(e, scope)->Err_0 is TypeError,
    decreases e, 0nat,
{
    match e {
        Expression::ArrayLiteral { elements, .. } => {
            lemma_exprs_refused_for_types(elements@, elements@.len() as int, scope);
        },
        Expression::ObjectLiteral { pairs, .. } => {
            lemma_pairs_refused_for_types(pairs@, pairs@.len() as int, scope);
        },
        Expression::FunctionLiteral { parameters, body, .. } => {
            let inner = crate::lowering::declared(
                scope.child(),
                parameters@,
                parameters@.len() as int,
            );
            lemma_statements_refused_for_types(body@, crate::lowering::reached(body@), start(inner));
        },
        Expression::PrefixExpression { right, .. } => {
            lemma_expr_refused_for_types(*right, scope);
        },
        Expression::InfixExpression { left, right, .. } => {
            lemma_expr_refused_for_types(*left, scope);
            lemma_expr_refused_for_types(*right, scope);
        },
        Expression::IfExpression { condition, consequence, alternative, .. } => {
            lemma_expr_refused_for_types(*condition, scope);
            lemma_statements_refused_for_types(
                consequence@,
                consequence@.len() as int,
                start(scope.child()),
            );
            match alternative {
                Some(other) => {
                    lemma_statements_refused_for_types(
                        other@,
                        other@.len() as int,
                        start(scope.child()),
                    );
                },
                None => {},
            }
        },
        Expression::CallExpression { function, arguments, .. } => {
            lemma_exprs_refused_for_types(arguments@, arguments@.len() as int, scope);
            lemma_expr_refused_for_types(*function, scope);
        },
        Expression::IndexExpression { left, index, .. } => {
            lemma_expr_refused_for_types(*left, scope);
            lemma_expr_refused_for_types(*index, scope);
        },
        Expression::BlockExpression { statements, .. } => {
            lemma_statements_refused_for_types(
                statements@,
                statements@.len() as int,
                start(scope.child()),
            );
        },
        _ => {},
    }
}

/// The compiler refuses a sequence of expressions with a type error alone.
pub proof fn lemma_exprs_refused_for_types(es: Seq<Expression>, n: int, scope: ScopeView)
    ensures
        lower_exprs(es, n, scope) is Err ==> lower_exprs(es, n, scope)->Err_0 is TypeError,
    decreases es, n,
{
    if 0 < n <= es.len() {
        lemma_exprs_refused_for_types(es, n - 1, scope);
        lemma_expr_refused_for_types(es[n - 1], scope);
    }
}

/// The compiler refuses the fields of an object literal with a type error
/// alone.
pub proof fn lemma_pairs_refused_for_types(ps: Seq<(String, Expression)>, n: int, scope: ScopeView)
    ensures
        crate::lowering::lower_pairs(ps, n, scope) is Err ==> crate::lowering::lower_pairs(
            ps,
            n,
            scope,
        )->Err_0 is TypeError,
    decreases ps, n,
{
    if 0 < n <= ps.len() {
        lemma_pairs_refused_for_types(ps, n - 1, scope);
        lemma_expr_refused_for_types(ps[n - 1].1, scope);
    }
}

/// The compiler refuses statements with a type error alone: a parse error
/// comes from the parser, never from a statement.
pub proof fn lemma_statements_refused_for_types(
    ss: Seq<Statement>,
    n: int,
    l: crate::lowering::Lowering,
)
    ensures
        lower_statements(ss, n, l) is Err ==> lower_statements(ss, n, l)->Err_0 is TypeError,
    decreases ss, n,
{
    if 0 < n <= ss.len() {
        lemma_statements_refused_for_types(ss, n - 1, l);
        let before = lower_statements(ss, n - 1, l);
        if before is Ok {
            match ss[n - 1] {
                Statement::LetStatement(s) => {
                    lemma_expr_refused_for_types(s.value, before->Ok_0.scope);
                },
                Statement::ReturnStatement(s) => {
                    lemma_expr_refused_for_types(s.value, before->Ok_0.scope);
                },
                Statement::TypeStatement(_) => {},
                Statement::ExpressionStatement(s) => {
                    lemma_expr_refused_for_types(s.expression, before->Ok_0.scope);
                },
            }
        }
    }
}

} // verus!
