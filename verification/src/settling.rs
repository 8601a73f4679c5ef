//! No placeholder in the instruction tree: the type that a compiled
//! function literal declares for its result is resolved.

use crate::ast::{Expression, Statement};
use crate::instruction::{ExprView, InstructionTypeView, InstructionView, ValueView};
use crate::lowering::{
    closed, declared, lower_expr, lower_exprs, lower_pairs, lower_statements, lowered_irs,
    pair_irs, reached, start, Lowering,
};
use crate::positions::lemma_reached_bounds;
use crate::symbol_table::ScopeView;
use crate::types::resolved;
use vstd::prelude::*;

verus! {

/// Every function literal inside the expression, at any depth, declares a
/// resolved result type.
pub open spec fn expr_settled(e: ExprView) -> bool
    decreases e, 0nat,
{
    match e {
        ExprView::Identifier(_) => true,
        ExprView::Literal(v) => value_settled(v),
        ExprView::Block(b) => block_settled(b, b.len() as int),
        ExprView::If(c, t, a) => expr_settled(*c) && expr_settled(*t) && (match a {
            Some(x) => expr_settled(*x),
            None => true,
        }),
        ExprView::Call(f, arguments) => expr_settled(*f) && exprs_settled(
            arguments,
            arguments.len() as int,
        ),
        ExprView::Index(l, i) => expr_settled(*l) && expr_settled(*i),
        ExprView::Prefix(_, r) => expr_settled(*r),
        ExprView::Infix(_, l, r) => expr_settled(*l) && expr_settled(*r),
    }
}

/// Every function literal inside the value, the value itself included,
/// declares a resolved result type.
pub open spec fn value_settled(v: ValueView) -> bool
    decreases v, 0nat,
{
    match v {
        ValueView::Array(elements) => exprs_settled(elements, elements.len() as int),
        ValueView::Object(pairs) => pairs_settled(pairs, pairs.len() as int),
        ValueView::Function(_, body, result, _, _) => resolved(result) && block_settled(
            body,
            body.len() as int,
        ),
        _ => true,
    }
}

/// Each of the first `n` expressions is settled.
pub open spec fn exprs_settled(es: Seq<ExprView>, n: int) -> bool
    decreases es, n,
{
    if n <= 0 || n > es.len() {
        true
    } else {
        exprs_settled(es, n - 1) && expr_settled(es[n - 1])
    }
}

/// Each of the first `n` fields is settled.
pub open spec fn pairs_settled(ps: Seq<(Seq<char>, ExprView)>, n: int) -> bool
    decreases ps, n,
{
    if n <= 0 || n > ps.len() {
        true
    } else {
        pairs_settled(ps, n - 1) && expr_settled(ps[n - 1].1)
    }
}

/// The expression of the instruction, if it has one, is settled.
pub open spec fn instruction_settled(i: InstructionTypeView) -> bool
    decreases i, 0nat,
{
    match i {
        InstructionTypeView::StoreName(_, e) => expr_settled(e),
        InstructionTypeView::Return(e) => expr_settled(e),
        InstructionTypeView::Expression(e) => expr_settled(e),
        InstructionTypeView::Nop => true,
    }
}

/// Each of the first `n` instructions is settled.
pub open spec fn block_settled(b: Seq<InstructionView>, n: int) -> bool
    decreases b, n,
{
    if n <= 0 || n > b.len() {
        true
    } else {
        block_settled(b, n - 1) && instruction_settled(b[n - 1].instruction)
    }
}

/// Whether the first `n` instructions are settled depends on those
/// instructions alone.
pub proof fn lemma_block_settled_prefix(a: Seq<InstructionView>, b: Seq<InstructionView>, n: int)
    requires
        0 <= n <= a.len(),
        n <= b.len(),
        forall|i: int| 0 <= i < n ==> a[i] == b[i],
    ensures
        block_settled(a, n) == block_settled(b, n),
    decreases n,
{
    if n > 0 {
        lemma_block_settled_prefix(a, b, n - 1);
    }
}

/// Whether the first `n` expressions are settled depends on those
/// expressions alone.
pub proof fn lemma_exprs_settled_prefix(a: Seq<ExprView>, b: Seq<ExprView>, n: int)
    requires
        0 <= n <= a.len(),
        n <= b.len(),
        forall|i: int| 0 <= i < n ==> a[i] == b[i],
    ensures
        exprs_settled(a, n) == exprs_settled(b, n),
    decreases n,
{
    if n > 0 {
        lemma_exprs_settled_prefix(a, b, n - 1);
    }
}

/// Whether the first `n` fields are settled depends on those fields alone.
pub proof fn lemma_pairs_settled_prefix(
    a: Seq<(Seq<char>, ExprView)>,
    b: Seq<(Seq<char>, ExprView)>,
    n: int,
)
    requires
        0 <= n <= a.len(),
        n <= b.len(),
        forall|i: int| 0 <= i < n ==> a[i] == b[i],
    ensures
        pairs_settled(a, n) == pairs_settled(b, n),
    decreases n,
{
    if n > 0 {
        lemma_pairs_settled_prefix(a, b, n - 1);
    }
}

/// Closing a settled block leaves it settled.
pub proof fn lemma_closed_settled(b: Seq<InstructionView>)
    requires
        block_settled(b, b.len() as int),
    ensures
        block_settled(closed(b), closed(b).len() as int),
{
    if b.len() > 0 && b.last().instruction is Expression {
        let c = closed(b);
        let n = b.len() as int;
        lemma_block_settled_prefix(c, b, n - 1);
        reveal_with_fuel(block_settled, 2);
    }
}

/// A compiled expression is settled.
pub proof fn lemma_expr_settled(e: Expression, scope: ScopeView)
    requires
        lower_expr(e, scope) is Ok,
    ensures
        expr_settled(lower_expr(e, scope)->Ok_0.ir),
    decreases e, 0nat,
{
    reveal_with_fuel(expr_settled, 3);
    match e {
        Expression::ArrayLiteral { elements, .. } => {
            lemma_exprs_settled(elements@, elements@.len() as int, scope);
        },
        Expression::ObjectLiteral { pairs, .. } => {
            lemma_pairs_settled(pairs@, pairs@.len() as int, scope);
        },
        Expression::FunctionLiteral { parameters, return_type, body, .. } => {
            let inner = declared(scope.child(), parameters@, parameters@.len() as int);
            lemma_reached_bounds(body@);
            lemma_block_lowered_settled(body@, reached(body@), inner);
        },
        Expression::PrefixExpression { right, .. } => {
            lemma_expr_settled(*right, scope);
        },
        Expression::InfixExpression { left, right, .. } => {
            lemma_expr_settled(*left, scope);
            lemma_expr_settled(*right, scope);
        },
        Expression::IfExpression { condition, consequence, alternative, .. } => {
            lemma_expr_settled(*condition, scope);
            lemma_block_lowered_settled(consequence@, consequence@.len() as int, scope.child());
            match alternative {
                Some(other) => {
                    lemma_block_lowered_settled(other@, other@.len() as int, scope.child());
                },
                None => {},
            }
        },
        Expression::CallExpression { function, arguments, .. } => {
            lemma_exprs_settled(arguments@, arguments@.len() as int, scope);
            lemma_expr_settled(*function, scope);
        },
        Expression::IndexExpression { left, index, .. } => {
            lemma_expr_settled(*left, scope);
            lemma_expr_settled(*index, scope);
        },
        Expression::BlockExpression { statements, .. } => {
            lemma_block_lowered_settled(statements@, statements@.len() as int, scope.child());
        },
        _ => {},
    }
}

/// Compiled expressions are settled.
pub proof fn lemma_exprs_settled(es: Seq<Expression>, n: int, scope: ScopeView)
    requires
        0 <= n <= es.len(),
        lower_exprs(es, n, scope) is Ok,
    ensures
        lower_exprs(es, n, scope)->Ok_0.len() == n,
        exprs_settled(lowered_irs(lower_exprs(es, n, scope)->Ok_0), n),
    decreases es, n,
{
    if n > 0 {
        lemma_exprs_settled(es, n - 1, scope);
        lemma_expr_settled(es[n - 1], scope);
        let before = lowered_irs(lower_exprs(es, n - 1, scope)->Ok_0);
        let after = lowered_irs(lower_exprs(es, n, scope)->Ok_0);
        lemma_exprs_settled_prefix(after, before, n - 1);
    }
}

/// Compiled fields are settled.
pub proof fn lemma_pairs_settled(ps: Seq<(String, Expression)>, n: int, scope: ScopeView)
    requires
        0 <= n <= ps.len(),
        lower_pairs(ps, n, scope) is Ok,
    ensures
        lower_pairs(ps, n, scope)->Ok_0.len() == n,
        pairs_settled(pair_irs(lower_pairs(ps, n, scope)->Ok_0), n),
    decreases ps, n,
{
    if n > 0 {
        lemma_pairs_settled(ps, n - 1, scope);
        lemma_expr_settled(ps[n - 1].1, scope);
        let before = pair_irs(lower_pairs(ps, n - 1, scope)->Ok_0);
        let after = pair_irs(lower_pairs(ps, n, scope)->Ok_0);
        lemma_pairs_settled_prefix(after, before, n - 1);
    }
}

/// The instructions of a compiled block, closed, are settled.
pub proof fn lemma_block_lowered_settled(ss: Seq<Statement>, n: int, scope: ScopeView)
    requires
        0 <= n <= ss.len(),
        lower_statements(ss, n, start(scope)) is Ok,
    ensures
        ({
            let instructions = closed(lower_statements(ss, n, start(scope))->Ok_0.instructions);
            block_settled(instructions, instructions.len() as int)
        }),
    decreases ss, n, 1nat,
{
    lemma_statements_lowered_settled(ss, n, start(scope));
    lemma_closed_settled(lower_statements(ss, n, start(scope))->Ok_0.instructions);
}

/// Statements add settled instructions to settled instructions.
pub proof fn lemma_statements_lowered_settled(ss: Seq<Statement>, n: int, l: Lowering)
    requires
        0 <= n <= ss.len(),
        lower_statements(ss, n, l) is Ok,
        block_settled(l.instructions, l.instructions.len() as int),
    ensures
        ({
            let after = lower_statements(ss, n, l)->Ok_0.instructions;
            block_settled(after, after.len() as int)
        }),
    decreases ss, n, 0nat,
{
    if n > 0 {
        lemma_statements_lowered_settled(ss, n - 1, l);
        let before = lower_statements(ss, n - 1, l)->Ok_0;
        let after = lower_statements(ss, n, l)->Ok_0;
        match ss[n - 1] {
            Statement::LetStatement(s) => {
                lemma_expr_settled(s.value, before.scope);
            },
            Statement::ReturnStatement(s) => {
                lemma_expr_settled(s.value, before.scope);
            },
            Statement::TypeStatement(_) => {},
            Statement::ExpressionStatement(s) => {
                lemma_expr_settled(s.expression, before.scope);
            },
        }
        if !(ss[n - 1] is TypeStatement) {
            let m = before.instructions.len() as int;
            assert(after.instructions.len() == m + 1);
            lemma_block_settled_prefix(after.instructions, before.instructions, m);
            reveal_with_fuel(block_settled, 2);
        }
    }
}

/// `Auto` does not leave the compiler as a type to infer: every function
/// literal of a compiled program, at any depth, declares a resolved result
/// type. A function whose result cannot be inferred in full, and is not
/// declared, is refused.
pub proof fn lemma_no_auto_in_program(program: Seq<Statement>)
    requires
        lower_statements(program, program.len() as int, start(ScopeView::empty())) is Ok,
    ensures
        ({
            let instructions = lower_statements(
                program,
                program.len() as int,
                start(ScopeView::empty()),
            )->Ok_0.instructions;
            block_settled(instructions, instructions.len() as int)
        }),
{
    lemma_statements_lowered_settled(program, program.len() as int, start(ScopeView::empty()));
}

} // verus!
