//! Where instructions come from: every instruction that the compiler makes
//! carries the position of a statement of the program.

use crate::ast::{Expression, Statement};
use crate::instruction::{ExprView, InstructionTypeView, InstructionView, ValueView};
use crate::lowering::{
    closed, declared, lower_expr, lower_exprs, lower_pairs, lower_statements, lowered_irs,
    pair_irs, reached, start, Lowered, Lowering,
};
use crate::position::Position;
use crate::symbol_table::ScopeView;
use vstd::prelude::*;

verus! {

/// The positions of the statements that stand inside an expression, at any
/// depth.
pub open spec fn expr_positions(e: Expression) -> Set<Position>
    decreases e, 0nat,
{
    match e {
        Expression::Identifier { .. } => Set::empty(),
        Expression::NumberLiteral { .. } => Set::empty(),
        Expression::StringLiteral { .. } => Set::empty(),
        Expression::BooleanLiteral { .. } => Set::empty(),
        Expression::ArrayLiteral { elements, .. } => exprs_positions(
            elements@,
            elements@.len() as int,
        ),
        Expression::ObjectLiteral { pairs, .. } => pairs_positions(pairs@, pairs@.len() as int),
        Expression::FunctionLiteral { body, .. } => statements_positions(
            body@,
            body@.len() as int,
        ),
        Expression::PrefixExpression { right, .. } => expr_positions(*right),
        Expression::InfixExpression { left, right, .. } => expr_positions(*left) + expr_positions(
            *right,
        ),
        Expression::IfExpression { condition, consequence, alternative, .. } => expr_positions(
            *condition,
        ) + statements_positions(consequence@, consequence@.len() as int) + (match alternative {
            Some(other) => statements_positions(other@, other@.len() as int),
            None => Set::empty(),
        }),
        Expression::CallExpression { function, arguments, .. } => expr_positions(*function)
            + exprs_positions(arguments@, arguments@.len() as int),
        Expression::IndexExpression { left, index, .. } => expr_positions(*left) + expr_positions(
            *index,
        ),
        Expression::BlockExpression { statements, .. } => statements_positions(
            statements@,
            statements@.len() as int,
        ),
    }
}

/// The positions of the statements that stand inside the first `n`
/// expressions.
pub open spec fn exprs_positions(es: Seq<Expression>, n: int) -> Set<Position>
    decreases es, n,
{
    if n <= 0 || n > es.len() {
        Set::empty()
    } else {
        exprs_positions(es, n - 1) + expr_positions(es[n - 1])
    }
}

/// The positions of the statements that stand inside the first `n` fields.
pub open spec fn pairs_positions(ps: Seq<(String, Expression)>, n: int) -> Set<Position>
    decreases ps, n,
{
    if n <= 0 || n > ps.len() {
        Set::empty()
    } else {
        pairs_positions(ps, n - 1) + expr_positions(ps[n - 1].1)
    }
}

/// The positions of the first `n` statements and of the statements that
/// stand inside them.
pub open spec fn statements_positions(ss: Seq<Statement>, n: int) -> Set<Position>
    decreases ss, n,
{
    if n <= 0 || n > ss.len() {
        Set::empty()
    } else {
        statements_positions(ss, n - 1).insert(ss[n - 1].spec_position()) + (match ss[n - 1] {
            Statement::LetStatement(s) => expr_positions(s.value),
            Statement::ReturnStatement(s) => expr_positions(s.value),
            Statement::TypeStatement(_) => Set::empty(),
            Statement::ExpressionStatement(s) => expr_positions(s.expression),
        })
    }
}

/// The positions of the instructions that stand inside an expression of the
/// instruction tree, at any depth: in blocks, in the bodies of function
/// literals, in the elements of arrays and in the fields of objects.
pub open spec fn ir_expr_positions(e: ExprView) -> Set<Position>
    decreases e, 0nat,
{
    match e {
        ExprView::Identifier(_) => Set::empty(),
        ExprView::Literal(v) => ir_value_positions(v),
        ExprView::Block(b) => ir_block_positions(b, b.len() as int),
        ExprView::If(c, t, a) => ir_expr_positions(*c) + ir_expr_positions(*t) + (match a {
            Some(x) => ir_expr_positions(*x),
            None => Set::empty(),
        }),
        ExprView::Call(f, arguments) => ir_expr_positions(*f) + ir_exprs_positions(
            arguments,
            arguments.len() as int,
        ),
        ExprView::Index(l, i) => ir_expr_positions(*l) + ir_expr_positions(*i),
        ExprView::Prefix(_, r) => ir_expr_positions(*r),
        ExprView::Infix(_, l, r) => ir_expr_positions(*l) + ir_expr_positions(*r),
    }
}

/// The positions of the instructions that stand inside a literal value.
pub open spec fn ir_value_positions(v: ValueView) -> Set<Position>
    decreases v, 0nat,
{
    match v {
        ValueView::Array(elements) => ir_exprs_positions(elements, elements.len() as int),
        ValueView::Object(pairs) => ir_pairs_positions(pairs, pairs.len() as int),
        ValueView::Function(_, body, _, _, _) => ir_block_positions(body, body.len() as int),
        _ => Set::empty(),
    }
}

/// The positions of the instructions that stand inside the first `n`
/// expressions.
pub open spec fn ir_exprs_positions(es: Seq<ExprView>, n: int) -> Set<Position>
    decreases es, n,
{
    if n <= 0 || n > es.len() {
        Set::empty()
    } else {
        ir_exprs_positions(es, n - 1) + ir_expr_positions(es[n - 1])
    }
}

/// The positions of the instructions that stand inside the first `n`
/// fields.
pub open spec fn ir_pairs_positions(ps: Seq<(Seq<char>, ExprView)>, n: int) -> Set<Position>
    decreases ps, n,
{
    if n <= 0 || n > ps.len() {
        Set::empty()
    } else {
        ir_pairs_positions(ps, n - 1) + ir_expr_positions(ps[n - 1].1)
    }
}

/// The positions of the instructions that stand inside what an instruction
/// does.
pub open spec fn ir_instruction_positions(i: InstructionTypeView) -> Set<Position>
    decreases i, 0nat,
{
    match i {
        InstructionTypeView::StoreName(_, e) => ir_expr_positions(e),
        InstructionTypeView::Return(e) => ir_expr_positions(e),
        InstructionTypeView::Expression(e) => ir_expr_positions(e),
        InstructionTypeView::Nop => Set::empty(),
    }
}

/// The positions of the first `n` instructions and of the instructions that
/// stand inside them.
pub open spec fn ir_block_positions(b: Seq<InstructionView>, n: int) -> Set<Position>
    decreases b, n,
{
    if n <= 0 || n > b.len() {
        Set::empty()
    } else {
        ir_block_positions(b, n - 1).insert(b[n - 1].position) + ir_instruction_positions(
            b[n - 1].instruction,
        )
    }
}

/// The positions of the first `n` instructions depend on those instructions
/// alone.
pub proof fn lemma_block_positions_prefix(a: Seq<InstructionView>, b: Seq<InstructionView>, n: int)
    requires
        0 <= n <= a.len(),
        n <= b.len(),
        forall|i: int| 0 <= i < n ==> a[i] == b[i],
    ensures
        ir_block_positions(a, n) == ir_block_positions(b, n),
    decreases n,
{
    if n > 0 {
        lemma_block_positions_prefix(a, b, n - 1);
    }
}

/// Closing a block changes no position.
pub proof fn lemma_closed_positions(b: Seq<InstructionView>)
    ensures
        ir_block_positions(closed(b), closed(b).len() as int) == ir_block_positions(
            b,
            b.len() as int,
        ),
{
    if b.len() > 0 && b.last().instruction is Expression {
        let c = closed(b);
        let n = b.len() as int;
        lemma_block_positions_prefix(c, b, n - 1);
        reveal_with_fuel(ir_block_positions, 2);
        assert(c[n - 1].position == b[n - 1].position);
        assert(ir_instruction_positions(c[n - 1].instruction) == ir_instruction_positions(
            b[n - 1].instruction,
        ));
    }
}

/// More statements have more positions.
pub proof fn lemma_statements_positions_grow(ss: Seq<Statement>, k: int, n: int)
    requires
        0 <= k <= n <= ss.len(),
    ensures
        statements_positions(ss, k).subset_of(statements_positions(ss, n)),
    decreases n - k,
{
    if k < n {
        lemma_statements_positions_grow(ss, k, n - 1);
    }
}

/// How many statements of a body are compiled is at most their number.
pub proof fn lemma_reached_bounds(ss: Seq<Statement>)
    ensures
        0 <= reached(ss) <= ss.len(),
{
    lemma_first_return_bounds(ss, 0);
}

/// The index of the first return statement lies in the sequence.
pub proof fn lemma_first_return_bounds(ss: Seq<Statement>, from: int)
    requires
        0 <= from,
    ensures
        match crate::lowering::first_return(ss, from) {
            Some(i) => from <= i < ss.len(),
            None => true,
        },
    decreases ss.len() - from,
{
    if from < ss.len() && !(ss[from] is ReturnStatement) {
        lemma_first_return_bounds(ss, from + 1);
    }
}

/// The instructions inside a compiled expression carry positions of
/// statements inside the expression.
pub proof fn lemma_expr_positions(e: Expression, scope: ScopeView)
    requires
        lower_expr(e, scope) is Ok,
    ensures
        ir_expr_positions(lower_expr(e, scope)->Ok_0.ir).subset_of(expr_positions(e)),
    decreases e, 0nat,
{
    reveal_with_fuel(ir_expr_positions, 3);
    match e {
        Expression::ArrayLiteral { elements, .. } => {
            lemma_exprs_positions(elements@, elements@.len() as int, scope);
        },
        Expression::ObjectLiteral { pairs, .. } => {
            lemma_pairs_positions(pairs@, pairs@.len() as int, scope);
        },
        Expression::FunctionLiteral { parameters, body, .. } => {
            let inner = declared(scope.child(), parameters@, parameters@.len() as int);
            lemma_reached_bounds(body@);
            lemma_block_lowered_positions(body@, reached(body@), inner);
            lemma_statements_positions_grow(body@, reached(body@), body@.len() as int);
        },
        Expression::PrefixExpression { right, .. } => {
            lemma_expr_positions(*right, scope);
        },
        Expression::InfixExpression { left, right, .. } => {
            lemma_expr_positions(*left, scope);
            lemma_expr_positions(*right, scope);
        },
        Expression::IfExpression { condition, consequence, alternative, .. } => {
            lemma_expr_positions(*condition, scope);
            lemma_block_lowered_positions(consequence@, consequence@.len() as int, scope.child());
            match alternative {
                Some(other) => {
                    lemma_block_lowered_positions(other@, other@.len() as int, scope.child());
                },
                None => {},
            }
        },
        Expression::CallExpression { function, arguments, .. } => {
            lemma_exprs_positions(arguments@, arguments@.len() as int, scope);
            lemma_expr_positions(*function, scope);
        },
        Expression::IndexExpression { left, index, .. } => {
            lemma_expr_positions(*left, scope);
            lemma_expr_positions(*index, scope);
        },
        Expression::BlockExpression { statements, .. } => {
            lemma_block_lowered_positions(statements@, statements@.len() as int, scope.child());
        },
        _ => {},
    }
}

/// The instructions inside compiled expressions carry positions of
/// statements inside the expressions.
pub proof fn lemma_exprs_positions(es: Seq<Expression>, n: int, scope: ScopeView)
    requires
        0 <= n <= es.len(),
        lower_exprs(es, n, scope) is Ok,
    ensures
        lower_exprs(es, n, scope)->Ok_0.len() == n,
        ir_exprs_positions(lowered_irs(lower_exprs(es, n, scope)->Ok_0), n).subset_of(
            exprs_positions(es, n),
        ),
    decreases es, n,
{
    if n > 0 {
        lemma_exprs_positions(es, n - 1, scope);
        lemma_expr_positions(es[n - 1], scope);
        let before = lowered_irs(lower_exprs(es, n - 1, scope)->Ok_0);
        let after = lowered_irs(lower_exprs(es, n, scope)->Ok_0);
        lemma_ir_exprs_prefix(after, before, n - 1);
    }
}

/// The positions inside the first `n` expressions depend on those
/// expressions alone.
pub proof fn lemma_ir_exprs_prefix(a: Seq<ExprView>, b: Seq<ExprView>, n: int)
    requires
        0 <= n <= a.len(),
        n <= b.len(),
        forall|i: int| 0 <= i < n ==> a[i] == b[i],
    ensures
        ir_exprs_positions(a, n) == ir_exprs_positions(b, n),
    decreases n,
{
    if n > 0 {
        lemma_ir_exprs_prefix(a, b, n - 1);
    }
}

/// The positions inside the first `n` fields depend on those fields alone.
pub proof fn lemma_ir_pairs_prefix(a: Seq<(Seq<char>, ExprView)>, b: Seq<(Seq<char>, ExprView)>, n: int)
    requires
        0 <= n <= a.len(),
        n <= b.len(),
        forall|i: int| 0 <= i < n ==> a[i] == b[i],
    ensures
        ir_pairs_positions(a, n) == ir_pairs_positions(b, n),
    decreases n,
{
    if n > 0 {
        lemma_ir_pairs_prefix(a, b, n - 1);
    }
}

/// The instructions inside compiled fields carry positions of statements
/// inside the fields.
pub proof fn lemma_pairs_positions(ps: Seq<(String, Expression)>, n: int, scope: ScopeView)
    requires
        0 <= n <= ps.len(),
        lower_pairs(ps, n, scope) is Ok,
    ensures
        lower_pairs(ps, n, scope)->Ok_0.len() == n,
        ir_pairs_positions(pair_irs(lower_pairs(ps, n, scope)->Ok_0), n).subset_of(
            pairs_positions(ps, n),
        ),
    decreases ps, n,
{
    if n > 0 {
        lemma_pairs_positions(ps, n - 1, scope);
        lemma_expr_positions(ps[n - 1].1, scope);
        let before = pair_irs(lower_pairs(ps, n - 1, scope)->Ok_0);
        let after = pair_irs(lower_pairs(ps, n, scope)->Ok_0);
        lemma_ir_pairs_prefix(after, before, n - 1);
    }
}

/// The instructions of a compiled block, closed, carry positions of its
/// statements.
pub proof fn lemma_block_lowered_positions(ss: Seq<Statement>, n: int, scope: ScopeView)
    requires
        0 <= n <= ss.len(),
        lower_statements(ss, n, start(scope)) is Ok,
    ensures
        ({
            let instructions = closed(lower_statements(ss, n, start(scope))->Ok_0.instructions);
            ir_block_positions(instructions, instructions.len() as int).subset_of(
                statements_positions(ss, n),
            )
        }),
    decreases ss, n, 1nat,
{
    lemma_statements_lowered_positions(ss, n, start(scope));
    lemma_closed_positions(lower_statements(ss, n, start(scope))->Ok_0.instructions);
}

/// The instructions that the first `n` statements add carry positions of
/// those statements.
pub proof fn lemma_statements_lowered_positions(ss: Seq<Statement>, n: int, l: Lowering)
    requires
        0 <= n <= ss.len(),
        lower_statements(ss, n, l) is Ok,
    ensures
        ({
            let after = lower_statements(ss, n, l)->Ok_0.instructions;
            ir_block_positions(after, after.len() as int).subset_of(
                ir_block_positions(l.instructions, l.instructions.len() as int)
                    + statements_positions(ss, n),
            )
        }),
    decreases ss, n, 0nat,
{
    if n > 0 {
        lemma_statements_lowered_positions(ss, n - 1, l);
        let before = lower_statements(ss, n - 1, l)->Ok_0;
        let after = lower_statements(ss, n, l)->Ok_0;
        match ss[n - 1] {
            Statement::LetStatement(s) => {
                lemma_expr_positions(s.value, before.scope);
            },
            Statement::ReturnStatement(s) => {
                lemma_expr_positions(s.value, before.scope);
            },
            Statement::TypeStatement(_) => {},
            Statement::ExpressionStatement(s) => {
                lemma_expr_positions(s.expression, before.scope);
            },
        }
        if !(ss[n - 1] is TypeStatement) {
            let m = before.instructions.len() as int;
            assert(after.instructions.len() == m + 1);
            lemma_block_positions_prefix(after.instructions, before.instructions, m);
            reveal_with_fuel(ir_block_positions, 2);
        }
    }
}

/// Every instruction of a compiled program, at any depth, carries the
/// position of a statement of the program.
pub proof fn lemma_positions_from_source(program: Seq<Statement>)
    requires
        lower_statements(program, program.len() as int, start(ScopeView::empty())) is Ok,
    ensures
        ({
            let instructions = lower_statements(
                program,
                program.len() as int,
                start(ScopeView::empty()),
            )->Ok_0.instructions;
            forall|p: Position|
                ir_block_positions(instructions, instructions.len() as int).contains(p)
                    ==> statements_positions(program, program.len() as int).contains(p)
        }),
{
    lemma_statements_lowered_positions(program, program.len() as int, start(ScopeView::empty()));
}

} // verus!
