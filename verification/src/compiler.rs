//! The compiler: it lowers a syntax tree to the instruction tree and checks
//! types on the way, and computes what `lowering` defines.

use crate::ast::{
    Expression, LetStatement, Parameter, Program, ReturnStatement, Statement, TypeStatement,
};
use crate::instruction::{clone_block, EnvView};
use crate::interpreter::DEFAULT_DEPTH;
use crate::error::{parsing_errors_view, CompileError, CompileErrorView, TypeError};
use crate::instruction::{
    block_view, exprs_view, group_views, names_view, pairs_view, Instruction, InstructionType,
    IrExpression, LiteralValue,
};
use crate::interpreter::IrInterpreter;
use crate::lowering::{
    array_type, block_type, bound_type, call_type, closed, declared, first_mismatch,
    first_return, index_type, infix_type, lower_checked, lower_expr, lower_exprs, lower_pairs,
    lower_statement, lower_statements, lowered_irs, lowered_types, mismatch, pair_irs,
    pair_types, parameter_names, parameter_types, prefix_type, reached, start, Lowered, Lowering,
};
use crate::position::Position;
use crate::symbol_table::{ScopeView, SymbolEntry, SymbolTable};
use crate::token::TokenKind;
use crate::types::{data_types_view, fields_view, DataType, TypeView};
use vstd::prelude::*;

verus! {

broadcast use group_views;

/// The instructions that the compiler has made.
#[derive(Debug)]
pub struct Code(pub Vec<Instruction>);

impl Code {
    /// No instructions.
    fn new() -> (r: Self)
        ensures
            r.0@ == Seq::<Instruction>::empty(),
    {
        Self(Vec::new())
    }

    /// Appends a copy of the instruction.
    fn push_instruction(&mut self, instruction: &Instruction)
        ensures
            block_view(final(self).0@) == block_view(old(self).0@).push(instruction@),
    {
        self.0.push(instruction.clone());
        assert(block_view(self.0@) =~= block_view(old(self).0@).push(instruction@));
    }
}

pub type CompileResult<T> = Result<T, CompileError>;

/// The views of registered type aliases, in order.
pub open spec fn aliases_view(aliases: Seq<(String, DataType)>) -> Seq<(Seq<char>, TypeView)> {
    fields_view(aliases)
}

/// The state of a compilation as `lowering` speaks of it.
pub open spec fn state_view(
    code: Seq<Instruction>,
    scope: SymbolTable,
    aliases: Seq<(String, DataType)>,
    last: DataType,
) -> Lowering {
    Lowering {
        instructions: block_view(code),
        scope: scope@,
        aliases: aliases_view(aliases),
        last: last@,
    }
}

/// The view of a compiled expression with its type.
pub open spec fn lowered_view(r: Result<(IrExpression, DataType), CompileError>) -> Result<
    Lowered,
    CompileErrorView,
> {
    match r {
        Ok((ir, data_type)) => Ok(Lowered { ir: ir@, data_type: data_type@ }),
        Err(x) => Err(x@),
    }
}

/// Once the compilation of a prefix was refused, that of the whole sequence
/// is refused in the same way.
pub proof fn lemma_lower_exprs_refused(es: Seq<Expression>, k: int, n: int, scope: ScopeView)
    requires
        0 <= k <= n <= es.len(),
        lower_exprs(es, k, scope) is Err,
    ensures
        lower_exprs(es, n, scope) == lower_exprs(es, k, scope),
    decreases n - k,
{
    if k < n {
        lemma_lower_exprs_refused(es, k, n - 1, scope);
    }
}

/// Once the compilation of a prefix was refused, that of the whole sequence
/// is refused in the same way.
pub proof fn lemma_lower_pairs_refused(ps: Seq<(String, Expression)>, k: int, n: int, scope: ScopeView)
    requires
        0 <= k <= n <= ps.len(),
        lower_pairs(ps, k, scope) is Err,
    ensures
        lower_pairs(ps, n, scope) == lower_pairs(ps, k, scope),
    decreases n - k,
{
    if k < n {
        lemma_lower_pairs_refused(ps, k, n - 1, scope);
    }
}

/// Once the compilation of a prefix was refused, that of the whole sequence
/// is refused in the same way.
pub proof fn lemma_lower_statements_refused(ss: Seq<Statement>, k: int, n: int, l: Lowering)
    requires
        0 <= k <= n <= ss.len(),
        lower_statements(ss, k, l) is Err,
    ensures
        lower_statements(ss, n, l) == lower_statements(ss, k, l),
    decreases n - k,
{
    if k < n {
        lemma_lower_statements_refused(ss, k, n - 1, l);
    }
}

/// The error for `found` where `expected` is wanted, if the two are not
/// equal.
pub fn check(expected: &DataType, found: &DataType) -> (r: Option<TypeError>)
    ensures
        match r {
            Some(x) => mismatch(expected@, found@) == Some(x@),
            None => mismatch(expected@, found@).is_none(),
        },
{
    if expected.equals(found) {
        None
    } else {
        Some(TypeError::ExpectedDataType(expected.clone(), found.clone()))
    }
}

/// The view of a type or a type error.
pub open spec fn typed_view(r: Result<DataType, TypeError>) -> Result<TypeView, crate::error::TypeErrorView> {
    match r {
        Ok(t) => Ok(t@),
        Err(x) => Err(x@),
    }
}

/// The type of a prefix operator on an operand of type `t`.
pub fn type_of_prefix(op: TokenKind, t: &DataType) -> (r: Result<DataType, TypeError>)
    ensures
        typed_view(r) == prefix_type(op, t@),
{
    match op {
        TokenKind::Minus => match check(&DataType::Number, t) {
            Some(x) => Err(x),
            None => Ok(DataType::Number),
        },
        TokenKind::Bang => match check(&DataType::Boolean, t) {
            Some(x) => Err(x),
            None => Ok(DataType::Boolean),
        },
        _ => {
            let mut operands: Vec<DataType> = Vec::new();
            operands.push(t.clone());
            assert(data_types_view(operands@) =~= seq![t@]);
            Err(TypeError::InvalidOperator(op, operands))
        },
    }
}

/// The type of an infix operator on operands of types `l` and `r`.
pub fn type_of_infix(op: TokenKind, l: &DataType, r: &DataType) -> (res: Result<DataType, TypeError>)
    ensures
        typed_view(res) == infix_type(op, l@, r@),
{
    let either_string = match (l, r) {
        (DataType::String, _) => true,
        (_, DataType::String) => true,
        _ => false,
    };
    if op == TokenKind::Plus && either_string {
        match check(&DataType::String, l) {
            Some(x) => Err(x),
            None => match check(&DataType::String, r) {
                Some(x) => Err(x),
                None => Ok(DataType::String),
            },
        }
    } else if op.arithmetic() {
        match check(&DataType::Number, l) {
            Some(x) => Err(x),
            None => match check(&DataType::Number, r) {
                Some(x) => Err(x),
                None => Ok(DataType::Number),
            },
        }
    } else if op.comparison() {
        match check(l, r) {
            Some(x) => Err(x),
            None => Ok(DataType::Boolean),
        }
    } else {
        let mut operands: Vec<DataType> = Vec::new();
        operands.push(l.clone());
        operands.push(r.clone());
        assert(data_types_view(operands@) =~= seq![l@, r@]);
        Err(TypeError::InvalidOperator(op, operands))
    }
}

/// The type of the elements of what is indexed.
pub fn type_of_index(left: &DataType, index: &DataType) -> (r: Result<DataType, TypeError>)
    ensures
        typed_view(r) == index_type(left@, index@),
{
    match left {
        DataType::Array(element) => match check(&DataType::Number, index) {
            Some(x) => Err(x),
            None => Ok((&**element).clone()),
        },
        DataType::Auto => match check(&DataType::Number, index) {
            Some(x) => Err(x),
            None => Ok(DataType::Auto),
        },
        other => {
            let wanted = DataType::Array(Box::new(DataType::Auto));
            assert(wanted@ == TypeView::Array(Box::new(TypeView::Auto))) by {
                reveal_with_fuel(crate::types::data_type_view, 2);
            }
            Err(TypeError::ExpectedDataType(wanted, other.clone()))
        },
    }
}

/// The view of the type of a call, or of its error with the index of the
/// argument that raised it.
pub open spec fn call_typed_view(r: Result<DataType, (TypeError, Option<usize>)>) -> Result<
    TypeView,
    (crate::error::TypeErrorView, Option<int>),
> {
    match r {
        Ok(t) => Ok(t@),
        Err((x, Some(i))) => Err((x@, Some(i as int))),
        Err((x, None)) => Err((x@, None)),
    }
}

/// The type of a call of a value of type `callee` with arguments of the
/// types `arguments`.
pub fn type_of_call(callee: &DataType, arguments: &Vec<DataType>) -> (r: Result<
    DataType,
    (TypeError, Option<usize>),
>)
    ensures
        call_typed_view(r) == call_type(callee@, data_types_view(arguments@)),
        match r {
            Err((_, Some(i))) => i < arguments.len(),
            _ => true,
        },
{
    match callee {
        DataType::Auto => Ok(DataType::Auto),
        DataType::Function(parameters, result) => {
            let ghost ps = data_types_view(parameters@);
            let ghost ts = data_types_view(arguments@);
            assert(callee@->Function_0 =~= ps);
            if parameters.len() != arguments.len() {
                return Err((TypeError::ArityMismatch(parameters.len(), arguments.len()), None));
            }
            let mut i: usize = 0;
            while i < parameters.len()
                invariant
                    i <= parameters.len(),
                    parameters.len() == arguments.len(),
                    ps == data_types_view(parameters@),
                    ts == data_types_view(arguments@),
                    callee@ is Function,
                    callee@->Function_0 == ps,
                    first_mismatch(ps, ts, 0) == first_mismatch(ps, ts, i as int),
                decreases parameters.len() - i,
            {
                if !parameters[i].equals(&arguments[i]) {
                    return Err(
                        (
                            TypeError::ExpectedDataType(
                                parameters[i].clone(),
                                arguments[i].clone(),
                            ),
                            Some(i),
                        ),
                    );
                }
                i += 1;
            }
            Ok((&**result).clone())
        },
        other => Err((TypeError::NotCallable(other.clone()), None)),
    }
}

/// Replaces a last instruction that is an expression by the return of that
/// expression.
pub fn close(instructions: &mut Vec<Instruction>)
    ensures
        block_view(final(instructions)@) == closed(block_view(old(instructions)@)),
{
    let n = instructions.len();
    if n == 0 {
        return ;
    }
    let is_expression = match &instructions[n - 1].instruction {
        InstructionType::Expression(_) => true,
        _ => false,
    };
    if is_expression {
        let ghost before = block_view(instructions@);
        match instructions.pop() {
            Some(Instruction { instruction: InstructionType::Expression(e), position }) => {
                instructions.push(Instruction { instruction: InstructionType::Return(e), position });
                assert(block_view(instructions@) =~= closed(before));
            },
            _ => {
                assert(false);
            },
        }
    }
}

/// The type of the block whose instructions are `instructions`, where the
/// expression of the last one has the type `last`.
pub fn type_of_block(instructions: &Vec<Instruction>, last: &DataType) -> (r: DataType)
    ensures
        r@ == block_type(
            Lowering {
                instructions: block_view(instructions@),
                scope: ScopeView::empty(),
                aliases: Seq::empty(),
                last: last@,
            },
        ),
{
    let n = instructions.len();
    if n == 0 {
        return DataType::Void;
    }
    match &instructions[n - 1].instruction {
        InstructionType::Expression(_) => last.clone(),
        InstructionType::Return(_) => last.clone(),
        _ => DataType::Void,
    }
}

/// The parameters as the instruction tree holds them: name and kind.
pub fn names_of(parameters: &Vec<Parameter>) -> (r: Vec<crate::instruction::Parameter>)
    ensures
        names_view(r@) == parameter_names(parameters@),
        crate::instruction::kinds_view(r@) == crate::lowering::parameter_kinds(parameters@),
{
    let mut out: Vec<crate::instruction::Parameter> = Vec::new();
    let mut i: usize = 0;
    while i < parameters.len()
        invariant
            i <= parameters.len(),
            out@.len() == i,
            forall|j: int|
                0 <= j < i ==> (#[trigger] out@[j]).name@ == parameters@[j].name@ && out@[j].kind
                    == parameters@[j].kind,
        decreases parameters.len() - i,
    {
        out.push(
            crate::instruction::Parameter {
                name: parameters[i].name.clone(),
                kind: parameters[i].kind,
            },
        );
        i += 1;
    }
    assert(names_view(out@) =~= parameter_names(parameters@));
    assert(crate::instruction::kinds_view(out@) =~= crate::lowering::parameter_kinds(parameters@));
    out
}

/// The annotated types of the parameters, in order.
pub fn types_of(parameters: &Vec<Parameter>) -> (r: Vec<DataType>)
    ensures
        data_types_view(r@) == parameter_types(parameters@),
{
    let mut out: Vec<DataType> = Vec::new();
    let mut i: usize = 0;
    while i < parameters.len()
        invariant
            i <= parameters.len(),
            out@.len() == i,
            forall|j: int| 0 <= j < i ==> (#[trigger] out@[j])@ == parameters@[j].data_type@,
        decreases parameters.len() - i,
    {
        out.push(parameters[i].data_type.clone());
        i += 1;
    }
    assert(data_types_view(out@) =~= parameter_types(parameters@));
    out
}

/// A frame inside a copy of `scope` in which the parameters are declared.
pub fn scope_of(scope: &SymbolTable, parameters: &Vec<Parameter>) -> (r: SymbolTable)
    ensures
        r@ == declared(scope@.child(), parameters@, parameters@.len() as int),
{
    let mut inner = SymbolTable::new(Some(scope.clone()));
    let mut i: usize = 0;
    while i < parameters.len()
        invariant
            i <= parameters.len(),
            inner@ == declared(scope@.child(), parameters@, i as int),
        decreases parameters.len() - i,
    {
        let parameter = &parameters[i];
        inner.insert(parameter.name.as_str(), SymbolEntry::of(parameter.data_type.clone()));
        i += 1;
    }
    inner
}

/// How many statements of the body of a function are compiled.
pub fn reach(statements: &Vec<Statement>) -> (n: usize)
    ensures
        n == reached(statements@),
        n <= statements.len(),
{
    let mut i: usize = 0;
    while i < statements.len()
        invariant
            i <= statements.len(),
            first_return(statements@, 0) == first_return(statements@, i as int),
        decreases statements.len() - i,
    {
        match &statements[i] {
            Statement::ReturnStatement(_) => {
                return i + 1;
            },
            _ => {},
        }
        i += 1;
    }
    statements.len()
}

/// Compiles the expressions from left to right, and gives the instruction
/// trees and the types, each in order.
pub fn lower_all(es: &Vec<Expression>, scope: &SymbolTable) -> (r: Result<
    (Vec<IrExpression>, Vec<DataType>),
    CompileError,
>)
    ensures
        match r {
            Ok((irs, types)) => {
                let s = lower_exprs(es@, es@.len() as int, scope@);
                &&& s is Ok
                &&& irs@.len() == es@.len()
                &&& types@.len() == es@.len()
                &&& exprs_view(irs@) == lowered_irs(s->Ok_0)
                &&& data_types_view(types@) == lowered_types(s->Ok_0)
            },
            Err(x) => lower_exprs(es@, es@.len() as int, scope@) == Err::<Seq<Lowered>, CompileErrorView>(x@),
        },
    decreases es, 0nat,
{
    let mut irs: Vec<IrExpression> = Vec::new();
    let mut types: Vec<DataType> = Vec::new();
    let ghost mut ls: Seq<Lowered> = Seq::empty();
    let mut i: usize = 0;
    assert(exprs_view(irs@) =~= lowered_irs(ls));
    assert(data_types_view(types@) =~= lowered_types(ls));
    while i < es.len()
        invariant
            i <= es.len(),
            irs@.len() == i,
            types@.len() == i,
            ls.len() == i,
            lower_exprs(es@, i as int, scope@) == Ok::<Seq<Lowered>, CompileErrorView>(ls),
            exprs_view(irs@) == lowered_irs(ls),
            data_types_view(types@) == lowered_types(ls),
        decreases es.len() - i,
    {
        assert(decreases_to!(*es => es[i as int]));
        match lower(&es[i], scope) {
            Ok((ir, t)) => {
                let ghost old_irs = irs@;
                let ghost old_types = types@;
                let ghost old_ls = ls;
                proof {
                    ls = ls.push(Lowered { ir: ir@, data_type: t@ });
                }
                irs.push(ir);
                types.push(t);
                assert forall|j: int| 0 <= j < irs@.len() implies exprs_view(irs@)[j] == lowered_irs(
                    ls,
                )[j] by {
                    if j < old_irs.len() {
                        assert(irs@[j] == old_irs[j]);
                        assert(exprs_view(old_irs)[j] == lowered_irs(old_ls)[j]);
                    }
                }
                assert(exprs_view(irs@) =~= lowered_irs(ls));
                assert forall|j: int| 0 <= j < types@.len() implies data_types_view(types@)[j]
                    == lowered_types(ls)[j] by {
                    if j < old_types.len() {
                        assert(types@[j] == old_types[j]);
                        assert(data_types_view(old_types)[j] == lowered_types(old_ls)[j]);
                    }
                }
                assert(data_types_view(types@) =~= lowered_types(ls));
            },
            Err(x) => {
                proof {
                    lemma_lower_exprs_refused(es@, i + 1, es@.len() as int, scope@);
                }
                return Err(x);
            },
        }
        i += 1;
    }
    Ok((irs, types))
}

/// Compiles the fields of an object literal from left to right, and gives
/// the fields of the instruction tree and of the type, each in order.
pub fn lower_fields(ps: &Vec<(String, Expression)>, scope: &SymbolTable) -> (r: Result<
    (Vec<(String, IrExpression)>, Vec<(String, DataType)>),
    CompileError,
>)
    ensures
        match r {
            Ok((irs, types)) => {
                let s = lower_pairs(ps@, ps@.len() as int, scope@);
                &&& s is Ok
                &&& pairs_view(irs@) == pair_irs(s->Ok_0)
                &&& fields_view(types@) == pair_types(s->Ok_0)
            },
            Err(x) => lower_pairs(ps@, ps@.len() as int, scope@) == Err::<
                Seq<(Seq<char>, Lowered)>,
                CompileErrorView,
            >(x@),
        },
    decreases ps, 0nat,
{
    let mut irs: Vec<(String, IrExpression)> = Vec::new();
    let mut types: Vec<(String, DataType)> = Vec::new();
    let ghost mut ls: Seq<(Seq<char>, Lowered)> = Seq::empty();
    let mut i: usize = 0;
    assert(pairs_view(irs@) =~= pair_irs(ls));
    assert(fields_view(types@) =~= pair_types(ls));
    while i < ps.len()
        invariant
            i <= ps.len(),
            irs@.len() == i,
            types@.len() == i,
            ls.len() == i,
            lower_pairs(ps@, i as int, scope@) == Ok::<Seq<(Seq<char>, Lowered)>, CompileErrorView>(
                ls,
            ),
            pairs_view(irs@) == pair_irs(ls),
            fields_view(types@) == pair_types(ls),
        decreases ps.len() - i,
    {
        assert(decreases_to!(*ps => ps[i as int]));
        let pair = &ps[i];
        match lower(&pair.1, scope) {
            Ok((ir, t)) => {
                let ghost old_irs = irs@;
                let ghost old_types = types@;
                let ghost old_ls = ls;
                proof {
                    ls = ls.push((pair.0@, Lowered { ir: ir@, data_type: t@ }));
                }
                irs.push((pair.0.clone(), ir));
                types.push((pair.0.clone(), t));
                assert forall|j: int| 0 <= j < irs@.len() implies pairs_view(irs@)[j] == pair_irs(
                    ls,
                )[j] by {
                    if j < old_irs.len() {
                        assert(irs@[j] == old_irs[j]);
                        assert(pairs_view(old_irs)[j] == pair_irs(old_ls)[j]);
                    }
                }
                assert(pairs_view(irs@) =~= pair_irs(ls));
                assert forall|j: int| 0 <= j < types@.len() implies fields_view(types@)[j]
                    == pair_types(ls)[j] by {
                    if j < old_types.len() {
                        assert(types@[j] == old_types[j]);
                        assert(fields_view(old_types)[j] == pair_types(old_ls)[j]);
                    }
                }
                assert(fields_view(types@) =~= pair_types(ls));
            },
            Err(x) => {
                proof {
                    lemma_lower_pairs_refused(ps@, i + 1, ps@.len() as int, scope@);
                }
                return Err(x);
            },
        }
        i += 1;
    }
    Ok((irs, types))
}

/// Compiles the first `n` statements of a block in the scope, closes the
/// instructions, and gives them with the type of the block.
fn compile_block(ss: &Vec<Statement>, n: usize, scope: SymbolTable) -> (r: Result<
    (Vec<Instruction>, DataType),
    CompileError,
>)
    requires
        n <= ss.len(),
    ensures
        match r {
            Ok((instructions, t)) => {
                let s = lower_statements(ss@, n as int, start(scope@));
                &&& s is Ok
                &&& block_view(instructions@) == closed(s->Ok_0.instructions)
                &&& t@ == block_type(s->Ok_0)
            },
            Err(x) => lower_statements(ss@, n as int, start(scope@)) == Err::<
                Lowering,
                CompileErrorView,
            >(x@),
        },
    decreases ss, 0nat,
{
    let ghost first = start(scope@);
    let mut code: Vec<Instruction> = Vec::new();
    let mut table = scope;
    let mut aliases: Vec<(String, DataType)> = Vec::new();
    let mut last = DataType::Void;
    let mut i: usize = 0;
    assert(state_view(code@, table, aliases@, last) =~= first) by {
        assert(block_view(code@) =~= Seq::empty());
        assert(aliases_view(aliases@) =~= Seq::empty());
    }
    while i < n
        invariant
            i <= n <= ss.len(),
            first == start(scope@),
            lower_statements(ss@, i as int, first) == Ok::<Lowering, CompileErrorView>(
                state_view(code@, table, aliases@, last),
            ),
        decreases n - i,
    {
        assert(decreases_to!(*ss => ss[i as int]));
        let lowered = match &ss[i] {
            Statement::LetStatement(s) => Some(lower(&s.value, &table)),
            Statement::ReturnStatement(s) => Some(lower(&s.value, &table)),
            Statement::TypeStatement(_) => None,
            Statement::ExpressionStatement(s) => Some(lower(&s.expression, &table)),
        };
        match apply_statement(&ss[i], lowered, &mut code, &mut table, &mut aliases, &mut last) {
            Ok(_) => {},
            Err(x) => {
                proof {
                    lemma_lower_statements_refused(ss@, i + 1, n as int, first);
                }
                return Err(x);
            },
        }
        i += 1;
    }
    let t = type_of_block(&code, &last);
    close(&mut code);
    Ok((code, t))
}

/// The compiled expression of a statement, as `step` takes it.
pub open spec fn given(lowered: Option<Result<(IrExpression, DataType), CompileError>>) -> Result<
    Lowered,
    CompileErrorView,
> {
    match lowered {
        Some(r) => lowered_view(r),
        None => Err(arbitrary()),
    }
}

/// Carries a statement into the state of a compilation, given what its
/// expression was compiled to. Where the statement is refused, the state is
/// as it was.
fn apply_statement(
    s: &Statement,
    lowered: Option<Result<(IrExpression, DataType), CompileError>>,
    code: &mut Vec<Instruction>,
    scope: &mut SymbolTable,
    aliases: &mut Vec<(String, DataType)>,
    last: &mut DataType,
) -> (r: Result<(), CompileError>)
    requires
        lowered is Some <==> !(s is TypeStatement),
    ensures
        match r {
            Ok(_) => crate::lowering::step(
                *s,
                state_view(old(code)@, *old(scope), old(aliases)@, *old(last)),
                given(lowered),
            ) == Ok::<Lowering, CompileErrorView>(
                state_view(final(code)@, *final(scope), final(aliases)@, *final(last)),
            ),
            Err(x) => {
                &&& crate::lowering::step(
                    *s,
                    state_view(old(code)@, *old(scope), old(aliases)@, *old(last)),
                    given(lowered),
                ) == Err::<Lowering, CompileErrorView>(x@)
                &&& state_view(final(code)@, *final(scope), final(aliases)@, *final(last))
                    == state_view(old(code)@, *old(scope), old(aliases)@, *old(last))
            },
        },
{
    match (s, lowered) {
        (Statement::TypeStatement(s), _) => {
            register(s, aliases);
            Ok(())
        },
        (_, Some(Err(x))) => Err(x),
        (Statement::LetStatement(s), Some(lowered)) => store(s, lowered, code, scope, last),
        (Statement::ReturnStatement(s), Some(Ok((ir, t)))) => {
            push(code, Instruction::new(InstructionType::Return(ir), s.position));
            *last = t;
            Ok(())
        },
        (Statement::ExpressionStatement(s), Some(Ok((ir, t)))) => {
            push(code, Instruction::new(InstructionType::Expression(ir), s.position));
            *last = t;
            Ok(())
        },
        (_, None) => Ok(()),
    }
}

/// Appends an instruction.
pub fn push(code: &mut Vec<Instruction>, instruction: Instruction)
    ensures
        block_view(final(code)@) == block_view(old(code)@).push(instruction@),
{
    let ghost before = block_view(code@);
    let ghost made = instruction@;
    code.push(instruction);
    assert(block_view(code@) =~= before.push(made));
}

/// Registers the alias of a `type` statement.
pub fn register(s: &TypeStatement, aliases: &mut Vec<(String, DataType)>)
    ensures
        aliases_view(final(aliases)@) == aliases_view(old(aliases)@).push((s.name@, s.data_type@)),
{
    let ghost before = aliases_view(aliases@);
    aliases.push((s.name.clone(), s.data_type.clone()));
    assert(aliases_view(aliases@) =~= before.push((s.name@, s.data_type@)));
}

/// Carries a `let` statement into the state of a compilation, given what
/// its value was compiled to: the value, which must have the annotated type,
/// is stored under the name, and the name is declared.
pub fn store(
    s: &LetStatement,
    lowered: Result<(IrExpression, DataType), CompileError>,
    code: &mut Vec<Instruction>,
    scope: &mut SymbolTable,
    last: &mut DataType,
) -> (r: Result<(), CompileError>)
    ensures
        ({
            let aliases = Seq::<(String, DataType)>::empty();
            let after = crate::lowering::step(
                Statement::LetStatement(*s),
                state_view(old(code)@, *old(scope), aliases, *old(last)),
                lowered_view(lowered),
            );
            match r {
                Ok(_) => after == Ok::<Lowering, CompileErrorView>(
                    state_view(final(code)@, *final(scope), aliases, *final(last)),
                ),
                Err(x) => {
                    &&& after == Err::<Lowering, CompileErrorView>(x@)
                    &&& final(code)@ == old(code)@
                    &&& *final(scope) == *old(scope)
                    &&& *final(last) == *old(last)
                },
            }
        }),
{
    match lowered {
        Err(x) => Err(x),
        Ok((ir, t)) => match check(&s.data_type, &t) {
            Some(x) => Err(CompileError::TypeError(x, s.value.position())),
            None => {
                push(code, Instruction::new(InstructionType::StoreName(s.name.clone(), ir), s.position));
                let bound = match &s.data_type {
                    DataType::Auto => t,
                    declared => declared.clone(),
                };
                scope.insert(s.name.as_str(), SymbolEntry::of(bound));
                *last = DataType::Void;
                Ok(())
            },
        },
    }
}

/// Compiles one statement into the state of a compilation. Where the
/// statement is refused, the state is as it was.
pub fn compile_statement(
    s: &Statement,
    code: &mut Vec<Instruction>,
    scope: &mut SymbolTable,
    aliases: &mut Vec<(String, DataType)>,
    last: &mut DataType,
) -> (r: Result<(), CompileError>)
    ensures
        match r {
            Ok(_) => lower_statement(*s, state_view(old(code)@, *old(scope), old(aliases)@, *old(last)))
                == Ok::<Lowering, CompileErrorView>(
                state_view(final(code)@, *final(scope), final(aliases)@, *final(last)),
            ),
            Err(x) => {
                &&& lower_statement(
                    *s,
                    state_view(old(code)@, *old(scope), old(aliases)@, *old(last)),
                ) == Err::<Lowering, CompileErrorView>(x@)
                &&& state_view(final(code)@, *final(scope), final(aliases)@, *final(last))
                    == state_view(old(code)@, *old(scope), old(aliases)@, *old(last))
            },
        },
{
    let lowered = match s {
        Statement::LetStatement(s) => Some(lower(&s.value, scope)),
        Statement::ReturnStatement(s) => Some(lower(&s.value, scope)),
        Statement::TypeStatement(_) => None,
        Statement::ExpressionStatement(s) => Some(lower(&s.expression, scope)),
    };
    apply_statement(s, lowered, code, scope, aliases, last)
}

/// The view of an inferred type.
pub open spec fn inferred_view(r: Result<DataType, CompileError>) -> Result<TypeView, CompileErrorView> {
    match r {
        Ok(t) => Ok(t@),
        Err(x) => Err(x@),
    }
}

/// What `lower_expr` gives, without the instruction tree.
pub open spec fn inferred(lowered: Result<Lowered, CompileErrorView>) -> Result<
    TypeView,
    CompileErrorView,
> {
    match lowered {
        Ok(l) => Ok(l.data_type),
        Err(x) => Err(x),
    }
}

/// Infers the type of an expression in a scope: the type that `lower_expr`
/// gives it, or the error with which the expression is refused.
pub fn type_of(e: &Expression, scope: &SymbolTable) -> (r: Result<DataType, CompileError>)
    ensures
        inferred_view(r) == inferred(lower_expr(*e, scope@)),
{
    match lower(e, scope) {
        Ok((_, t)) => Ok(t),
        Err(x) => Err(x),
    }
}

/// The view of an optional type.
pub open spec fn optional_type_view(t: Option<&DataType>) -> Option<TypeView> {
    match t {
        Some(t) => Some(t@),
        None => None,
    }
}

/// Compiles an expression, whose type must be equal to the expected one, if
/// one is given.
pub fn lower_with(e: &Expression, expected: Option<&DataType>, scope: &SymbolTable) -> (r: Result<
    (IrExpression, DataType),
    CompileError,
>)
    ensures
        lowered_view(r) == lower_checked(*e, optional_type_view(expected), scope@),
{
    match lower(e, scope) {
        Err(x) => Err(x),
        Ok((ir, t)) => match expected {
            None => Ok((ir, t)),
            Some(wanted) => match check(wanted, &t) {
                Some(x) => Err(CompileError::TypeError(x, e.position())),
                None => Ok((ir, t)),
            },
        },
    }
}

/// Compiles an expression in a scope, and gives the instruction tree with
/// its type.
pub fn lower(e: &Expression, scope: &SymbolTable) -> (r: Result<(IrExpression, DataType), CompileError>)
    ensures
        lowered_view(r) == lower_expr(*e, scope@),
    decreases e, 1nat,
{
    match e {
        Expression::Identifier { value, .. } => {
            let t = match scope.lookup(value.as_str()) {
                Some(entry) => entry.data_type.clone(),
                None => DataType::Auto,
            };
            Ok((IrExpression::Identifier(value.clone()), t))
        },
        Expression::NumberLiteral { value, .. } => {
            let ir = IrExpression::Literal(LiteralValue::Number(*value));
            assert(ir@ == crate::instruction::ExprView::Literal(
                crate::instruction::ValueView::Number(*value),
            )) by {
                reveal_with_fuel(crate::instruction::expr_view, 2);
            }
            Ok((ir, DataType::Number))
        },
        Expression::StringLiteral { value, .. } => {
            let ir = IrExpression::Literal(LiteralValue::String(value.clone()));
            assert(ir@ == crate::instruction::ExprView::Literal(
                crate::instruction::ValueView::String(value@),
            )) by {
                reveal_with_fuel(crate::instruction::expr_view, 2);
            }
            Ok((ir, DataType::String))
        },
        Expression::BooleanLiteral { value, .. } => {
            let ir = IrExpression::Literal(LiteralValue::Boolean(*value));
            assert(ir@ == crate::instruction::ExprView::Literal(
                crate::instruction::ValueView::Boolean(*value),
            )) by {
                reveal_with_fuel(crate::instruction::expr_view, 2);
            }
            Ok((ir, DataType::Boolean))
        },
        Expression::ArrayLiteral { elements, .. } => match lower_all(elements, scope) {
            Err(x) => Err(x),
            Ok((irs, types)) => {
                let t = if types.len() == 0 {
                    DataType::Array(Box::new(DataType::Auto))
                } else {
                    DataType::Array(Box::new(types[0].clone()))
                };
                assert(t@ == array_type(data_types_view(types@))) by {
                    reveal_with_fuel(crate::types::data_type_view, 2);
                }
                let ir = IrExpression::Literal(LiteralValue::Array(irs));
                assert(ir@ == crate::instruction::ExprView::Literal(
                    crate::instruction::ValueView::Array(exprs_view(irs@)),
                )) by {
                    reveal_with_fuel(crate::instruction::expr_view, 2);
                }
                Ok((ir, t))
            },
        },
        Expression::ObjectLiteral { pairs, .. } => match lower_fields(pairs, scope) {
            Err(x) => Err(x),
            Ok((irs, types)) => {
                let t = DataType::Object(types);
                assert(t@->Object_0 =~= fields_view(types@));
                let ir = IrExpression::Literal(LiteralValue::Object(irs));
                assert(ir@ == crate::instruction::ExprView::Literal(
                    crate::instruction::ValueView::Object(pairs_view(irs@)),
                )) by {
                    reveal_with_fuel(crate::instruction::expr_view, 2);
                }
                Ok((ir, t))
            },
        },
        Expression::FunctionLiteral { .. } => lower_function(e, scope),
        Expression::PrefixExpression { operator, right, position } => match lower(right, scope) {
            Err(x) => Err(x),
            Ok((ir, t)) => match type_of_prefix(*operator, &t) {
                Err(x) => Err(CompileError::TypeError(x, *position)),
                Ok(t) => Ok((IrExpression::Prefix(*operator, Box::new(ir)), t)),
            },
        },
        Expression::InfixExpression { .. } => lower_infix(e, scope),
        Expression::IfExpression { .. } => lower_if(e, scope),
        Expression::CallExpression { .. } => lower_call(e, scope),
        Expression::IndexExpression { .. } => lower_index(e, scope),
        Expression::BlockExpression { statements, .. } => {
            match compile_block(statements, statements.len(), SymbolTable::new(Some(scope.clone()))) {
                Err(x) => Err(x),
                Ok((instructions, t)) => Ok((IrExpression::Block(instructions), t)),
            }
        },
    }
}

/// Compiles a function literal: the body, up to its first return, in a
/// frame that declares the parameters.
fn lower_function(e: &Expression, scope: &SymbolTable) -> (r: Result<
    (IrExpression, DataType),
    CompileError,
>)
    requires
        e is FunctionLiteral,
    ensures
        lowered_view(r) == lower_expr(*e, scope@),
    decreases e, 0nat,
{
    match e {
        Expression::FunctionLiteral { parameters, return_type, body, position } => {
            let inner = scope_of(scope, parameters);
            match compile_block(body, reach(body), inner) {
                Err(x) => Err(x),
                Ok((instructions, found)) => match check(return_type, &found) {
                    Some(x) => Err(CompileError::TypeError(x, *position)),
                    None => {
                        let result = match return_type {
                            DataType::Auto => found,
                            declared => declared.clone(),
                        };
                        if !result.is_resolved() {
                            return Err(
                                CompileError::TypeError(TypeError::UninferredType(result), *position),
                            );
                        }
                        let ir = IrExpression::Literal(
                            LiteralValue::Function(
                                names_of(parameters),
                                instructions,
                                result.clone(),
                                None,
                            ),
                        );
                        assert(ir@ == crate::instruction::ExprView::Literal(
                            crate::instruction::ValueView::Function(
                                parameter_names(parameters@),
                                block_view(instructions@),
                                result@,
                                None,
                                crate::lowering::parameter_kinds(parameters@),
                            ),
                        )) by {
                            reveal_with_fuel(crate::instruction::expr_view, 2);
                        }
                        let types = types_of(parameters);
                        let t = DataType::Function(types, Box::new(result));
                        assert(t@->Function_0 =~= parameter_types(parameters@));
                        Ok((ir, t))
                    },
                },
            }
        },
        _ => Err(CompileError::ParsingError(Vec::new())),
    }
}

/// Compiles an infix expression: the left operand, then the right one.
fn lower_infix(e: &Expression, scope: &SymbolTable) -> (r: Result<
    (IrExpression, DataType),
    CompileError,
>)
    requires
        e is InfixExpression,
    ensures
        lowered_view(r) == lower_expr(*e, scope@),
    decreases e, 0nat,
{
    match e {
        Expression::InfixExpression { left, operator, right, position } => {
            let (l, tl) = match lower(left, scope) {
                Ok(v) => v,
                Err(x) => {
                    return Err(x);
                },
            };
            let (r, tr) = match lower(right, scope) {
                Ok(v) => v,
                Err(x) => {
                    return Err(x);
                },
            };
            match type_of_infix(*operator, &tl, &tr) {
                Err(x) => Err(CompileError::TypeError(x, *position)),
                Ok(t) => Ok((IrExpression::Infix(*operator, Box::new(l), Box::new(r)), t)),
            }
        },
        _ => Err(CompileError::ParsingError(Vec::new())),
    }
}

/// Compiles an index expression: what is indexed, then the index.
fn lower_index(e: &Expression, scope: &SymbolTable) -> (r: Result<
    (IrExpression, DataType),
    CompileError,
>)
    requires
        e is IndexExpression,
    ensures
        lowered_view(r) == lower_expr(*e, scope@),
    decreases e, 0nat,
{
    match e {
        Expression::IndexExpression { left, index, position } => {
            let (l, tl) = match lower(left, scope) {
                Ok(v) => v,
                Err(x) => {
                    return Err(x);
                },
            };
            let (i, ti) = match lower(index, scope) {
                Ok(v) => v,
                Err(x) => {
                    return Err(x);
                },
            };
            match type_of_index(&tl, &ti) {
                Err(x) => Err(CompileError::TypeError(x, *position)),
                Ok(t) => Ok((IrExpression::Index(Box::new(l), Box::new(i)), t)),
            }
        },
        _ => Err(CompileError::ParsingError(Vec::new())),
    }
}

/// Compiles a conditional: the condition, which must be a Boolean, and each
/// branch as a block in a frame of its own; the two branches must have equal
/// types.
fn lower_if(e: &Expression, scope: &SymbolTable) -> (r: Result<(IrExpression, DataType), CompileError>)
    requires
        e is IfExpression,
    ensures
        lowered_view(r) == lower_expr(*e, scope@),
    decreases e, 0nat,
{
    match e {
        Expression::IfExpression { condition, consequence, alternative, position } => {
            let (c, tc) = match lower(condition, scope) {
                Ok(v) => v,
                Err(x) => {
                    return Err(x);
                },
            };
            match check(&DataType::Boolean, &tc) {
                Some(x) => {
                    return Err(CompileError::TypeError(x, condition.position()));
                },
                None => {},
            }
            let (t, tt) = match compile_block(
                consequence,
                consequence.len(),
                SymbolTable::new(Some(scope.clone())),
            ) {
                Ok(v) => v,
                Err(x) => {
                    return Err(x);
                },
            };
            match alternative {
                None => {
                    let ir = IrExpression::If(
                        Box::new(c),
                        Box::new(IrExpression::Block(t)),
                        Box::new(None),
                    );
                    assert(ir@ == crate::instruction::ExprView::If(
                        Box::new(c@),
                        Box::new(crate::instruction::ExprView::Block(block_view(t@))),
                        None,
                    )) by {
                        reveal_with_fuel(crate::instruction::expr_view, 2);
                    }
                    Ok((ir, tt))
                },
                Some(other) => {
                    let (a, ta) = match compile_block(
                        other,
                        other.len(),
                        SymbolTable::new(Some(scope.clone())),
                    ) {
                        Ok(v) => v,
                        Err(x) => {
                            return Err(x);
                        },
                    };
                    match check(&tt, &ta) {
                        Some(x) => Err(CompileError::TypeError(x, *position)),
                        None => {
                            let ir = IrExpression::If(
                                Box::new(c),
                                Box::new(IrExpression::Block(t)),
                                Box::new(Some(IrExpression::Block(a))),
                            );
                            assert(ir@ == crate::instruction::ExprView::If(
                                Box::new(c@),
                                Box::new(crate::instruction::ExprView::Block(block_view(t@))),
                                Some(
                                    Box::new(crate::instruction::ExprView::Block(block_view(a@))),
                                ),
                            )) by {
                                reveal_with_fuel(crate::instruction::expr_view, 2);
                            }
                            Ok((ir, tt))
                        },
                    }
                },
            }
        },
        _ => Err(CompileError::ParsingError(Vec::new())),
    }
}

/// Compiles a call: the arguments from left to right, then the function.
fn lower_call(e: &Expression, scope: &SymbolTable) -> (r: Result<
    (IrExpression, DataType),
    CompileError,
>)
    requires
        e is CallExpression,
    ensures
        lowered_view(r) == lower_expr(*e, scope@),
    decreases e, 0nat,
{
    match e {
        Expression::CallExpression { function, arguments, position } => {
            let (irs, types) = match lower_all(arguments, scope) {
                Ok(v) => v,
                Err(x) => {
                    return Err(x);
                },
            };
            let (f, tf) = match lower(function, scope) {
                Ok(v) => v,
                Err(x) => {
                    return Err(x);
                },
            };
            match type_of_call(&tf, &types) {
                Err((x, Some(i))) => Err(CompileError::TypeError(x, arguments[i].position())),
                Err((x, None)) => Err(CompileError::TypeError(x, *position)),
                Ok(t) => Ok((IrExpression::Call(Box::new(f), irs), t)),
            }
        },
        _ => Err(CompileError::ParsingError(Vec::new())),
    }
}

/// Compiles a syntax tree to the instruction tree. It holds the program,
/// the instructions made so far, the names that the statements compiled so
/// far have declared, the type aliases that they have registered, and the
/// type of the expression of the instruction made last.
#[derive(Debug)]
pub struct Compiler {
    pub program: Program,
    pub code: Code,
    pub scope: SymbolTable,
    pub aliases: Vec<(String, DataType)>,
    pub last: DataType,
}

/// The methods of a compiler.
pub trait CompilerTrait: Sized {
    /// The program that is compiled.
    spec fn source(&self) -> Program;

    /// The state of the compilation: the instructions made so far, the
    /// names declared, the aliases registered and the type of the expression
    /// of the last instruction. The program is not part of it: `source`
    /// gives it.
    spec fn lowering(&self) -> Lowering;

    /// A compiler for the program, which has compiled nothing yet.
    fn new(program: Program) -> (r: Self)
        ensures
            r.source() == program,
            r.lowering() == start(ScopeView::empty()),
    ;

    /// Compiles the statements of the program in order: each statement but a
    /// `type` statement makes one instruction, at its position. The
    /// interpreter that is given runs a copy of the instructions from an
    /// empty environment. A program with parse errors is refused with those
    /// errors, and a statement that is refused ends the compilation with its
    /// type error, after the statements before it.
    fn compile_program(&mut self) -> (r: CompileResult<IrInterpreter>)
        ensures
            final(self).source() == old(self).source(),
            ({
                let program = old(self).source();
                let all = lower_statements(
                    program.statements@,
                    program.statements@.len() as int,
                    old(self).lowering(),
                );
                match r {
                    Ok(interpreter) => {
                        &&& program.errors@.len() == 0
                        &&& all is Ok
                        &&& final(self).lowering() == all->Ok_0
                        &&& block_view(interpreter.instructions@) == all->Ok_0.instructions
                        &&& interpreter.environment@ == EnvView::empty()
                        &&& interpreter.output@ == Seq::<LiteralValue>::empty()
                        &&& interpreter.depth == DEFAULT_DEPTH
                    },
                    Err(x) => if program.errors@.len() > 0 {
                        &&& x@ == CompileErrorView::ParsingError(parsing_errors_view(program.errors@))
                        &&& final(self).lowering() == old(self).lowering()
                    } else {
                        &&& all == Err::<Lowering, CompileErrorView>(x@)
                        &&& x@ is TypeError
                        &&& exists|k: int|
                            0 <= k < program.statements@.len() && lower_statements(
                                program.statements@,
                                k,
                                old(self).lowering(),
                            ) == Ok::<Lowering, CompileErrorView>(final(self).lowering())
                    },
                }
            }),
    ;

    /// Compiles a `let` statement: its value, which must have the annotated
    /// type, is stored under the name, and the name is declared. Where the
    /// statement is refused, the compiler is as it was.
    fn compile_let_statement(&mut self, let_statement: &LetStatement) -> (r: CompileResult<()>)
        ensures
            final(self).source() == old(self).source(),
            ({
                let s = lower_statement(Statement::LetStatement(*let_statement), old(self).lowering());
                match r {
                    Ok(_) => s == Ok::<Lowering, CompileErrorView>(final(self).lowering()),
                    Err(x) => s == Err::<Lowering, CompileErrorView>(x@) && final(self).lowering()
                        == old(self).lowering(),
                }
            }),
    ;

    /// Compiles a `return` statement. Where the statement is refused, the
    /// compiler is as it was.
    fn compile_return_statement(&mut self, return_statement: &ReturnStatement) -> (r: CompileResult<
        (),
    >)
        ensures
            final(self).source() == old(self).source(),
            ({
                let s = lower_statement(
                    Statement::ReturnStatement(*return_statement),
                    old(self).lowering(),
                );
                match r {
                    Ok(_) => s == Ok::<Lowering, CompileErrorView>(final(self).lowering()),
                    Err(x) => s == Err::<Lowering, CompileErrorView>(x@) && final(self).lowering()
                        == old(self).lowering(),
                }
            }),
    ;

    /// Registers the alias of a `type` statement. No instruction is made.
    fn compile_type_statement(&mut self, type_statement: &TypeStatement) -> (r: CompileResult<()>)
        ensures
            final(self).source() == old(self).source(),
            r is Ok,
            lower_statement(Statement::TypeStatement(*type_statement), old(self).lowering()) == Ok::<
                Lowering,
                CompileErrorView,
            >(final(self).lowering()),
    ;

    /// Compiles an expression in the scope of the compiler, which stays as
    /// it is. The type of the expression must be equal to `data_type`, if
    /// one is given.
    fn compile_expression(&mut self, expression: &Expression, data_type: Option<DataType>) -> (r:
        CompileResult<IrExpression>)
        ensures
            final(self).source() == old(self).source(),
            final(self).lowering() == old(self).lowering(),
            ({
                let s = lower_checked(
                    *expression,
                    match data_type {
                        Some(t) => Some(t@),
                        None => None,
                    },
                    old(self).lowering().scope,
                );
                match r {
                    Ok(ir) => s is Ok && s->Ok_0.ir == ir@,
                    Err(x) => s == Err::<Lowered, CompileErrorView>(x@),
                }
            }),
    ;
}

impl CompilerTrait for Compiler {
    open spec fn source(&self) -> Program {
        self.program
    }

    open spec fn lowering(&self) -> Lowering {
        state_view(self.code.0@, self.scope, self.aliases@, self.last)
    }

    fn new(program: Program) -> (r: Self) {
        let r = Self {
            program,
            code: Code::new(),
            scope: SymbolTable::new(None),
            aliases: Vec::new(),
            last: DataType::Void,
        };
        assert(r.lowering() =~= start(ScopeView::empty())) by {
            assert(block_view(r.code.0@) =~= Seq::empty());
            assert(aliases_view(r.aliases@) =~= Seq::empty());
        }
        r
    }

    fn compile_program(&mut self) -> (r: CompileResult<IrInterpreter>) {
        if self.program.errors.len() > 0 {
            let mut errors: Vec<crate::ast::ParsingError> = Vec::new();
            let mut i: usize = 0;
            while i < self.program.errors.len()
                invariant
                    i <= self.program.errors.len(),
                    errors@.len() == i,
                    *self == *old(self),
                    forall|j: int| 0 <= j < i ==> (#[trigger] errors@[j])@ == self.program.errors@[j]@,
                decreases self.program.errors.len() - i,
            {
                errors.push(self.program.errors[i].clone());
                i += 1;
            }
            assert(parsing_errors_view(errors@) =~= parsing_errors_view(self.program.errors@));
            return Err(CompileError::ParsingError(errors));
        }
        let ghost first = self.lowering();
        let ghost ss = self.program.statements@;
        let mut i: usize = 0;
        while i < self.program.statements.len()
            invariant
                i <= self.program.statements.len(),
                self.program == old(self).program,
                self.program.errors@.len() == 0,
                ss == self.program.statements@,
                first == old(self).lowering(),
                lower_statements(ss, i as int, first) == Ok::<Lowering, CompileErrorView>(
                    self.lowering(),
                ),
            decreases self.program.statements.len() - i,
        {
            match compile_statement(
                &self.program.statements[i],
                &mut self.code.0,
                &mut self.scope,
                &mut self.aliases,
                &mut self.last,
            ) {
                Ok(_) => {},
                Err(x) => {
                    proof {
                        lemma_lower_statements_refused(ss, i + 1, ss.len() as int, first);
                        crate::laws::lemma_statements_refused_for_types(
                            ss,
                            ss.len() as int,
                            first,
                        );
                        assert(lower_statements(ss, i as int, first) == Ok::<
                            Lowering,
                            CompileErrorView,
                        >(self.lowering()));
                    }
                    return Err(x);
                },
            }
            i += 1;
        }
        Ok(
            IrInterpreter {
                instructions: clone_block(&self.code.0),
                environment: crate::instruction::IrEnvironment::new(None),
                output: Vec::new(),
                depth: DEFAULT_DEPTH,
            },
        )
    }

    fn compile_let_statement(&mut self, let_statement: &LetStatement) -> (r: CompileResult<()>) {
        let lowered = lower(&let_statement.value, &self.scope);
        store(let_statement, lowered, &mut self.code.0, &mut self.scope, &mut self.last)
    }

    fn compile_return_statement(&mut self, return_statement: &ReturnStatement) -> (r: CompileResult<
        (),
    >) {
        match lower(&return_statement.value, &self.scope) {
            Err(x) => Err(x),
            Ok((ir, t)) => {
                self.code.push_instruction(
                    &Instruction::new(InstructionType::Return(ir), return_statement.position),
                );
                self.last = t;
                Ok(())
            },
        }
    }

    fn compile_type_statement(&mut self, type_statement: &TypeStatement) -> (r: CompileResult<()>) {
        register(type_statement, &mut self.aliases);
        Ok(())
    }

    fn compile_expression(&mut self, expression: &Expression, data_type: Option<DataType>) -> (r:
        CompileResult<IrExpression>) {
        let r = match &data_type {
            Some(t) => lower_with(expression, Some(t), &self.scope),
            None => lower_with(expression, None, &self.scope),
        };
        match r {
            Ok((ir, _)) => Ok(ir),
            Err(x) => Err(x),
        }
    }
}

} // verus!
