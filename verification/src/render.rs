//! The text of types, values, expressions and instructions, for a reader
//! who debugs a program. Lists keep the order of the source and separate
//! their items by a comma and a space; a string literal stands in quotes.

use crate::instruction::{
    kinds_view, names_view, Parameter, ParameterKind, group_views, ExprView, Instruction, InstructionType, InstructionTypeView, InstructionView,
    IrExpression, LiteralValue, ValueView,
};
use crate::number::{decimal_text, text};
use crate::types::{DataType, TypeView};
use vstd::prelude::*;

verus! {

broadcast use group_views;

/// The text of a parameter: its name, after `...` where it is a spread
/// parameter.
pub open spec fn parameter_text(name: Seq<char>, kind: ParameterKind) -> Seq<char> {
    match kind {
        ParameterKind::Normal => name,
        ParameterKind::Spread => "..."@ + name,
    }
}

/// The texts of the first `n` parameters, separated.
pub open spec fn parameters_text(names: Seq<Seq<char>>, kinds: Seq<ParameterKind>, n: int) -> Seq<
    char,
>
    decreases n,
{
    if n <= 0 || n > names.len() || n > kinds.len() {
        Seq::empty()
    } else if n == 1 {
        parameter_text(names[0], kinds[0])
    } else {
        parameters_text(names, kinds, n - 1) + ", "@ + parameter_text(names[n - 1], kinds[n - 1])
    }
}

/// The text of a type.
pub open spec fn type_text(t: TypeView) -> Seq<char>
    decreases t, 0nat,
{
    match t {
        TypeView::Number => "number"@,
        TypeView::String => "string"@,
        TypeView::Boolean => "boolean"@,
        TypeView::Array(element) => type_text(*element) + "[]"@,
        TypeView::Object(fields) => "{"@ + fields_text(fields, fields.len() as int) + "}"@,
        TypeView::Function(parameters, result) => "fn("@ + types_text(
            parameters,
            parameters.len() as int,
        ) + ") -> "@ + type_text(*result),
        TypeView::Void => "void"@,
        TypeView::Auto => "auto"@,
        TypeView::Generic(name) => name,
    }
}

/// The texts of the first `n` types, separated.
pub open spec fn types_text(ts: Seq<TypeView>, n: int) -> Seq<char>
    decreases ts, n,
{
    if n <= 0 || n > ts.len() {
        Seq::empty()
    } else if n == 1 {
        type_text(ts[0])
    } else {
        types_text(ts, n - 1) + ", "@ + type_text(ts[n - 1])
    }
}

/// The texts of the first `n` fields, each as its name, a colon and its
/// type, separated.
pub open spec fn fields_text(fs: Seq<(Seq<char>, TypeView)>, n: int) -> Seq<char>
    decreases fs, n,
{
    if n <= 0 || n > fs.len() {
        Seq::empty()
    } else if n == 1 {
        fs[0].0 + ": "@ + type_text(fs[0].1)
    } else {
        fields_text(fs, n - 1) + ", "@ + fs[n - 1].0 + ": "@ + type_text(fs[n - 1].1)
    }
}

/// The text of a value.
pub open spec fn value_text(v: ValueView) -> Seq<char>
    decreases v, 0nat,
{
    match v {
        ValueView::Number(bits) => decimal_text(bits),
        ValueView::String(s) => s,
        ValueView::Boolean(b) => if b {
            "true"@
        } else {
            "false"@
        },
        ValueView::Array(elements) => "["@ + exprs_text(elements, elements.len() as int) + "]"@,
        ValueView::Object(pairs) => "{"@ + pairs_text(pairs, pairs.len() as int) + "}"@,
        ValueView::Function(parameters, _, result, _, kinds) => "fn("@ + parameters_text(
            parameters,
            kinds,
            parameters.len() as int,
        ) + ") -> "@ + type_text(result),
    }
}

/// The text of an expression.
pub open spec fn expr_text(e: ExprView) -> Seq<char>
    decreases e, 0nat,
{
    match e {
        ExprView::Identifier(name) => name,
        ExprView::Literal(ValueView::String(s)) => "\""@ + s + "\""@,
        ExprView::Literal(v) => value_text(v),
        ExprView::Block(b) => "block("@ + block_text(b, b.len() as int) + ")"@,
        ExprView::If(c, t, a) => "if("@ + expr_text(*c) + ", "@ + expr_text(*t) + ", "@ + (match a {
            Some(x) => expr_text(*x),
            None => "None"@,
        }) + ")"@,
        ExprView::Call(f, arguments) => expr_text(*f) + "("@ + exprs_text(
            arguments,
            arguments.len() as int,
        ) + ")"@,
        ExprView::Index(l, i) => "index("@ + expr_text(*l) + ", "@ + expr_text(*i) + ")"@,
        ExprView::Prefix(op, r) => "prefix("@ + op.symbol() + ", "@ + expr_text(*r) + ")"@,
        ExprView::Infix(op, l, r) => "infix("@ + op.symbol() + ", "@ + expr_text(*l) + ", "@
            + expr_text(*r) + ")"@,
    }
}

/// The texts of the first `n` expressions, separated.
pub open spec fn exprs_text(es: Seq<ExprView>, n: int) -> Seq<char>
    decreases es, n,
{
    if n <= 0 || n > es.len() {
        Seq::empty()
    } else if n == 1 {
        expr_text(es[0])
    } else {
        exprs_text(es, n - 1) + ", "@ + expr_text(es[n - 1])
    }
}

/// The texts of the first `n` fields, each as its name, a colon and its
/// expression, separated.
pub open spec fn pairs_text(ps: Seq<(Seq<char>, ExprView)>, n: int) -> Seq<char>
    decreases ps, n,
{
    if n <= 0 || n > ps.len() {
        Seq::empty()
    } else if n == 1 {
        ps[0].0 + ": "@ + expr_text(ps[0].1)
    } else {
        pairs_text(ps, n - 1) + ", "@ + ps[n - 1].0 + ": "@ + expr_text(ps[n - 1].1)
    }
}

/// The text of what an instruction does.
pub open spec fn instruction_type_text(i: InstructionTypeView) -> Seq<char>
    decreases i, 0nat,
{
    match i {
        InstructionTypeView::StoreName(name, e) => "store_identifier("@ + name + ", "@ + expr_text(e)
            + ")"@,
        InstructionTypeView::Return(e) => "return("@ + expr_text(e) + ")"@,
        InstructionTypeView::Expression(e) => "expression("@ + expr_text(e) + ")"@,
        InstructionTypeView::Nop => "none"@,
    }
}

/// The text of an instruction: that of what it does. The position is not
/// part of it.
pub open spec fn instruction_text(i: InstructionView) -> Seq<char>
    decreases i, 1nat,
{
    instruction_type_text(i.instruction)
}

/// The texts of the first `n` instructions, separated.
pub open spec fn block_text(b: Seq<InstructionView>, n: int) -> Seq<char>
    decreases b, n,
{
    if n <= 0 || n > b.len() {
        Seq::empty()
    } else if n == 1 {
        instruction_text(b[0])
    } else {
        block_text(b, n - 1) + ", "@ + instruction_text(b[n - 1])
    }
}

impl DataType {
    /// The text of the type.
    pub fn to_text(&self) -> (r: String)
        ensures
            r@ == type_text(self@),
        decreases self,
    {
        match self {
            DataType::Number => String::from_str("number"),
            DataType::String => String::from_str("string"),
            DataType::Boolean => String::from_str("boolean"),
            DataType::Void => String::from_str("void"),
            DataType::Auto => String::from_str("auto"),
            DataType::Generic(name) => name.clone(),
            DataType::Array(element) => {
                let mut r = (&**element).to_text();
                r.append("[]");
                r
            },
            DataType::Object(fields) => {
                let ghost fs = self@->Object_0;
                assert(fs =~= crate::types::fields_view(fields@));
                let mut r = String::from_str("{");
                let mut i: usize = 0;
                assert(r@ =~= "{"@ + fields_text(fs, 0));
                while i < fields.len()
                    invariant
                        i <= fields.len(),
                        decreases_to!(self => fields),
                        fs == crate::types::fields_view(fields@),
                        r@ == "{"@ + fields_text(fs, i as int),
                    decreases fields.len() - i,
                {
                    assert(decreases_to!(*fields => fields[i as int]));
                    let ghost before = r@;
                    if i > 0 {
                        r.append(", ");
                    }
                    r.append(fields[i].0.as_str());
                    r.append(": ");
                    let t = fields[i].1.to_text();
                    r.append(t.as_str());
                    assert(r@ =~= "{"@ + fields_text(fs, i + 1));
                    i += 1;
                }
                r.append("}");
                r
            },
            DataType::Function(parameters, result) => {
                let ghost ps = self@->Function_0;
                assert(ps =~= crate::types::data_types_view(parameters@));
                let mut r = String::from_str("fn(");
                let mut i: usize = 0;
                assert(r@ =~= "fn("@ + types_text(ps, 0));
                while i < parameters.len()
                    invariant
                        i <= parameters.len(),
                        decreases_to!(self => parameters),
                        ps == crate::types::data_types_view(parameters@),
                        r@ == "fn("@ + types_text(ps, i as int),
                    decreases parameters.len() - i,
                {
                    assert(decreases_to!(*parameters => parameters[i as int]));
                    if i > 0 {
                        r.append(", ");
                    }
                    let t = parameters[i].to_text();
                    r.append(t.as_str());
                    assert(r@ =~= "fn("@ + types_text(ps, i + 1));
                    i += 1;
                }
                r.append(") -> ");
                let t = (&**result).to_text();
                r.append(t.as_str());
                r
            },
        }
    }
}

/// The texts of the parameters, separated.
pub fn parameters_to_text(parameters: &Vec<Parameter>) -> (r: String)
    ensures
        r@ == parameters_text(names_view(parameters@), kinds_view(parameters@), parameters@.len() as int),
{
    let ghost names = names_view(parameters@);
    let ghost kinds = kinds_view(parameters@);
    let mut r = String::new();
    let mut i: usize = 0;
    assert(r@ =~= parameters_text(names, kinds, 0));
    while i < parameters.len()
        invariant
            i <= parameters.len(),
            names == names_view(parameters@),
            kinds == kinds_view(parameters@),
            r@ == parameters_text(names, kinds, i as int),
        decreases parameters.len() - i,
    {
        if i > 0 {
            r.append(", ");
        }
        match parameters[i].kind {
            ParameterKind::Normal => {},
            ParameterKind::Spread => {
                r.append("...");
            },
        }
        r.append(parameters[i].name.as_str());
        assert(r@ =~= parameters_text(names, kinds, i + 1));
        i += 1;
    }
    r
}

/// The texts of the expressions, separated.
pub fn expressions_to_text(es: &Vec<IrExpression>) -> (r: String)
    ensures
        r@ == exprs_text(crate::instruction::exprs_view(es@), es@.len() as int),
    decreases es,
{
    let ghost sv = crate::instruction::exprs_view(es@);
    let mut r = String::new();
    let mut i: usize = 0;
    assert(r@ =~= exprs_text(sv, 0));
    while i < es.len()
        invariant
            i <= es.len(),
            sv == crate::instruction::exprs_view(es@),
            r@ == exprs_text(sv, i as int),
        decreases es.len() - i,
    {
        assert(decreases_to!(*es => es[i as int]));
        if i > 0 {
            r.append(", ");
        }
        let t = es[i].to_text();
        r.append(t.as_str());
        assert(r@ =~= exprs_text(sv, i + 1));
        i += 1;
    }
    r
}

/// The texts of the fields, separated.
pub fn pairs_to_text(ps: &Vec<(String, IrExpression)>) -> (r: String)
    ensures
        r@ == pairs_text(crate::instruction::pairs_view(ps@), ps@.len() as int),
    decreases ps,
{
    let ghost sv = crate::instruction::pairs_view(ps@);
    let mut r = String::new();
    let mut i: usize = 0;
    assert(r@ =~= pairs_text(sv, 0));
    while i < ps.len()
        invariant
            i <= ps.len(),
            sv == crate::instruction::pairs_view(ps@),
            r@ == pairs_text(sv, i as int),
        decreases ps.len() - i,
    {
        assert(decreases_to!(*ps => ps[i as int]));
        if i > 0 {
            r.append(", ");
        }
        r.append(ps[i].0.as_str());
        r.append(": ");
        let t = ps[i].1.to_text();
        r.append(t.as_str());
        assert(r@ =~= pairs_text(sv, i + 1));
        i += 1;
    }
    r
}

/// The texts of the instructions, separated.
pub fn block_to_text(b: &Vec<Instruction>) -> (r: String)
    ensures
        r@ == block_text(crate::instruction::block_view(b@), b@.len() as int),
    decreases b,
{
    let ghost sv = crate::instruction::block_view(b@);
    let mut r = String::new();
    let mut i: usize = 0;
    assert(r@ =~= block_text(sv, 0));
    while i < b.len()
        invariant
            i <= b.len(),
            sv == crate::instruction::block_view(b@),
            r@ == block_text(sv, i as int),
        decreases b.len() - i,
    {
        assert(decreases_to!(*b => b[i as int]));
        if i > 0 {
            r.append(", ");
        }
        let t = b[i].to_text();
        r.append(t.as_str());
        assert(r@ =~= block_text(sv, i + 1));
        i += 1;
    }
    r
}

impl LiteralValue {
    /// The text of the value. A string stands without quotes here.
    pub fn to_text(&self) -> (r: String)
        ensures
            r@ == value_text(self@),
        decreases self,
    {
        match self {
            LiteralValue::Number(bits) => text(*bits),
            LiteralValue::String(s) => s.clone(),
            LiteralValue::Boolean(b) => if *b {
                String::from_str("true")
            } else {
                String::from_str("false")
            },
            LiteralValue::Array(elements) => {
                let mut r = String::from_str("[");
                let inner = expressions_to_text(elements);
                r.append(inner.as_str());
                r.append("]");
                r
            },
            LiteralValue::Object(pairs) => {
                let mut r = String::from_str("{");
                let inner = pairs_to_text(pairs);
                r.append(inner.as_str());
                r.append("}");
                r
            },
            LiteralValue::Function(parameters, _, result, _) => {
                let mut r = String::from_str("fn(");
                let names = parameters_to_text(parameters);
                r.append(names.as_str());
                r.append(") -> ");
                let t = result.to_text();
                r.append(t.as_str());
                r
            },
        }
    }
}

impl IrExpression {
    /// The text of the expression. A string literal stands in quotes.
    pub fn to_text(&self) -> (r: String)
        ensures
            r@ == expr_text(self@),
        decreases self,
    {
        proof {
            reveal_with_fuel(crate::instruction::expr_view, 2);
        }
        match self {
            IrExpression::Identifier(name) => name.clone(),
            IrExpression::Literal(LiteralValue::String(s)) => {
                let mut r = String::from_str("\"");
                r.append(s.as_str());
                r.append("\"");
                r
            },
            IrExpression::Literal(v) => v.to_text(),
            IrExpression::Block(b) => {
                let mut r = String::from_str("block(");
                let inner = block_to_text(b);
                r.append(inner.as_str());
                r.append(")");
                r
            },
            IrExpression::If(c, t, a) => {
                let mut r = String::from_str("if(");
                let condition = (&**c).to_text();
                r.append(condition.as_str());
                r.append(", ");
                let consequence = (&**t).to_text();
                r.append(consequence.as_str());
                r.append(", ");
                match &**a {
                    Some(x) => {
                        let alternative = x.to_text();
                        r.append(alternative.as_str());
                    },
                    None => {
                        r.append("None");
                    },
                }
                r.append(")");
                r
            },
            IrExpression::Call(f, arguments) => {
                let mut r = (&**f).to_text();
                r.append("(");
                let inner = expressions_to_text(arguments);
                r.append(inner.as_str());
                r.append(")");
                r
            },
            IrExpression::Index(l, i) => {
                let mut r = String::from_str("index(");
                let left = (&**l).to_text();
                r.append(left.as_str());
                r.append(", ");
                let index = (&**i).to_text();
                r.append(index.as_str());
                r.append(")");
                r
            },
            IrExpression::Prefix(op, right) => {
                let mut r = String::from_str("prefix(");
                let operator = op.to_text();
                r.append(operator.as_str());
                r.append(", ");
                let right = (&**right).to_text();
                r.append(right.as_str());
                r.append(")");
                r
            },
            IrExpression::Infix(op, left, right) => {
                let mut r = String::from_str("infix(");
                let operator = op.to_text();
                r.append(operator.as_str());
                r.append(", ");
                let left = (&**left).to_text();
                r.append(left.as_str());
                r.append(", ");
                let right = (&**right).to_text();
                r.append(right.as_str());
                r.append(")");
                r
            },
        }
    }
}

impl InstructionType {
    /// The text of what the instruction does.
    pub fn to_text(&self) -> (r: String)
        ensures
            r@ == instruction_type_text(self@),
        decreases self,
    {
        match self {
            InstructionType::StoreName(name, e) => {
                let mut r = String::from_str("store_identifier(");
                r.append(name.as_str());
                r.append(", ");
                let inner = e.to_text();
                r.append(inner.as_str());
                r.append(")");
                r
            },
            InstructionType::Return(e) => {
                let mut r = String::from_str("return(");
                let inner = e.to_text();
                r.append(inner.as_str());
                r.append(")");
                r
            },
            InstructionType::Expression(e) => {
                let mut r = String::from_str("expression(");
                let inner = e.to_text();
                r.append(inner.as_str());
                r.append(")");
                r
            },
            InstructionType::Nop => String::from_str("none"),
        }
    }
}

impl Instruction {
    /// The text of the instruction: that of what it does.
    pub fn to_text(&self) -> (r: String)
        ensures
            r@ == instruction_text(self@),
        decreases self,
    {
        self.instruction.to_text()
    }
}

} // verus!
