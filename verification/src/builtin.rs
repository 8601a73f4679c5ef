//! The registry of native functions. A call of a name that no frame binds
//! goes to the registry. A native function gets the values of its arguments
//! and gives a value; what it reports it appends to the output of the run.

use crate::instruction::{values_view, LiteralValue, ValueView};
use vstd::prelude::*;

verus! {

/// A native function.
#[derive(Clone, Copy, Debug, PartialEq, Eq, Structural)]
pub enum Builtin {
    /// Appends its arguments to the output, in order, and gives `false`.
    Log,
    /// Gives the name of the kind of its first argument.
    TypeOf,
}

/// The name under which `Builtin::Log` is registered.
pub open spec fn log_name() -> Seq<char> {
    seq!['l', 'o', 'g']
}

/// The name under which `Builtin::TypeOf` is registered.
pub open spec fn typeof_name() -> Seq<char> {
    seq!['t', 'y', 'p', 'e', 'o', 'f']
}

/// The native function registered under `name`.
pub open spec fn builtin_named(name: Seq<char>) -> Option<Builtin> {
    if name == log_name() {
        Some(Builtin::Log)
    } else if name == typeof_name() {
        Some(Builtin::TypeOf)
    } else {
        None
    }
}

/// The name of the kind of a value.
pub open spec fn kind_name(v: ValueView) -> Seq<char> {
    match v {
        ValueView::Number(_) => seq!['n', 'u', 'm', 'b', 'e', 'r'],
        ValueView::String(_) => seq!['s', 't', 'r', 'i', 'n', 'g'],
        ValueView::Boolean(_) => seq!['b', 'o', 'o', 'l', 'e', 'a', 'n'],
        ValueView::Array(_) => seq!['a', 'r', 'r', 'a', 'y'],
        ValueView::Object(_) => seq!['o', 'b', 'j', 'e', 'c', 't'],
        ValueView::Function(_, _, _, _, _) => seq!['f', 'u', 'n', 'c', 't', 'i', 'o', 'n'],
    }
}

impl Builtin {
    /// The value that the function gives for the arguments.
    pub open spec fn value(self, arguments: Seq<ValueView>) -> ValueView {
        match self {
            Builtin::Log => ValueView::Boolean(false),
            Builtin::TypeOf => if arguments.len() == 0 {
                ValueView::Boolean(false)
            } else {
                ValueView::String(kind_name(arguments[0]))
            },
        }
    }

    /// The output after the function was called with the arguments.
    pub open spec fn output(self, arguments: Seq<ValueView>, out: Seq<ValueView>) -> Seq<ValueView> {
        match self {
            Builtin::Log => out + arguments,
            Builtin::TypeOf => out,
        }
    }

    /// Calls the function.
    pub fn call(&self, arguments: Vec<LiteralValue>, out: &mut Vec<LiteralValue>) -> (r: LiteralValue)
        ensures
            r@ == self.value(values_view(arguments@)),
            values_view(final(out)@) == self.output(values_view(arguments@), values_view(old(out)@)),
    {
        match self {
            Builtin::Log => {
                let mut arguments = arguments;
                let ghost before = values_view(out@);
                let ghost given = values_view(arguments@);
                out.append(&mut arguments);
                assert(values_view(out@) =~= before + given);
                LiteralValue::Boolean(false)
            },
            Builtin::TypeOf => {
                if arguments.len() == 0 {
                    LiteralValue::Boolean(false)
                } else {
                    LiteralValue::String(kind_of(&arguments[0]))
                }
            },
        }
    }
}

/// The name of the kind of a value.
pub fn kind_of(v: &LiteralValue) -> (r: String)
    ensures
        r@ == kind_name(v@),
{
    let name = match v {
        LiteralValue::Number(_) => {
            proof { reveal_strlit("number"); }
            "number"
        },
        LiteralValue::String(_) => {
            proof { reveal_strlit("string"); }
            "string"
        },
        LiteralValue::Boolean(_) => {
            proof { reveal_strlit("boolean"); }
            "boolean"
        },
        LiteralValue::Array(_) => {
            proof { reveal_strlit("array"); }
            "array"
        },
        LiteralValue::Object(_) => {
            proof { reveal_strlit("object"); }
            "object"
        },
        LiteralValue::Function(_, _, _, _) => {
            proof { reveal_strlit("function"); }
            "function"
        },
    };
    assert(name@ =~= kind_name(v@));
    String::from_str(name)
}

/// The native function registered under `name`, if there is one.
pub fn get_builtin(name: &String) -> (r: Option<Builtin>)
    ensures
        r == builtin_named(name@),
{
    proof {
        reveal_strlit("log");
        reveal_strlit("typeof");
    }
    let log = String::from_str("log");
    let type_of = String::from_str("typeof");
    assert(log@ =~= log_name());
    assert(type_of@ =~= typeof_name());
    if *name == log {
        Some(Builtin::Log)
    } else if *name == type_of {
        Some(Builtin::TypeOf)
    } else {
        None
    }
}

} // verus!
