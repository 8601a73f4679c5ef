//! A small statically typed expression language. A syntax tree is lowered
//! to a tree of instructions and checked for types on the way; a
//! tree-walking interpreter evaluates the instructions over a chain of
//! lexical environments.
//!
//! `lowering` and `semantics` define what the compiler and the interpreter
//! compute; `compiler` and `interpreter` compute it. `laws`, `positions`,
//! `purity`, `scoping` and `settling` hold what is proved of every program.

pub mod ast;
pub mod builtin;
pub mod compiler;
pub mod environment;
pub mod error;
pub mod instruction;
pub mod interpreter;
pub mod laws;
pub mod lowering;
pub mod number;
pub mod position;
pub mod positions;
pub mod purity;
pub mod render;
pub mod scoping;
pub mod semantics;
pub mod settling;
pub mod symbol_table;
pub mod text;
pub mod token;
pub mod types;
