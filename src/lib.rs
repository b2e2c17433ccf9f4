//! Front end and value model of a small scripting language: an automaton-driven
//! lexer, a constant folder over the syntax tree, and the runtime value model.

pub mod lexer;
pub mod ast;
pub mod value;
pub mod runtime;
