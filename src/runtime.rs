//! State of an execution: the program and its scopes.

use vstd::prelude::*;
use std::collections::HashMap;
use crate::ast;
use crate::value::Value;
use crate::value::sym::Symbol;

verus! {

pub struct Runtime {
    pub root_module: ast::Module,
}

/// The names visible in one lexical scope.
pub struct Scope {
    pub using: HashMap<Symbol, Value>,
    pub vars: HashMap<Symbol, Value>,
    pub consts: HashMap<Symbol, Value>,
}

} // verus!
