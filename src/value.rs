//! The runtime value model: values, and their projection into map keys.

use vstd::prelude::*;
use std::collections::HashMap;
use std::rc::Rc;
use crate::ast;
use crate::value::object::Object;
use crate::value::shared::{share_rc, shared_ref, Shared, SharedRef};
use crate::value::simd::SimdValue;
use crate::value::sym::Symbol;

pub mod object;
pub mod shared;
pub mod simd;
pub mod sym;

verus! {

/// A value usable as a map key: scalars by value, shared containers by
/// identity.
#[derive(Clone, Debug, PartialEq, Eq, Hash, PartialOrd, Ord)]
pub enum ValueKey {
    Integer(i64),
    String(Rc<String>),
    Symbol(Symbol),
    Shared(SharedRef),
}

/// A runtime value. Values holding a `Shared` handle are owners of the
/// allocation it names.
#[derive(Debug)]
pub enum Value {
    Nil,
    Integer(i64),
    /// A double-precision number, held as its IEEE 754 bit pattern.
    Float(u64),
    String(Rc<String>),
    Symbol(Symbol),
    Object(Shared<Object>),
    Table(Shared<HashMap<ValueKey, Value>>),
    Array(Shared<Vec<Value>>),
    Simd(Box<SimdValue>),
    PlainFunction(Rc<ast::Function>),
}

/// The key a value projects to, where it has one.
pub open spec fn key_of(value: Value) -> Option<ValueKey> {
    match value {
        Value::Integer(i) => Some(ValueKey::Integer(i)),
        Value::String(s) => Some(ValueKey::String(s)),
        Value::Symbol(s) => Some(ValueKey::Symbol(s)),
        Value::Object(o) => Some(ValueKey::Shared(shared_ref(o))),
        Value::Table(t) => Some(ValueKey::Shared(shared_ref(t))),
        Value::Array(a) => Some(ValueKey::Shared(shared_ref(a))),
        _ => None,
    }
}

impl Clone for Value {
    /// Another owner of what `self` owns: shared handles and strings are
    /// shared, not copied.
    fn clone(&self) -> (r: Self)
        ensures
            r == *self,
    {
        match self {
            Value::Nil => Value::Nil,
            Value::Integer(i) => Value::Integer(*i),
            Value::Float(b) => Value::Float(*b),
            Value::String(s) => Value::String(share_rc(s)),
            Value::Symbol(s) => Value::Symbol(*s),
            Value::Object(o) => Value::Object(o.clone()),
            Value::Table(t) => Value::Table(t.clone()),
            Value::Array(a) => Value::Array(a.clone()),
            Value::Simd(v) => Value::Simd(Box::new(**v)),
            Value::PlainFunction(f) => Value::PlainFunction(share_rc(f)),
        }
    }
}

impl ValueKey {
    /// The key of `value`: integers, strings and symbols by value; objects,
    /// tables and arrays by the identity of their allocation. Nil, floats,
    /// vectors and functions are not keys.
    pub fn create(value: &Value) -> (r: Result<ValueKey, &'static str>)
        ensures
            match r {
                Ok(k) => key_of(*value) == Some(k),
                Err(_) => key_of(*value) is None,
            },
            r matches Err(e) ==> {
                &&& value is Nil ==> e@ == "nil cannot be used as a table key"@
                &&& value is Float ==> e@ == "floats cannot be used as a table key"@
                &&& value is Simd ==> e@ == "SIMD values cannot be used as a table key"@
                &&& value is PlainFunction ==> e@ == "Functions may not be used as table keys"@
            },
    {
        match value {
            Value::Integer(i) => Ok(ValueKey::Integer(*i)),
            Value::String(s) => Ok(ValueKey::String(share_rc(s))),
            Value::Symbol(s) => Ok(ValueKey::Symbol(*s)),
            Value::Object(o) => Ok(ValueKey::Shared(SharedRef::from(o))),
            Value::Table(t) => Ok(ValueKey::Shared(SharedRef::from(t))),
            Value::Array(a) => Ok(ValueKey::Shared(SharedRef::from(a))),
            Value::Nil => Err("nil cannot be used as a table key"),
            Value::Float(_) => Err("floats cannot be used as a table key"),
            Value::Simd(_) => Err("SIMD values cannot be used as a table key"),
            Value::PlainFunction(_) => Err("Functions may not be used as table keys"),
        }
    }
}

} // verus!
