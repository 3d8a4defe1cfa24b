use vstd::prelude::*;

use crate::error::LoxResult;

verus! {

/// A runtime value of the language. Numbers are exact 64-bit integers.
#[derive(Clone, Debug, PartialEq)]
pub enum Value {
    Nil,
    Boolean(bool),
    Number(i64),
    String(String),
}

/// What a value is: the value with its string as a sequence of characters.
pub enum Val {
    Nil,
    Boolean(bool),
    Number(i64),
    Text(Seq<char>),
}

impl View for Value {
    type V = Val;

    open spec fn view(&self) -> Val {
        match self {
            Value::Nil => Val::Nil,
            Value::Boolean(b) => Val::Boolean(*b),
            Value::Number(n) => Val::Number(*n),
            Value::String(s) => Val::Text(s@),
        }
    }
}

/// What a possibly absent result is.
pub open spec fn model(o: Option<Value>) -> Option<Val> {
    match o {
        Some(v) => Some(v@),
        None => None,
    }
}

/// What a fallible, possibly absent result is.
pub open spec fn result_model(r: LoxResult<Option<Value>>) -> LoxResult<Option<Val>> {
    match r {
        Ok(o) => Ok(model(o)),
        Err(e) => Err(e),
    }
}

/// Truthiness: `Nil` and `false` are falsy, every other value is truthy.
pub open spec fn truthy(v: Val) -> bool {
    match v {
        Val::Nil => false,
        Val::Boolean(b) => b,
        _ => true,
    }
}

/// Equality of two possibly absent results: present values are equal when they
/// are of one kind with equal contents; two absent results are never equal.
pub open spec fn results_equal(a: Option<Val>, b: Option<Val>) -> bool {
    a is Some && a == b
}

impl Value {
    /// A copy of this value.
    pub fn duplicate(&self) -> (r: Value)
        ensures
            r == *self,
    {
        match self {
            Value::Nil => Value::Nil,
            Value::Boolean(b) => Value::Boolean(*b),
            Value::Number(n) => Value::Number(*n),
            Value::String(s) => Value::String(s.clone()),
        }
    }
}

/// A copy of a possibly absent value.
pub fn duplicate_result(v: &Option<Value>) -> (r: Option<Value>)
    ensures
        r == *v,
{
    match v {
        Some(x) => Some(x.duplicate()),
        None => None,
    }
}

/// Whether a value counts as true in a condition.
pub fn is_truthy(object: &Value) -> (r: bool)
    ensures
        r == truthy(object@),
{
    match object {
        Value::Nil => false,
        Value::Boolean(b) => *b,
        _ => true,
    }
}

/// The language's `==` on two possibly absent results.
pub fn is_equal(a: &Option<Value>, b: &Option<Value>) -> (r: bool)
    ensures
        r == results_equal(model(*a), model(*b)),
{
    match (a, b) {
        (Some(x), Some(y)) => match (x, y) {
            (Value::Nil, Value::Nil) => true,
            (Value::Boolean(p), Value::Boolean(q)) => *p == *q,
            (Value::Number(p), Value::Number(q)) => *p == *q,
            (Value::String(s), Value::String(t)) => *s == *t,
            _ => false,
        },
        _ => false,
    }
}

} // verus!
