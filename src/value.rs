use vstd::prelude::*;
use crate::unit::FunctionContext;

verus! {

/// A runtime value. A function value refers to its compiled unit, which is
/// shared by every activation rather than copied.
#[derive(Debug)]
pub enum Value<'a> {
    Func(&'a FunctionContext),
    Bool(bool),
    Int(i64),
    String(String),
    Nil,
}

impl<'a> Value<'a> {
    /// A copy of the value; a function value shares its unit.
    pub fn duplicate(&self) -> (r: Value<'a>)
        ensures
            r == *self,
    {
        match self {
            Value::Func(u) => Value::Func(*u),
            Value::Bool(b) => Value::Bool(*b),
            Value::Int(i) => Value::Int(*i),
            Value::String(s) => Value::String(s.clone()),
            Value::Nil => Value::Nil,
        }
    }
}

} // verus!
