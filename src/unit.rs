use vstd::prelude::*;
use crate::inst::{Code, Inst};

verus! {

/// A compiled function unit: the top-level program or one function literal.
#[derive(Debug)]
pub struct FunctionContext {
    pub name: String,
    pub param_names: Vec<String>,
    pub code: Code,
    pub children: Vec<FunctionContext>,
}

impl Default for FunctionContext {
    fn default() -> (r: Self)
        ensures
            r.name@ == Seq::<char>::empty(),
            r.param_names@.len() == 0,
            r.code.0@.len() == 0,
            r.children@.len() == 0,
    {
        Self::new()
    }
}

impl FunctionContext {
    /// An empty unit with no name, no parameters, no code and no children.
    pub fn new() -> (r: Self)
        ensures
            r.name@ == Seq::<char>::empty(),
            r.param_names@.len() == 0,
            r.code.0@.len() == 0,
            r.children@.len() == 0,
    {
        FunctionContext { name: String::new(), param_names: Vec::new(), code: Code(Vec::new()), children: Vec::new() }
    }

    pub fn push(&mut self, inst: Inst)
        ensures
            final(self).code.0@ == old(self).code.0@.push(inst),
            final(self).name == old(self).name,
            final(self).param_names == old(self).param_names,
            final(self).children == old(self).children,
    {
        self.code.0.push(inst)
    }

    pub fn add_child(&mut self, ctx: Self)
        ensures
            final(self).children@ == old(self).children@.push(ctx),
            final(self).name == old(self).name,
            final(self).param_names == old(self).param_names,
            final(self).code == old(self).code,
    {
        self.children.push(ctx)
    }
}

} // verus!
