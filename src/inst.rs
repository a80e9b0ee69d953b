use vstd::prelude::*;

verus! {

/// One bytecode instruction.
///
/// Jump offsets are forward distances counted from the jump instruction
/// itself: a jump at position `p` with offset `k` lands on `p + k`.
#[derive(Debug)]
pub enum Inst {
    /// Push an integer literal.
    PushInt(i64),
    /// Push a string literal.
    PushStr(String),
    /// Resolve a name in the environment and push what it denotes.
    Get(String),
    /// Pop a function, then as many arguments as the count given, and enter
    /// it; the count must equal the function's number of parameters.
    Call(usize),
    Add,
    Sub,
    Mul,
    Div,
    Eq,
    Ne,
    /// Pop a boolean; on `false` jump forward by the offset, else fall through.
    Jne(usize),
    /// Jump forward by the offset unconditionally.
    Jmp(usize),
    /// Leave the current function.
    Ret,
}

/// An instruction sequence.
#[derive(Debug)]
pub struct Code(pub Vec<Inst>);

impl Code {
    pub open spec fn view(&self) -> Seq<Inst> {
        self.0@
    }

    pub fn get(&mut self, idx: usize) -> (r: Option<&Inst>)
        ensures
            *final(self) == *old(self),
            idx < old(self).0@.len() ==> r == Some(&old(self).0@[idx as int]),
            idx >= old(self).0@.len() ==> r.is_none(),
    {
        if idx < self.0.len() {
            Some(&self.0[idx])
        } else {
            None
        }
    }

    pub fn get_mut(&mut self, idx: usize) -> (r: Option<&mut Inst>)
        ensures
            idx < old(self).0@.len() ==> r is Some && *r->Some_0 == old(self).0@[idx as int]
                && final(self).0@ == old(self).0@.update(idx as int, *final(r->Some_0)),
            idx >= old(self).0@.len() ==> r.is_none() && *final(self) == *old(self),
    {
        if idx < self.0.len() {
            Some(&mut self.0[idx])
        } else {
            None
        }
    }

    pub fn len(&self) -> (r: usize)
        ensures
            r == self.0@.len(),
    {
        self.0.len()
    }
}

} // verus!
