use vstd::prelude::*;

verus! {

/// A byte offset into the source text.
#[derive(Debug, Clone, Copy, PartialEq, Eq, Structural)]
pub struct Location(pub u32);

impl Location {
    pub fn loc(self) -> (r: u32)
        ensures
            r == self.0,
    {
        self.0
    }
}

} // verus!
