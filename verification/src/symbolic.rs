//! Symbolic claims and the in-memory store of their witnesses.
use vstd::prelude::*;

verus! {

/// A symbolic expression under inspection.
#[derive(Debug, Clone)]
pub enum SymbolicExpr {
    Claim(String),
}

impl SymbolicExpr {
    /// The text of the claim.
    pub open spec fn text(&self) -> Seq<char> {
        match self {
            SymbolicExpr::Claim(s) => s@,
        }
    }
}

/// An in-memory store of witnesses; it keeps none of them.
pub struct InMemoryIRP {}

impl InMemoryIRP {
    pub fn new() -> (r: Self)
        ensures
            r == (InMemoryIRP {}),
    {
        InMemoryIRP {}
    }
}

impl Default for InMemoryIRP {
    fn default() -> (r: Self)
        ensures
            r == (InMemoryIRP {}),
    {
        Self::new()
    }
}

} // verus!
