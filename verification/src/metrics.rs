//! Ground-truth classes of claims and the outcomes of inspecting them.
use vstd::prelude::*;

verus! {

/// The ground truth about a claim.
#[derive(Debug, Clone, Copy, PartialEq, Eq, Structural)]
pub enum ConsistencyClass {
    Inconsistent,
    Factual,
}

impl ConsistencyClass {
    /// An inconsistent claim is a risk.
    pub fn is_risk(&self) -> (r: bool)
        ensures
            r == (*self == ConsistencyClass::Inconsistent),
    {
        match self {
            ConsistencyClass::Inconsistent => true,
            ConsistencyClass::Factual => false,
        }
    }
}

/// What became of an inspected claim.
#[derive(Debug, Clone, Copy, PartialEq, Eq, Structural)]
pub enum ClaimOutcome {
    Vetoed,
    Allowed,
}

} // verus!
