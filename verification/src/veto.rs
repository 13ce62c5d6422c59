//! Decisions of the veto on a scored claim.
use vstd::prelude::*;

verus! {

/// Whether the veto halts a claim or lets it through.
#[derive(Debug, Clone, Copy, PartialEq, Eq, Structural)]
pub enum VetoDecision {
    Halt,
    Allow,
}

/// A veto decision and how long it took.
#[derive(Debug, Clone, Copy, PartialEq, Eq, Structural)]
pub struct VetoRationale {
    pub decision: VetoDecision,
    pub latency_us: u64,
}

} // verus!
