//! Reports of the seam-integrity monitor.
use crate::metrics::ClaimOutcome;
use crate::veto::VetoDecision;
use vstd::prelude::*;

verus! {

/// What the monitor concluded about a claim, and how long it took.
#[derive(Debug, Clone, Copy, PartialEq, Eq, Structural)]
pub struct InspectionReport {
    pub final_outcome: ClaimOutcome,
    pub total_latency_us: u64,
}

/// A halted claim is vetoed; any other is allowed.
pub fn outcome_of(decision: VetoDecision) -> (r: ClaimOutcome)
    ensures
        r == (if decision == VetoDecision::Halt {
            ClaimOutcome::Vetoed
        } else {
            ClaimOutcome::Allowed
        }),
{
    if decision == VetoDecision::Halt {
        ClaimOutcome::Vetoed
    } else {
        ClaimOutcome::Allowed
    }
}

} // verus!
