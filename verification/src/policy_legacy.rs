//! The first revision of the barrier checker and the failure ledger.
use crate::timestamp::UtcTimestamp;
use vstd::prelude::*;

verus! {

/// Checks claims against the known barriers.
pub struct BarrierChecker;

impl BarrierChecker {
    pub fn new() -> (r: Self)
        ensures
            r == BarrierChecker,
    {
        BarrierChecker
    }
}

/// Why a strategy was discarded.
#[derive(Debug, Clone, Copy, PartialEq, Eq, Structural)]
pub enum DeflationClass {
    Novel,
    EquivalentToTarget,
    KnownTheoremRestated,
    Tautological,
}

/// One discarded strategy.
pub struct FailureEntry {
    pub strategy_id: String,
    pub deflation_class: DeflationClass,
    pub kill_reason: String,
    pub validators: Vec<String>,
    pub timestamp: UtcTimestamp,
    pub source_campaign: String,
}

/// The ledger of discarded strategies; it keeps no entry.
pub struct FailureLedger;

impl FailureLedger {
    pub fn new() -> (r: Self)
        ensures
            r == FailureLedger,
    {
        FailureLedger
    }

    /// Records an entry; the entry is accepted and dropped.
    pub fn add(&self, _entry: FailureEntry) {
    }
}

} // verus!
