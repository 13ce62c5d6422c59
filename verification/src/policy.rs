//! Barrier checks on theorem claims and the ledger of failed strategies.
use crate::timestamp::UtcTimestamp;
use vstd::prelude::*;

verus! {

/// Checks claims against the known barriers.
#[derive(Debug, Clone, Copy, PartialEq, Eq, Structural)]
pub struct BarrierChecker;

impl BarrierChecker {
    pub fn new() -> (r: Self)
        ensures
            r == BarrierChecker,
    {
        BarrierChecker
    }
}

impl Default for BarrierChecker {
    fn default() -> (r: Self)
        ensures
            r == BarrierChecker,
    {
        BarrierChecker::new()
    }
}

/// Why a strategy was discarded.
#[derive(Debug, Clone, Copy, PartialEq, Eq, Structural)]
pub enum DeflationClass {
    EquivalentToTarget,
    KnownTheoremRestated,
    Tautological,
    Novel,
}

/// One discarded strategy.
pub struct FailureEntry {
    pub strategy_id: String,
    pub deflation_class: DeflationClass,
    pub kill_reason: String,
    pub validators: Vec<String>,
    pub timestamp: UtcTimestamp,
    pub source_campaign: String,
}

/// The ledger of discarded strategies; it keeps no entry.
#[derive(Debug, Clone, Copy, PartialEq, Eq, Structural)]
pub struct FailureLedger;

impl FailureLedger {
    pub fn new() -> (r: Self)
        ensures
            r == FailureLedger,
    {
        FailureLedger
    }

    /// Records an entry; the entry is accepted and dropped.
    pub fn add(&mut self, _entry: FailureEntry) -> (r: Result<(), ()>)
        ensures
            r == Ok::<(), ()>(()),
            *final(self) == *old(self),
    {
        Ok(())
    }
}

impl Default for FailureLedger {
    fn default() -> (r: Self)
        ensures
            r == FailureLedger,
    {
        FailureLedger::new()
    }
}

} // verus!
