use arkhe::agent::{diagnose_fit, CalibrationStrategy};
use arkhe::evolution::EvolutionPipeline;
use arkhe::policy::{BarrierChecker, DeflationClass, FailureEntry, FailureLedger};
use arkhe::policy_legacy;
use arkhe::timestamp::UtcTimestamp;

fn entry() -> FailureEntry {
    FailureEntry {
        strategy_id: "s-1".to_string(),
        deflation_class: DeflationClass::Tautological,
        kill_reason: "restates the target".to_string(),
        validators: vec!["v1".to_string()],
        timestamp: UtcTimestamp { secs: 1_700_000_000, nanos: 5 },
        source_campaign: "c".to_string(),
    }
}

#[test]
fn ledger_accepts_entries() {
    let mut ledger = FailureLedger::new();
    assert_eq!(ledger.add(entry()), Ok(()));
    assert_eq!(FailureLedger::default(), FailureLedger);
    assert_eq!(BarrierChecker::new(), BarrierChecker::default());

    let old = policy_legacy::FailureLedger::new();
    old.add(policy_legacy::FailureEntry {
        strategy_id: "s-2".to_string(),
        deflation_class: policy_legacy::DeflationClass::Novel,
        kill_reason: String::new(),
        validators: Vec::new(),
        timestamp: UtcTimestamp { secs: 0, nanos: 0 },
        source_campaign: String::new(),
    });
    let _checker = policy_legacy::BarrierChecker::new();
}

#[test]
fn fit_diagnosis() {
    assert_eq!(diagnose_fit(true, false), Some(CalibrationStrategy::IncreaseThreshold));
    assert_eq!(diagnose_fit(true, true), Some(CalibrationStrategy::IncreaseThreshold));
    assert_eq!(diagnose_fit(false, true), Some(CalibrationStrategy::DecreaseThreshold));
    assert_eq!(diagnose_fit(false, false), None);
}

#[test]
fn pipeline_builds() {
    let _p = EvolutionPipeline::new("operator", 42u8, (), 3);
}
