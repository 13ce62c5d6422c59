use arkhe::bench::{ClassificationBenchmark, ClassificationCase, ConfusionCounts};
use arkhe::metrics::{ClaimOutcome, ConsistencyClass};
use arkhe::seam::outcome_of;
use arkhe::symbolic::{InMemoryIRP, SymbolicExpr};
use arkhe::veto::{VetoDecision, VetoRationale};

fn counts(tp: usize, tn: usize, fp: usize, fn_count: usize) -> ConfusionCounts {
    ConfusionCounts { tp, tn, fp, fn_count }
}

#[test]
fn count_outcome_fills_each_cell() {
    let mut c = ConfusionCounts::new();
    ClassificationBenchmark::count_outcome(&mut c, true, true);
    ClassificationBenchmark::count_outcome(&mut c, true, true);
    ClassificationBenchmark::count_outcome(&mut c, false, false);
    ClassificationBenchmark::count_outcome(&mut c, false, false);
    assert_eq!(c, counts(2, 2, 0, 0));
    ClassificationBenchmark::count_outcome(&mut c, true, false);
    ClassificationBenchmark::count_outcome(&mut c, false, true);
    assert_eq!(c, counts(2, 2, 1, 1));
    assert_eq!(c.total(), 6);
}

#[test]
fn new_and_default_counts_are_zero() {
    assert_eq!(ConfusionCounts::new(), counts(0, 0, 0, 0));
    assert_eq!(ConfusionCounts::default(), counts(0, 0, 0, 0));
    assert_eq!(ConfusionCounts::new().total(), 0);
}

#[test]
fn cases_carry_text_and_truth() {
    let c = ClassificationCase::new("risky claim", true);
    assert!(matches!(&c.claim, SymbolicExpr::Claim(t) if t == "risky claim"));
    assert_eq!(c.ground_truth, ConsistencyClass::Inconsistent);
    let c = ClassificationCase::new("safe claim", false);
    assert_eq!(c.ground_truth, ConsistencyClass::Factual);
    assert!(ConsistencyClass::Inconsistent.is_risk());
    assert!(!ConsistencyClass::Factual.is_risk());
}

#[test]
fn add_batch_appends_in_order() {
    let mut bench = ClassificationBenchmark::new();
    bench.add(ClassificationCase::new("first", false));
    bench.add_batch(&[("second", true), ("third", false)]);
    let texts: Vec<String> = bench
        .cases
        .iter()
        .map(|c| match &c.claim {
            SymbolicExpr::Claim(t) => t.clone(),
        })
        .collect();
    assert_eq!(texts, vec!["first", "second", "third"]);
    let truths: Vec<bool> = bench.cases.iter().map(|c| c.ground_truth.is_risk()).collect();
    assert_eq!(truths, vec![false, true, false]);
}

fn four_cases() -> ClassificationBenchmark {
    let mut bench = ClassificationBenchmark::new();
    bench.add_batch(&[
        ("safe claim 1", false),
        ("safe claim 2", false),
        ("risky claim 1", true),
        ("risky claim 2", true),
    ]);
    bench
}

#[test]
fn tally_of_a_perfect_veto() {
    let bench = four_cases();
    let outcomes = vec![(false, 10), (false, 10), (true, 10), (true, 10)];
    let (c, latency) = bench.tally(&outcomes).unwrap();
    assert_eq!(c, counts(2, 2, 0, 0));
    assert_eq!(latency, 40);
}

#[test]
fn tally_of_a_veto_that_allows_everything() {
    let bench = four_cases();
    let outcomes = vec![(false, 100), (false, 100), (false, 100), (false, 100)];
    let (c, latency) = bench.tally(&outcomes).unwrap();
    assert_eq!(c, counts(0, 2, 0, 2));
    assert_eq!(c.total(), 4);
    assert_eq!(latency, 400);
}

#[test]
fn tally_of_a_mixed_veto() {
    let bench = four_cases();
    let outcomes = vec![(true, 1), (false, 2), (false, 3), (true, 4)];
    let (c, latency) = bench.tally(&outcomes).unwrap();
    assert_eq!(c, counts(1, 1, 1, 1));
    assert_eq!(latency, 10);
}

#[test]
fn tally_reports_latency_overflow() {
    let bench = four_cases();
    let outcomes = vec![(true, u64::MAX), (false, 0), (false, 1), (true, 0)];
    assert_eq!(bench.tally(&outcomes), None);
    let outcomes = vec![(true, u64::MAX - 1), (false, 0), (false, 1), (true, 0)];
    assert_eq!(bench.tally(&outcomes).unwrap().1, u64::MAX);
}

#[test]
fn tally_of_no_case() {
    let bench = ClassificationBenchmark::new();
    assert_eq!(bench.tally(&Vec::new()), Some((counts(0, 0, 0, 0), 0)));
}

#[test]
fn halted_claims_are_vetoed() {
    assert_eq!(outcome_of(VetoDecision::Halt), ClaimOutcome::Vetoed);
    assert_eq!(outcome_of(VetoDecision::Allow), ClaimOutcome::Allowed);
    let r = VetoRationale { decision: VetoDecision::Allow, latency_us: 10 };
    assert_eq!(outcome_of(r.decision), ClaimOutcome::Allowed);
    let _irp = InMemoryIRP::new();
    let _irp2 = InMemoryIRP::default();
}
