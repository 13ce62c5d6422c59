//! Confusion-matrix bookkeeping for claim-classification benchmarks.
use crate::metrics::ConsistencyClass;
use crate::symbolic::SymbolicExpr;
use vstd::prelude::*;

verus! {

/// Counts of a confusion matrix.
#[derive(Debug, Clone, Copy, PartialEq, Eq, Structural)]
pub struct ConfusionCounts {
    /// Risky claims halted.
    pub tp: usize,
    /// Safe claims allowed.
    pub tn: usize,
    /// Safe claims halted.
    pub fp: usize,
    /// Risky claims allowed.
    pub fn_count: usize,
}

/// The counts with every cell at zero.
pub open spec fn zero_counts() -> ConfusionCounts {
    ConfusionCounts { tp: 0, tn: 0, fp: 0, fn_count: 0 }
}

/// `c` with the cell of one sample, halted or not and risky or not, one higher.
pub open spec fn counted(c: ConfusionCounts, halted: bool, risky: bool) -> ConfusionCounts {
    if halted && risky {
        ConfusionCounts { tp: (c.tp + 1) as usize, ..c }
    } else if !halted && !risky {
        ConfusionCounts { tn: (c.tn + 1) as usize, ..c }
    } else if halted {
        ConfusionCounts { fp: (c.fp + 1) as usize, ..c }
    } else {
        ConfusionCounts { fn_count: (c.fn_count + 1) as usize, ..c }
    }
}

/// The cell that one sample falls in still has room for one more.
pub open spec fn has_room(c: ConfusionCounts, halted: bool, risky: bool) -> bool {
    if halted && risky {
        c.tp < usize::MAX
    } else if !halted && !risky {
        c.tn < usize::MAX
    } else if halted {
        c.fp < usize::MAX
    } else {
        c.fn_count < usize::MAX
    }
}

impl ConfusionCounts {
    /// The number of samples counted.
    pub open spec fn sum(&self) -> int {
        self.tp + self.tn + self.fp + self.fn_count
    }

    pub fn new() -> (c: Self)
        ensures
            c == zero_counts(),
    {
        ConfusionCounts { tp: 0, tn: 0, fp: 0, fn_count: 0 }
    }

    pub fn total(&self) -> (t: usize)
        requires
            self.sum() <= usize::MAX,
        ensures
            t == self.sum(),
    {
        self.tp + self.tn + self.fp + self.fn_count
    }
}

impl Default for ConfusionCounts {
    fn default() -> (c: Self)
        ensures
            c == zero_counts(),
    {
        ConfusionCounts::new()
    }
}

/// A claim and the ground truth about it.
pub struct ClassificationCase {
    pub claim: SymbolicExpr,
    pub ground_truth: ConsistencyClass,
}

/// The ground truth that a case built with `risky` carries.
pub open spec fn truth_of(risky: bool) -> ConsistencyClass {
    if risky {
        ConsistencyClass::Inconsistent
    } else {
        ConsistencyClass::Factual
    }
}

impl ClassificationCase {
    pub fn new(text: &str, risky: bool) -> (c: Self)
        ensures
            c.claim.text() == text@,
            c.ground_truth == truth_of(risky),
    {
        ClassificationCase {
            claim: SymbolicExpr::Claim(text.to_string()),
            ground_truth: if risky {
                ConsistencyClass::Inconsistent
            } else {
                ConsistencyClass::Factual
            },
        }
    }

    /// The abstract content of the case: its text and whether it is risky.
    pub open spec fn view_pair(&self) -> (Seq<char>, bool) {
        (self.claim.text(), self.ground_truth == ConsistencyClass::Inconsistent)
    }
}

/// The abstract content of a list of cases.
pub open spec fn cases_view(cases: Seq<ClassificationCase>) -> Seq<(Seq<char>, bool)> {
    cases.map_values(|c: ClassificationCase| c.view_pair())
}

/// The abstract content of a batch of (text, risky) pairs.
pub open spec fn batch_view(texts: Seq<(&str, bool)>) -> Seq<(Seq<char>, bool)> {
    texts.map_values(|t: (&str, bool)| (t.0@, t.1))
}

/// The confusion counts of samples whose halting decisions are `halts` and
/// whose ground truths are `risks`, taken pairwise.
pub open spec fn tally_counts(risks: Seq<bool>, halts: Seq<bool>) -> ConfusionCounts
    decreases risks.len(),
{
    if risks.len() == 0 || halts.len() == 0 {
        zero_counts()
    } else {
        counted(
            tally_counts(risks.drop_last(), halts.take(risks.len() - 1)),
            halts[risks.len() - 1],
            risks.last(),
        )
    }
}

/// The sum of a list of latencies.
pub open spec fn latency_sum(latencies: Seq<u64>) -> int
    decreases latencies.len(),
{
    if latencies.len() == 0 {
        0
    } else {
        latency_sum(latencies.drop_last()) + latencies.last()
    }
}

/// A list of classification cases.
pub struct ClassificationBenchmark {
    pub cases: Vec<ClassificationCase>,
}

impl ClassificationBenchmark {
    /// Whether each case is risky, in order.
    pub open spec fn risks(&self) -> Seq<bool> {
        self.cases@.map_values(|c: ClassificationCase| c.ground_truth == ConsistencyClass::Inconsistent)
    }

    pub fn new() -> (b: Self)
        ensures
            b.cases@.len() == 0,
    {
        ClassificationBenchmark { cases: Vec::new() }
    }

    pub fn add(&mut self, case: ClassificationCase)
        ensures
            final(self).cases@ == old(self).cases@.push(case),
    {
        self.cases.push(case);
    }

    /// Adds a case for each (text, risky) pair, in order.
    pub fn add_batch(&mut self, texts: &[(&str, bool)])
        ensures
            cases_view(final(self).cases@) == cases_view(old(self).cases@) + batch_view(texts@),
    {
        let ghost init = cases_view(self.cases@);
        let mut i: usize = 0;
        assert(texts@.take(0) =~= Seq::<(&str, bool)>::empty());
        assert(init + batch_view(texts@.take(0)) =~= init);
        while i < texts.len()
            invariant
                0 <= i <= texts@.len(),
                cases_view(self.cases@) == init + batch_view(texts@.take(i as int)),
            decreases texts@.len() - i,
        {
            let (text, risky): (&str, bool) = texts[i];
            let ghost before = self.cases@;
            self.add(ClassificationCase::new(text, risky));
            assert(cases_view(self.cases@) =~= cases_view(before).push((text@, risky)));
            assert(batch_view(texts@.take(i + 1)) =~= batch_view(texts@.take(i as int)).push((text@, risky)));
            i = i + 1;
        }
        assert(texts@.take(texts@.len() as int) =~= texts@);
    }

    /// Counts one sample in the cell that its decision and ground truth select.
    pub fn count_outcome(counts: &mut ConfusionCounts, outcome_is_halt: bool, truth_is_risk: bool)
        requires
            has_room(*old(counts), outcome_is_halt, truth_is_risk),
        ensures
            *final(counts) == counted(*old(counts), outcome_is_halt, truth_is_risk),
    {
        if outcome_is_halt && truth_is_risk {
            counts.tp = counts.tp + 1;
        } else if !outcome_is_halt && !truth_is_risk {
            counts.tn = counts.tn + 1;
        } else if outcome_is_halt {
            counts.fp = counts.fp + 1;
        } else {
            counts.fn_count = counts.fn_count + 1;
        }
    }

    /// Counts the cases against the halting decision and latency taken for
    /// each, in order. `None` when the latencies add up past `u64::MAX`.
    pub fn tally(&self, outcomes: &Vec<(bool, u64)>) -> (r: Option<(ConfusionCounts, u64)>)
        requires
            outcomes@.len() == self.cases@.len(),
        ensures
            r is None <==> latency_sum(outcomes@.map_values(|o: (bool, u64)| o.1)) > u64::MAX,
            r matches Some((c, l)) ==> {
                &&& c == tally_counts(self.risks(), outcomes@.map_values(|o: (bool, u64)| o.0))
                &&& l == latency_sum(outcomes@.map_values(|o: (bool, u64)| o.1))
            },
    {
        let ghost risks = self.risks();
        let ghost halts = outcomes@.map_values(|o: (bool, u64)| o.0);
        let ghost lats = outcomes@.map_values(|o: (bool, u64)| o.1);
        let mut counts = ConfusionCounts::new();
        let mut total_latency: u64 = 0;
        let mut i: usize = 0;
        assert(risks.take(0) =~= Seq::<bool>::empty());
        assert(lats.take(0) =~= Seq::<u64>::empty());
        while i < self.cases.len()
            invariant
                risks == self.risks(),
                halts == outcomes@.map_values(|o: (bool, u64)| o.0),
                lats == outcomes@.map_values(|o: (bool, u64)| o.1),
                outcomes@.len() == self.cases@.len(),
                0 <= i <= self.cases@.len(),
                counts == tally_counts(risks.take(i as int), halts.take(i as int)),
                counts.sum() == i,
                total_latency == latency_sum(lats.take(i as int)),
            decreases self.cases@.len() - i,
        {
            let (halted, latency): (bool, u64) = outcomes[i];
            let risky = self.cases[i].ground_truth.is_risk();
            assert(risks.take(i + 1).drop_last() =~= risks.take(i as int));
            assert(halts.take(i + 1).take(i as int) =~= halts.take(i as int));
            assert(lats.take(i + 1).drop_last() =~= lats.take(i as int));
            assert(risks.take(i + 1).last() == risky);
            assert(halts.take(i + 1)[i as int] == halted);
            assert(lats.take(i + 1).last() == latency);
            if latency > u64::MAX - total_latency {
                proof {
                    lemma_latency_sum_grows(lats, (i + 1) as int);
                }
                return None;
            }
            total_latency = total_latency + latency;
            Self::count_outcome(&mut counts, halted, risky);
            i = i + 1;
        }
        assert(risks.take(i as int) =~= risks);
        assert(halts.take(i as int) =~= halts);
        assert(lats.take(i as int) =~= lats);
        Some((counts, total_latency))
    }
}

/// Every sample lands in exactly one cell: the counts of `n` samples add up
/// to `n`.
pub proof fn lemma_tally_total(risks: Seq<bool>, halts: Seq<bool>)
    requires
        risks.len() == halts.len(),
        risks.len() <= usize::MAX,
    ensures
        tally_counts(risks, halts).sum() == risks.len(),
    decreases risks.len(),
{
    if risks.len() > 0 {
        lemma_tally_total(risks.drop_last(), halts.take(risks.len() - 1));
    }
}

/// When every risky sample is halted and every safe one allowed, there is no
/// false halt and no false allow.
pub proof fn lemma_tally_perfect(risks: Seq<bool>)
    requires
        risks.len() <= usize::MAX,
    ensures
        tally_counts(risks, risks).fp == 0,
        tally_counts(risks, risks).fn_count == 0,
        tally_counts(risks, risks).sum() == risks.len(),
    decreases risks.len(),
{
    if risks.len() > 0 {
        assert(risks.take(risks.len() - 1) =~= risks.drop_last());
        lemma_tally_perfect(risks.drop_last());
    }
}

/// Latencies only add up: the sum of a prefix is at most the sum of the whole.
pub proof fn lemma_latency_sum_grows(lats: Seq<u64>, k: int)
    requires
        0 <= k <= lats.len(),
    ensures
        latency_sum(lats.take(k)) <= latency_sum(lats),
    decreases lats.len() - k,
{
    if k < lats.len() {
        lemma_latency_sum_grows(lats, k + 1);
        assert(lats.take(k + 1).drop_last() =~= lats.take(k));
    } else {
        assert(lats.take(k) =~= lats);
    }
}

} // verus!
