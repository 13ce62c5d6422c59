//! Episode bookkeeping of the learning agent and the diagnosis of its fit.
use vstd::prelude::*;

verus! {

/// Metrics of one episode.
#[derive(Debug, Clone, Copy, PartialEq, Eq, Structural)]
pub struct EpisodeMetrics {}

/// Metrics of one claim.
#[derive(Debug, Clone, Copy, PartialEq, Eq, Structural)]
pub struct RealMetrics {}

/// The learning curve of the agent.
#[derive(Debug, Clone, Copy, PartialEq, Eq, Structural)]
pub struct LearningCurve {}

/// How the veto threshold should move after an episode.
#[derive(Debug, Clone, Copy, PartialEq, Eq, Structural)]
pub enum CalibrationStrategy {
    IncreaseThreshold,
    DecreaseThreshold,
}

/// The calibration that a fit diagnosis recommends: overfitting calls for a
/// higher threshold, underfitting (without overfitting) for a lower one,
/// and a healthy fit for none.
pub fn diagnose_fit(overfitting: bool, underfitting: bool) -> (r: Option<CalibrationStrategy>)
    ensures
        r == (if overfitting {
            Some(CalibrationStrategy::IncreaseThreshold)
        } else if underfitting {
            Some(CalibrationStrategy::DecreaseThreshold)
        } else {
            None
        }),
{
    if overfitting {
        Some(CalibrationStrategy::IncreaseThreshold)
    } else if underfitting {
        Some(CalibrationStrategy::DecreaseThreshold)
    } else {
        None
    }
}

} // verus!
