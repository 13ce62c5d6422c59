//! Activation regimes for calibrated scores.
use vstd::prelude::*;

verus! {

/// The activation applied to a raw score.
#[derive(Debug, Clone, Copy, PartialEq, Eq, Structural)]
pub enum ActivationRegime {
    ReLU,
    Sigmoid,
    Tanh,
    Hard,
}

} // verus!
