//! The evolution pipeline.
use vstd::prelude::*;

verus! {

/// The pipeline that evolves strategies inside a sandbox; it holds no state.
pub struct EvolutionPipeline {}

impl EvolutionPipeline {
    /// Builds a pipeline from an operator, a sandbox, a version manager and
    /// a retry bound; none of them is kept.
    pub fn new<O, S>(_operator: O, _sandbox: S, _version_manager: (), _max_retries: usize) -> (r: Self)
        ensures
            r == (EvolutionPipeline {}),
    {
        EvolutionPipeline {}
    }
}

} // verus!
