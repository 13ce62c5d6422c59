//! Safety manifold checks, claim-classification benchmarks and hypergraph
//! neighbourhood queries, with their contracts proved by Verus.
pub mod hypergraph;
pub mod qpl;
pub mod symmetry;
pub mod invariants;
pub mod calibration;
pub mod symbolic;
pub mod metrics;
pub mod bench;
pub mod veto;
pub mod seam;
pub mod agent;
pub mod timestamp;
pub mod policy;
pub mod policy_legacy;
pub mod evolution;
