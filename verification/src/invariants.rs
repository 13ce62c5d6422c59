//! The built-in invariants of the safe manifold, one per operational limit.
use crate::symmetry::{
    half_toward_zero, lemma_manifold_membership, manifold_status, safe_state_of, Invariant,
    InvariantClass, ManifoldStatus, SystemConfig, SystemState,
};
use vstd::prelude::*;

verus! {

/// I-01: the token budget lies between zero and the configured maximum.
pub struct TokenBudgetInvariant;

impl Invariant for TokenBudgetInvariant {
    open spec fn name(&self) -> Seq<char> {
        "I-01"@
    }

    open spec fn class_of(&self) -> InvariantClass {
        InvariantClass::Critical
    }

    open spec fn holds(&self, state: SystemState) -> bool {
        0 <= state.token_budget <= state.config.max_tokens
    }

    fn id(&self) -> (r: &'static str) {
        "I-01"
    }

    fn class(&self) -> (c: InvariantClass) {
        InvariantClass::Critical
    }

    fn check(&self, state: &SystemState) -> (b: bool) {
        state.token_budget >= 0 && state.token_budget <= state.config.max_tokens
    }
}

/// I-02: no more agents run than the configured maximum.
pub struct AgentCountInvariant;

impl Invariant for AgentCountInvariant {
    open spec fn name(&self) -> Seq<char> {
        "I-02"@
    }

    open spec fn class_of(&self) -> InvariantClass {
        InvariantClass::High
    }

    open spec fn holds(&self, state: SystemState) -> bool {
        state.agent_count <= state.config.max_agents
    }

    fn id(&self) -> (r: &'static str) {
        "I-02"
    }

    fn class(&self) -> (c: InvariantClass) {
        InvariantClass::High
    }

    fn check(&self, state: &SystemState) -> (b: bool) {
        state.agent_count <= state.config.max_agents
    }
}

/// I-03: the sandbox has at least the configured minimum of fuel.
pub struct SandboxFuelInvariant;

impl Invariant for SandboxFuelInvariant {
    open spec fn name(&self) -> Seq<char> {
        "I-03"@
    }

    open spec fn class_of(&self) -> InvariantClass {
        InvariantClass::Critical
    }

    open spec fn holds(&self, state: SystemState) -> bool {
        state.sandbox_fuel >= state.config.min_fuel
    }

    fn id(&self) -> (r: &'static str) {
        "I-03"
    }

    fn class(&self) -> (c: InvariantClass) {
        InvariantClass::Critical
    }

    fn check(&self, state: &SystemState) -> (b: bool) {
        state.sandbox_fuel >= state.config.min_fuel
    }
}

/// I-04: the entropy pool holds at least the configured minimum of bits.
pub struct EntropyInvariant;

impl Invariant for EntropyInvariant {
    open spec fn name(&self) -> Seq<char> {
        "I-04"@
    }

    open spec fn class_of(&self) -> InvariantClass {
        InvariantClass::Critical
    }

    open spec fn holds(&self, state: SystemState) -> bool {
        state.entropy_bits >= state.config.min_entropy
    }

    fn id(&self) -> (r: &'static str) {
        "I-04"
    }

    fn class(&self) -> (c: InvariantClass) {
        InvariantClass::Critical
    }

    fn check(&self, state: &SystemState) -> (b: bool) {
        state.entropy_bits >= state.config.min_entropy
    }
}

/// I-05: personal data has been scrubbed.
pub struct PiiInvariant;

impl Invariant for PiiInvariant {
    open spec fn name(&self) -> Seq<char> {
        "I-05"@
    }

    open spec fn class_of(&self) -> InvariantClass {
        InvariantClass::Critical
    }

    open spec fn holds(&self, state: SystemState) -> bool {
        state.pii_scrubbed
    }

    fn id(&self) -> (r: &'static str) {
        "I-05"
    }

    fn class(&self) -> (c: InvariantClass) {
        InvariantClass::Critical
    }

    fn check(&self, state: &SystemState) -> (b: bool) {
        state.pii_scrubbed
    }
}

/// I-07: the rate limit is not overdrawn.
pub struct RateLimitInvariant;

impl Invariant for RateLimitInvariant {
    open spec fn name(&self) -> Seq<char> {
        "I-07"@
    }

    open spec fn class_of(&self) -> InvariantClass {
        InvariantClass::High
    }

    open spec fn holds(&self, state: SystemState) -> bool {
        state.rate_limit_remaining >= 0
    }

    fn id(&self) -> (r: &'static str) {
        "I-07"
    }

    fn class(&self) -> (c: InvariantClass) {
        InvariantClass::High
    }

    fn check(&self, state: &SystemState) -> (b: bool) {
        state.rate_limit_remaining >= 0
    }
}

/// I-08: the model has every capability bit that the task requires.
pub struct CapabilityInvariant;

impl Invariant for CapabilityInvariant {
    open spec fn name(&self) -> Seq<char> {
        "I-08"@
    }

    open spec fn class_of(&self) -> InvariantClass {
        InvariantClass::Critical
    }

    open spec fn holds(&self, state: SystemState) -> bool {
        state.model_capability & state.task_requirement == state.task_requirement
    }

    fn id(&self) -> (r: &'static str) {
        "I-08"
    }

    fn class(&self) -> (c: InvariantClass) {
        InvariantClass::Critical
    }

    fn check(&self, state: &SystemState) -> (b: bool) {
        (state.model_capability & state.task_requirement) == state.task_requirement
    }
}

/// One of the built-in invariants.
pub enum SafetyInvariant {
    TokenBudget(TokenBudgetInvariant),
    AgentCount(AgentCountInvariant),
    SandboxFuel(SandboxFuelInvariant),
    Entropy(EntropyInvariant),
    Pii(PiiInvariant),
    RateLimit(RateLimitInvariant),
    Capability(CapabilityInvariant),
}

impl Invariant for SafetyInvariant {
    open spec fn name(&self) -> Seq<char> {
        match self {
            SafetyInvariant::TokenBudget(i) => i.name(),
            SafetyInvariant::AgentCount(i) => i.name(),
            SafetyInvariant::SandboxFuel(i) => i.name(),
            SafetyInvariant::Entropy(i) => i.name(),
            SafetyInvariant::Pii(i) => i.name(),
            SafetyInvariant::RateLimit(i) => i.name(),
            SafetyInvariant::Capability(i) => i.name(),
        }
    }

    open spec fn class_of(&self) -> InvariantClass {
        match self {
            SafetyInvariant::TokenBudget(i) => i.class_of(),
            SafetyInvariant::AgentCount(i) => i.class_of(),
            SafetyInvariant::SandboxFuel(i) => i.class_of(),
            SafetyInvariant::Entropy(i) => i.class_of(),
            SafetyInvariant::Pii(i) => i.class_of(),
            SafetyInvariant::RateLimit(i) => i.class_of(),
            SafetyInvariant::Capability(i) => i.class_of(),
        }
    }

    open spec fn holds(&self, state: SystemState) -> bool {
        match self {
            SafetyInvariant::TokenBudget(i) => i.holds(state),
            SafetyInvariant::AgentCount(i) => i.holds(state),
            SafetyInvariant::SandboxFuel(i) => i.holds(state),
            SafetyInvariant::Entropy(i) => i.holds(state),
            SafetyInvariant::Pii(i) => i.holds(state),
            SafetyInvariant::RateLimit(i) => i.holds(state),
            SafetyInvariant::Capability(i) => i.holds(state),
        }
    }

    fn id(&self) -> (r: &'static str) {
        match self {
            SafetyInvariant::TokenBudget(i) => i.id(),
            SafetyInvariant::AgentCount(i) => i.id(),
            SafetyInvariant::SandboxFuel(i) => i.id(),
            SafetyInvariant::Entropy(i) => i.id(),
            SafetyInvariant::Pii(i) => i.id(),
            SafetyInvariant::RateLimit(i) => i.id(),
            SafetyInvariant::Capability(i) => i.id(),
        }
    }

    fn class(&self) -> (c: InvariantClass) {
        match self {
            SafetyInvariant::TokenBudget(i) => i.class(),
            SafetyInvariant::AgentCount(i) => i.class(),
            SafetyInvariant::SandboxFuel(i) => i.class(),
            SafetyInvariant::Entropy(i) => i.class(),
            SafetyInvariant::Pii(i) => i.class(),
            SafetyInvariant::RateLimit(i) => i.class(),
            SafetyInvariant::Capability(i) => i.class(),
        }
    }

    fn check(&self, state: &SystemState) -> (b: bool) {
        match self {
            SafetyInvariant::TokenBudget(i) => i.check(state),
            SafetyInvariant::AgentCount(i) => i.check(state),
            SafetyInvariant::SandboxFuel(i) => i.check(state),
            SafetyInvariant::Entropy(i) => i.check(state),
            SafetyInvariant::Pii(i) => i.check(state),
            SafetyInvariant::RateLimit(i) => i.check(state),
            SafetyInvariant::Capability(i) => i.check(state),
        }
    }
}

/// The built-in invariants, in the order of their identifiers.
pub open spec fn builtin_invariants() -> Seq<SafetyInvariant> {
    seq![
        SafetyInvariant::TokenBudget(TokenBudgetInvariant),
        SafetyInvariant::AgentCount(AgentCountInvariant),
        SafetyInvariant::SandboxFuel(SandboxFuelInvariant),
        SafetyInvariant::Entropy(EntropyInvariant),
        SafetyInvariant::Pii(PiiInvariant),
        SafetyInvariant::RateLimit(RateLimitInvariant),
        SafetyInvariant::Capability(CapabilityInvariant),
    ]
}

/// The built-in invariants, in the order of their identifiers.
pub fn all_invariants() -> (v: Vec<SafetyInvariant>)
    ensures
        v@ == builtin_invariants(),
        v@ == seq![
            SafetyInvariant::TokenBudget(TokenBudgetInvariant),
            SafetyInvariant::AgentCount(AgentCountInvariant),
            SafetyInvariant::SandboxFuel(SandboxFuelInvariant),
            SafetyInvariant::Entropy(EntropyInvariant),
            SafetyInvariant::Pii(PiiInvariant),
            SafetyInvariant::RateLimit(RateLimitInvariant),
            SafetyInvariant::Capability(CapabilityInvariant),
        ],
{
    let mut v: Vec<SafetyInvariant> = Vec::new();
    v.push(SafetyInvariant::TokenBudget(TokenBudgetInvariant));
    v.push(SafetyInvariant::AgentCount(AgentCountInvariant));
    v.push(SafetyInvariant::SandboxFuel(SandboxFuelInvariant));
    v.push(SafetyInvariant::Entropy(EntropyInvariant));
    v.push(SafetyInvariant::Pii(PiiInvariant));
    v.push(SafetyInvariant::RateLimit(RateLimitInvariant));
    v.push(SafetyInvariant::Capability(CapabilityInvariant));
    assert(v@ =~= seq![
        SafetyInvariant::TokenBudget(TokenBudgetInvariant),
        SafetyInvariant::AgentCount(AgentCountInvariant),
        SafetyInvariant::SandboxFuel(SandboxFuelInvariant),
        SafetyInvariant::Entropy(EntropyInvariant),
        SafetyInvariant::Pii(PiiInvariant),
        SafetyInvariant::RateLimit(RateLimitInvariant),
        SafetyInvariant::Capability(CapabilityInvariant),
    ]);
    v
}


/// Every bit of `req` set also in `cap`, over all 64 bits, is the same as
/// `cap & req == req`.
pub proof fn lemma_bits_covered(cap: u64, req: u64)
    ensures
        (cap & req == req) <==> forall|b: u64|
            #![trigger (req >> b)]
            b < 64 ==> ((req >> b) & 1u64 == 1u64 ==> (cap >> b) & 1u64 == 1u64),
{
    if cap & req == req {
        assert forall|b: u64| #![trigger (req >> b)] b < 64 implies ((req >> b) & 1u64 == 1u64 ==> (cap >> b) & 1u64 == 1u64) by {
            assert((req >> b) & 1u64 == 1u64 ==> (cap >> b) & 1u64 == 1u64) by (bit_vector)
                requires
                    cap & req == req,
                    b < 64,
            ;
        }
    }
    if forall|b: u64|
        #![trigger (req >> b)]
        b < 64 ==> ((req >> b) & 1u64 == 1u64 ==> (cap >> b) & 1u64 == 1u64) {
        assert((req >> 0u64) & 1u64 == 1u64 ==> (cap >> 0u64) & 1u64 == 1u64);
        assert((req >> 1u64) & 1u64 == 1u64 ==> (cap >> 1u64) & 1u64 == 1u64);
        assert((req >> 2u64) & 1u64 == 1u64 ==> (cap >> 2u64) & 1u64 == 1u64);
        assert((req >> 3u64) & 1u64 == 1u64 ==> (cap >> 3u64) & 1u64 == 1u64);
        assert((req >> 4u64) & 1u64 == 1u64 ==> (cap >> 4u64) & 1u64 == 1u64);
        assert((req >> 5u64) & 1u64 == 1u64 ==> (cap >> 5u64) & 1u64 == 1u64);
        assert((req >> 6u64) & 1u64 == 1u64 ==> (cap >> 6u64) & 1u64 == 1u64);
        assert((req >> 7u64) & 1u64 == 1u64 ==> (cap >> 7u64) & 1u64 == 1u64);
        assert((req >> 8u64) & 1u64 == 1u64 ==> (cap >> 8u64) & 1u64 == 1u64);
        assert((req >> 9u64) & 1u64 == 1u64 ==> (cap >> 9u64) & 1u64 == 1u64);
        assert((req >> 10u64) & 1u64 == 1u64 ==> (cap >> 10u64) & 1u64 == 1u64);
        assert((req >> 11u64) & 1u64 == 1u64 ==> (cap >> 11u64) & 1u64 == 1u64);
        assert((req >> 12u64) & 1u64 == 1u64 ==> (cap >> 12u64) & 1u64 == 1u64);
        assert((req >> 13u64) & 1u64 == 1u64 ==> (cap >> 13u64) & 1u64 == 1u64);
        assert((req >> 14u64) & 1u64 == 1u64 ==> (cap >> 14u64) & 1u64 == 1u64);
        assert((req >> 15u64) & 1u64 == 1u64 ==> (cap >> 15u64) & 1u64 == 1u64);
        assert((req >> 16u64) & 1u64 == 1u64 ==> (cap >> 16u64) & 1u64 == 1u64);
        assert((req >> 17u64) & 1u64 == 1u64 ==> (cap >> 17u64) & 1u64 == 1u64);
        assert((req >> 18u64) & 1u64 == 1u64 ==> (cap >> 18u64) & 1u64 == 1u64);
        assert((req >> 19u64) & 1u64 == 1u64 ==> (cap >> 19u64) & 1u64 == 1u64);
        assert((req >> 20u64) & 1u64 == 1u64 ==> (cap >> 20u64) & 1u64 == 1u64);
        assert((req >> 21u64) & 1u64 == 1u64 ==> (cap >> 21u64) & 1u64 == 1u64);
        assert((req >> 22u64) & 1u64 == 1u64 ==> (cap >> 22u64) & 1u64 == 1u64);
        assert((req >> 23u64) & 1u64 == 1u64 ==> (cap >> 23u64) & 1u64 == 1u64);
        assert((req >> 24u64) & 1u64 == 1u64 ==> (cap >> 24u64) & 1u64 == 1u64);
        assert((req >> 25u64) & 1u64 == 1u64 ==> (cap >> 25u64) & 1u64 == 1u64);
        assert((req >> 26u64) & 1u64 == 1u64 ==> (cap >> 26u64) & 1u64 == 1u64);
        assert((req >> 27u64) & 1u64 == 1u64 ==> (cap >> 27u64) & 1u64 == 1u64);
        assert((req >> 28u64) & 1u64 == 1u64 ==> (cap >> 28u64) & 1u64 == 1u64);
        assert((req >> 29u64) & 1u64 == 1u64 ==> (cap >> 29u64) & 1u64 == 1u64);
        assert((req >> 30u64) & 1u64 == 1u64 ==> (cap >> 30u64) & 1u64 == 1u64);
        assert((req >> 31u64) & 1u64 == 1u64 ==> (cap >> 31u64) & 1u64 == 1u64);
        assert((req >> 32u64) & 1u64 == 1u64 ==> (cap >> 32u64) & 1u64 == 1u64);
        assert((req >> 33u64) & 1u64 == 1u64 ==> (cap >> 33u64) & 1u64 == 1u64);
        assert((req >> 34u64) & 1u64 == 1u64 ==> (cap >> 34u64) & 1u64 == 1u64);
        assert((req >> 35u64) & 1u64 == 1u64 ==> (cap >> 35u64) & 1u64 == 1u64);
        assert((req >> 36u64) & 1u64 == 1u64 ==> (cap >> 36u64) & 1u64 == 1u64);
        assert((req >> 37u64) & 1u64 == 1u64 ==> (cap >> 37u64) & 1u64 == 1u64);
        assert((req >> 38u64) & 1u64 == 1u64 ==> (cap >> 38u64) & 1u64 == 1u64);
        assert((req >> 39u64) & 1u64 == 1u64 ==> (cap >> 39u64) & 1u64 == 1u64);
        assert((req >> 40u64) & 1u64 == 1u64 ==> (cap >> 40u64) & 1u64 == 1u64);
        assert((req >> 41u64) & 1u64 == 1u64 ==> (cap >> 41u64) & 1u64 == 1u64);
        assert((req >> 42u64) & 1u64 == 1u64 ==> (cap >> 42u64) & 1u64 == 1u64);
        assert((req >> 43u64) & 1u64 == 1u64 ==> (cap >> 43u64) & 1u64 == 1u64);
        assert((req >> 44u64) & 1u64 == 1u64 ==> (cap >> 44u64) & 1u64 == 1u64);
        assert((req >> 45u64) & 1u64 == 1u64 ==> (cap >> 45u64) & 1u64 == 1u64);
        assert((req >> 46u64) & 1u64 == 1u64 ==> (cap >> 46u64) & 1u64 == 1u64);
        assert((req >> 47u64) & 1u64 == 1u64 ==> (cap >> 47u64) & 1u64 == 1u64);
        assert((req >> 48u64) & 1u64 == 1u64 ==> (cap >> 48u64) & 1u64 == 1u64);
        assert((req >> 49u64) & 1u64 == 1u64 ==> (cap >> 49u64) & 1u64 == 1u64);
        assert((req >> 50u64) & 1u64 == 1u64 ==> (cap >> 50u64) & 1u64 == 1u64);
        assert((req >> 51u64) & 1u64 == 1u64 ==> (cap >> 51u64) & 1u64 == 1u64);
        assert((req >> 52u64) & 1u64 == 1u64 ==> (cap >> 52u64) & 1u64 == 1u64);
        assert((req >> 53u64) & 1u64 == 1u64 ==> (cap >> 53u64) & 1u64 == 1u64);
        assert((req >> 54u64) & 1u64 == 1u64 ==> (cap >> 54u64) & 1u64 == 1u64);
        assert((req >> 55u64) & 1u64 == 1u64 ==> (cap >> 55u64) & 1u64 == 1u64);
        assert((req >> 56u64) & 1u64 == 1u64 ==> (cap >> 56u64) & 1u64 == 1u64);
        assert((req >> 57u64) & 1u64 == 1u64 ==> (cap >> 57u64) & 1u64 == 1u64);
        assert((req >> 58u64) & 1u64 == 1u64 ==> (cap >> 58u64) & 1u64 == 1u64);
        assert((req >> 59u64) & 1u64 == 1u64 ==> (cap >> 59u64) & 1u64 == 1u64);
        assert((req >> 60u64) & 1u64 == 1u64 ==> (cap >> 60u64) & 1u64 == 1u64);
        assert((req >> 61u64) & 1u64 == 1u64 ==> (cap >> 61u64) & 1u64 == 1u64);
        assert((req >> 62u64) & 1u64 == 1u64 ==> (cap >> 62u64) & 1u64 == 1u64);
        assert((req >> 63u64) & 1u64 == 1u64 ==> (cap >> 63u64) & 1u64 == 1u64);
        assert(cap & req == req) by (bit_vector)
            requires
            (req >> 0u64) & 1u64 == 1u64 ==> (cap >> 0u64) & 1u64 == 1u64,
            (req >> 1u64) & 1u64 == 1u64 ==> (cap >> 1u64) & 1u64 == 1u64,
            (req >> 2u64) & 1u64 == 1u64 ==> (cap >> 2u64) & 1u64 == 1u64,
            (req >> 3u64) & 1u64 == 1u64 ==> (cap >> 3u64) & 1u64 == 1u64,
            (req >> 4u64) & 1u64 == 1u64 ==> (cap >> 4u64) & 1u64 == 1u64,
            (req >> 5u64) & 1u64 == 1u64 ==> (cap >> 5u64) & 1u64 == 1u64,
            (req >> 6u64) & 1u64 == 1u64 ==> (cap >> 6u64) & 1u64 == 1u64,
            (req >> 7u64) & 1u64 == 1u64 ==> (cap >> 7u64) & 1u64 == 1u64,
            (req >> 8u64) & 1u64 == 1u64 ==> (cap >> 8u64) & 1u64 == 1u64,
            (req >> 9u64) & 1u64 == 1u64 ==> (cap >> 9u64) & 1u64 == 1u64,
            (req >> 10u64) & 1u64 == 1u64 ==> (cap >> 10u64) & 1u64 == 1u64,
            (req >> 11u64) & 1u64 == 1u64 ==> (cap >> 11u64) & 1u64 == 1u64,
            (req >> 12u64) & 1u64 == 1u64 ==> (cap >> 12u64) & 1u64 == 1u64,
            (req >> 13u64) & 1u64 == 1u64 ==> (cap >> 13u64) & 1u64 == 1u64,
            (req >> 14u64) & 1u64 == 1u64 ==> (cap >> 14u64) & 1u64 == 1u64,
            (req >> 15u64) & 1u64 == 1u64 ==> (cap >> 15u64) & 1u64 == 1u64,
            (req >> 16u64) & 1u64 == 1u64 ==> (cap >> 16u64) & 1u64 == 1u64,
            (req >> 17u64) & 1u64 == 1u64 ==> (cap >> 17u64) & 1u64 == 1u64,
            (req >> 18u64) & 1u64 == 1u64 ==> (cap >> 18u64) & 1u64 == 1u64,
            (req >> 19u64) & 1u64 == 1u64 ==> (cap >> 19u64) & 1u64 == 1u64,
            (req >> 20u64) & 1u64 == 1u64 ==> (cap >> 20u64) & 1u64 == 1u64,
            (req >> 21u64) & 1u64 == 1u64 ==> (cap >> 21u64) & 1u64 == 1u64,
            (req >> 22u64) & 1u64 == 1u64 ==> (cap >> 22u64) & 1u64 == 1u64,
            (req >> 23u64) & 1u64 == 1u64 ==> (cap >> 23u64) & 1u64 == 1u64,
            (req >> 24u64) & 1u64 == 1u64 ==> (cap >> 24u64) & 1u64 == 1u64,
            (req >> 25u64) & 1u64 == 1u64 ==> (cap >> 25u64) & 1u64 == 1u64,
            (req >> 26u64) & 1u64 == 1u64 ==> (cap >> 26u64) & 1u64 == 1u64,
            (req >> 27u64) & 1u64 == 1u64 ==> (cap >> 27u64) & 1u64 == 1u64,
            (req >> 28u64) & 1u64 == 1u64 ==> (cap >> 28u64) & 1u64 == 1u64,
            (req >> 29u64) & 1u64 == 1u64 ==> (cap >> 29u64) & 1u64 == 1u64,
            (req >> 30u64) & 1u64 == 1u64 ==> (cap >> 30u64) & 1u64 == 1u64,
            (req >> 31u64) & 1u64 == 1u64 ==> (cap >> 31u64) & 1u64 == 1u64,
            (req >> 32u64) & 1u64 == 1u64 ==> (cap >> 32u64) & 1u64 == 1u64,
            (req >> 33u64) & 1u64 == 1u64 ==> (cap >> 33u64) & 1u64 == 1u64,
            (req >> 34u64) & 1u64 == 1u64 ==> (cap >> 34u64) & 1u64 == 1u64,
            (req >> 35u64) & 1u64 == 1u64 ==> (cap >> 35u64) & 1u64 == 1u64,
            (req >> 36u64) & 1u64 == 1u64 ==> (cap >> 36u64) & 1u64 == 1u64,
            (req >> 37u64) & 1u64 == 1u64 ==> (cap >> 37u64) & 1u64 == 1u64,
            (req >> 38u64) & 1u64 == 1u64 ==> (cap >> 38u64) & 1u64 == 1u64,
            (req >> 39u64) & 1u64 == 1u64 ==> (cap >> 39u64) & 1u64 == 1u64,
            (req >> 40u64) & 1u64 == 1u64 ==> (cap >> 40u64) & 1u64 == 1u64,
            (req >> 41u64) & 1u64 == 1u64 ==> (cap >> 41u64) & 1u64 == 1u64,
            (req >> 42u64) & 1u64 == 1u64 ==> (cap >> 42u64) & 1u64 == 1u64,
            (req >> 43u64) & 1u64 == 1u64 ==> (cap >> 43u64) & 1u64 == 1u64,
            (req >> 44u64) & 1u64 == 1u64 ==> (cap >> 44u64) & 1u64 == 1u64,
            (req >> 45u64) & 1u64 == 1u64 ==> (cap >> 45u64) & 1u64 == 1u64,
            (req >> 46u64) & 1u64 == 1u64 ==> (cap >> 46u64) & 1u64 == 1u64,
            (req >> 47u64) & 1u64 == 1u64 ==> (cap >> 47u64) & 1u64 == 1u64,
            (req >> 48u64) & 1u64 == 1u64 ==> (cap >> 48u64) & 1u64 == 1u64,
            (req >> 49u64) & 1u64 == 1u64 ==> (cap >> 49u64) & 1u64 == 1u64,
            (req >> 50u64) & 1u64 == 1u64 ==> (cap >> 50u64) & 1u64 == 1u64,
            (req >> 51u64) & 1u64 == 1u64 ==> (cap >> 51u64) & 1u64 == 1u64,
            (req >> 52u64) & 1u64 == 1u64 ==> (cap >> 52u64) & 1u64 == 1u64,
            (req >> 53u64) & 1u64 == 1u64 ==> (cap >> 53u64) & 1u64 == 1u64,
            (req >> 54u64) & 1u64 == 1u64 ==> (cap >> 54u64) & 1u64 == 1u64,
            (req >> 55u64) & 1u64 == 1u64 ==> (cap >> 55u64) & 1u64 == 1u64,
            (req >> 56u64) & 1u64 == 1u64 ==> (cap >> 56u64) & 1u64 == 1u64,
            (req >> 57u64) & 1u64 == 1u64 ==> (cap >> 57u64) & 1u64 == 1u64,
            (req >> 58u64) & 1u64 == 1u64 ==> (cap >> 58u64) & 1u64 == 1u64,
            (req >> 59u64) & 1u64 == 1u64 ==> (cap >> 59u64) & 1u64 == 1u64,
            (req >> 60u64) & 1u64 == 1u64 ==> (cap >> 60u64) & 1u64 == 1u64,
            (req >> 61u64) & 1u64 == 1u64 ==> (cap >> 61u64) & 1u64 == 1u64,
            (req >> 62u64) & 1u64 == 1u64 ==> (cap >> 62u64) & 1u64 == 1u64,
            (req >> 63u64) & 1u64 == 1u64 ==> (cap >> 63u64) & 1u64 == 1u64,
        ;
    }
}

/// I-01 is critical and holds exactly when the token budget lies between
/// zero and the configured maximum, both included.
pub proof fn lemma_token_budget_law(s: SystemState)
    ensures
        TokenBudgetInvariant.holds(s) <==> (0 <= s.token_budget && s.token_budget <= s.config.max_tokens),
        TokenBudgetInvariant.class_of() == InvariantClass::Critical,
        TokenBudgetInvariant.name() == seq!['I', '-', '0', '1'],
{
    reveal_strlit("I-01");
}

/// I-02 is of high class and holds exactly when no more agents run than the
/// configured maximum.
pub proof fn lemma_agent_count_law(s: SystemState)
    ensures
        AgentCountInvariant.holds(s) <==> s.agent_count <= s.config.max_agents,
        AgentCountInvariant.class_of() == InvariantClass::High,
        AgentCountInvariant.name() == seq!['I', '-', '0', '2'],
{
    reveal_strlit("I-02");
}

/// I-03 is critical and holds exactly when the sandbox fuel reaches the
/// configured minimum; adding fuel never breaks it.
pub proof fn lemma_sandbox_fuel_law(s: SystemState, t: SystemState)
    ensures
        SandboxFuelInvariant.holds(s) <==> s.sandbox_fuel >= s.config.min_fuel,
        SandboxFuelInvariant.class_of() == InvariantClass::Critical,
        SandboxFuelInvariant.name() == seq!['I', '-', '0', '3'],
        SandboxFuelInvariant.holds(s) && t.config.min_fuel == s.config.min_fuel && t.sandbox_fuel
            >= s.sandbox_fuel ==> SandboxFuelInvariant.holds(t),
{
    reveal_strlit("I-03");
}

/// I-04 is critical and holds exactly when the entropy reaches the configured
/// minimum, with no upper bound: more entropy never breaks it.
pub proof fn lemma_entropy_law(s: SystemState, t: SystemState)
    ensures
        EntropyInvariant.holds(s) <==> s.entropy_bits >= s.config.min_entropy,
        EntropyInvariant.class_of() == InvariantClass::Critical,
        EntropyInvariant.name() == seq!['I', '-', '0', '4'],
        EntropyInvariant.holds(s) && t.config.min_entropy == s.config.min_entropy && t.entropy_bits
            >= s.entropy_bits ==> EntropyInvariant.holds(t),
{
    reveal_strlit("I-04");
}

/// I-05 is critical and holds exactly when personal data is scrubbed,
/// whatever every other field of the state is.
pub proof fn lemma_pii_law(s: SystemState, t: SystemState)
    ensures
        PiiInvariant.holds(s) <==> s.pii_scrubbed,
        PiiInvariant.class_of() == InvariantClass::Critical,
        PiiInvariant.name() == seq!['I', '-', '0', '5'],
        s.pii_scrubbed == t.pii_scrubbed ==> PiiInvariant.holds(s) == PiiInvariant.holds(t),
{
    reveal_strlit("I-05");
}

/// I-07 is of high class and holds exactly when the remaining rate limit is
/// not negative.
pub proof fn lemma_rate_limit_law(s: SystemState)
    ensures
        RateLimitInvariant.holds(s) <==> s.rate_limit_remaining >= 0,
        RateLimitInvariant.class_of() == InvariantClass::High,
        RateLimitInvariant.name() == seq!['I', '-', '0', '7'],
{
    reveal_strlit("I-07");
}

/// I-08 is critical and holds exactly when every bit set in the task
/// requirement is set in the model capability, over all 64 bits.
pub proof fn lemma_capability_law(s: SystemState)
    ensures
        CapabilityInvariant.holds(s) <==> forall|b: u64|
            #![trigger (s.task_requirement >> b)]
            b < 64 ==> ((s.task_requirement >> b) & 1u64 == 1u64 ==> (s.model_capability >> b) & 1u64
                == 1u64),
        CapabilityInvariant.class_of() == InvariantClass::Critical,
        CapabilityInvariant.name() == seq!['I', '-', '0', '8'],
{
    reveal_strlit("I-08");
    lemma_bits_covered(s.model_capability, s.task_requirement);
}

/// Each entry of the built-in list holds exactly when its own limit is met,
/// and carries the identifier and class of the invariant it wraps.
pub proof fn lemma_builtin_entries(s: SystemState)
    ensures
        SafetyInvariant::TokenBudget(TokenBudgetInvariant).holds(s) <==> (0 <= s.token_budget
            && s.token_budget <= s.config.max_tokens),
        SafetyInvariant::AgentCount(AgentCountInvariant).holds(s) <==> s.agent_count
            <= s.config.max_agents,
        SafetyInvariant::SandboxFuel(SandboxFuelInvariant).holds(s) <==> s.sandbox_fuel
            >= s.config.min_fuel,
        SafetyInvariant::Entropy(EntropyInvariant).holds(s) <==> s.entropy_bits
            >= s.config.min_entropy,
        SafetyInvariant::Pii(PiiInvariant).holds(s) <==> s.pii_scrubbed,
        SafetyInvariant::RateLimit(RateLimitInvariant).holds(s) <==> s.rate_limit_remaining >= 0,
        SafetyInvariant::Capability(CapabilityInvariant).holds(s) <==> forall|b: u64|
            #![trigger (s.task_requirement >> b)]
            b < 64 ==> ((s.task_requirement >> b) & 1u64 == 1u64 ==> (s.model_capability >> b) & 1u64
                == 1u64),
        SafetyInvariant::TokenBudget(TokenBudgetInvariant).class_of() == InvariantClass::Critical,
        SafetyInvariant::AgentCount(AgentCountInvariant).class_of() == InvariantClass::High,
        SafetyInvariant::SandboxFuel(SandboxFuelInvariant).class_of() == InvariantClass::Critical,
        SafetyInvariant::Entropy(EntropyInvariant).class_of() == InvariantClass::Critical,
        SafetyInvariant::Pii(PiiInvariant).class_of() == InvariantClass::Critical,
        SafetyInvariant::RateLimit(RateLimitInvariant).class_of() == InvariantClass::High,
        SafetyInvariant::Capability(CapabilityInvariant).class_of() == InvariantClass::Critical,
{
    lemma_token_budget_law(s);
    lemma_agent_count_law(s);
    lemma_sandbox_fuel_law(s, s);
    lemma_entropy_law(s, s);
    lemma_pii_law(s, s);
    lemma_rate_limit_law(s);
    lemma_capability_law(s);
}

/// Under the built-in invariants a state is outside the manifold exactly
/// when its token budget leaves [0, max_tokens], its fuel is below the
/// minimum, its entropy is below the minimum, personal data is not scrubbed,
/// or the model lacks a required capability bit; it is inside exactly when,
/// besides, the agents are within their maximum and the rate limit is not
/// overdrawn.
pub proof fn lemma_builtin_manifold(s: SystemState)
    ensures
        (manifold_status(builtin_invariants(), s) == ManifoldStatus::Outside) <==> (!(0
            <= s.token_budget && s.token_budget <= s.config.max_tokens) || s.sandbox_fuel
            < s.config.min_fuel || s.entropy_bits < s.config.min_entropy || !s.pii_scrubbed
            || s.model_capability & s.task_requirement != s.task_requirement),
        (manifold_status(builtin_invariants(), s) == ManifoldStatus::Inside) <==> (0 <= s.token_budget
            && s.token_budget <= s.config.max_tokens && s.agent_count <= s.config.max_agents
            && s.sandbox_fuel >= s.config.min_fuel && s.entropy_bits >= s.config.min_entropy
            && s.pii_scrubbed && s.rate_limit_remaining >= 0 && s.model_capability
            & s.task_requirement == s.task_requirement),
{
    let invs = builtin_invariants();
    lemma_builtin_entries(s);
    lemma_bits_covered(s.model_capability, s.task_requirement);
    lemma_manifold_membership(invs, s);
    assert(invs[0] == SafetyInvariant::TokenBudget(TokenBudgetInvariant));
    assert(invs[1] == SafetyInvariant::AgentCount(AgentCountInvariant));
    assert(invs[2] == SafetyInvariant::SandboxFuel(SandboxFuelInvariant));
    assert(invs[3] == SafetyInvariant::Entropy(EntropyInvariant));
    assert(invs[4] == SafetyInvariant::Pii(PiiInvariant));
    assert(invs[5] == SafetyInvariant::RateLimit(RateLimitInvariant));
    assert(invs[6] == SafetyInvariant::Capability(CapabilityInvariant));
    assert(invs.len() == 7);
}

/// The state in the middle of the limits of `config` is inside the manifold
/// of the built-in invariants whenever the limits leave room for it: a
/// non-negative token maximum, half the sandbox fuel maximum at least the
/// fuel minimum, and a rate limit maximum of at least -1.
pub proof fn lemma_safe_state_inside(config: SystemConfig)
    requires
        config.min_entropy * 2 <= u32::MAX,
        config.max_tokens >= 0,
        half_toward_zero(config.max_sandbox_fuel as int) >= config.min_fuel,
        config.max_rate_limit >= -1,
    ensures
        manifold_status(builtin_invariants(), safe_state_of(config)) == ManifoldStatus::Inside,
{
    let s = safe_state_of(config);
    let invs = builtin_invariants();
    assert(0xFFFF_FFFF_FFFF_FFFFu64 & 0xFFu64 == 0xFFu64) by (bit_vector);
    assert forall|i: int| 0 <= i < invs.len() implies (#[trigger] invs[i]).holds(s) by {
        assert(invs[0] == SafetyInvariant::TokenBudget(TokenBudgetInvariant));
        assert(invs[6] == SafetyInvariant::Capability(CapabilityInvariant));
    }
    lemma_manifold_membership(invs, s);
}

} // verus!
