use arkhe::invariants::{
    all_invariants, AgentCountInvariant, CapabilityInvariant, EntropyInvariant, PiiInvariant,
    RateLimitInvariant, SandboxFuelInvariant, TokenBudgetInvariant,
};
use arkhe::symmetry::{
    Invariant, InvariantClass, ManifoldResult, SymmetryGenerator, SystemConfig, SystemState,
    TransitionSafety, ViolationType,
};

fn safe_state() -> SystemState {
    SystemState::safe(SystemConfig::default())
}

fn generator() -> SymmetryGenerator {
    SymmetryGenerator::new(all_invariants(), SystemConfig::default())
}

#[test]
fn test_safe_state_is_inside() {
    let gen = generator();
    let state = safe_state();
    assert_eq!(gen.is_in_manifold(&state), ManifoldResult::Inside);
}

#[test]
fn test_critical_violation_is_outside() {
    let gen = generator();
    let mut state = safe_state();
    state.token_budget = -1;

    let result = gen.is_in_manifold(&state);
    assert!(matches!(result, ManifoldResult::Outside { violation: ViolationType::Critical { .. }, .. }));
}

#[test]
fn test_high_violation_is_degraded() {
    let gen = generator();
    let mut state = safe_state();
    state.agent_count = state.config.max_agents + 1;

    let result = gen.is_in_manifold(&state);
    assert!(matches!(result, ManifoldResult::Degraded(_)));
}

#[test]
fn test_preserves_manifold_safe() {
    let gen = generator();
    let from = safe_state();
    let mut to = safe_state();
    to.token_budget = 4000;

    assert_eq!(gen.preserves_manifold(&from, &to), TransitionSafety::Safe);
}

#[test]
fn test_critical_escape_transition() {
    let gen = generator();
    let from = safe_state();
    let mut to = safe_state();
    to.token_budget = -1;

    let result = gen.preserves_manifold(&from, &to);
    assert!(matches!(result, TransitionSafety::CriticalEscape { .. }));
}

#[test]
fn test_degraded_to_degraded_transition() {
    let gen = generator();
    let mut from = safe_state();
    from.agent_count = from.config.max_agents + 1;
    let mut to = safe_state();
    to.rate_limit_remaining = -1;

    let result = gen.preserves_manifold(&from, &to);
    assert!(matches!(result, TransitionSafety::Degraded { .. }));
}

#[test]
fn test_cascade_failure_transition() {
    let gen = generator();
    let mut from = safe_state();
    from.agent_count = from.config.max_agents + 1;
    let mut to = safe_state();
    to.token_budget = -1;

    let result = gen.preserves_manifold(&from, &to);
    assert!(matches!(result, TransitionSafety::CascadeFailure { .. }));
}

#[test]
fn test_recovery_transition() {
    let gen = generator();
    let mut from = safe_state();
    from.token_budget = -1;
    let to = safe_state();

    let result = gen.preserves_manifold(&from, &to);
    assert_eq!(result, TransitionSafety::Recovery);
}

#[test]
fn test_unsafe_transition() {
    let gen = generator();
    let mut from = safe_state();
    from.token_budget = -1;
    let mut to = safe_state();
    to.token_budget = -1;

    let result = gen.preserves_manifold(&from, &to);
    assert!(matches!(result, TransitionSafety::Unsafe { .. }));
}

#[test]
fn safe_state_takes_the_middle_of_the_limits() {
    let s = safe_state();
    assert_eq!(s.config, SystemConfig::default());
    assert_eq!(s.token_budget, 5000);
    assert_eq!(s.agent_count, 5);
    assert_eq!(s.sandbox_fuel, 500);
    assert_eq!(s.entropy_bits, 512);
    assert!(s.pii_scrubbed);
    assert!(s.signature_valid);
    assert_eq!(s.rate_limit_remaining, 50);
    assert_eq!(s.model_capability, u64::MAX);
    assert_eq!(s.task_requirement, 0xFF);
}

#[test]
fn safe_state_halves_toward_zero() {
    let mut c = SystemConfig::default();
    c.max_tokens = -3;
    c.max_rate_limit = 7;
    let s = SystemState::safe(c);
    assert_eq!(s.token_budget, -1);
    assert_eq!(s.rate_limit_remaining, 3);
}

#[test]
fn default_config_values() {
    let c = SystemConfig::default();
    assert_eq!(c.max_tokens, 10_000);
    assert_eq!(c.max_agents, 10);
    assert_eq!(c.min_fuel, 100);
    assert_eq!(c.min_entropy, 256);
    assert_eq!(c.max_rate_limit, 100);
    assert_eq!(c.max_sandbox_fuel, 1_000);
}

#[test]
fn outside_lists_every_failed_critical_invariant_in_order() {
    let gen = generator();
    let mut state = safe_state();
    state.token_budget = 20_000;
    state.pii_scrubbed = false;
    state.task_requirement = 0;
    state.model_capability = 0;
    state.agent_count = 99;
    match gen.is_in_manifold(&state) {
        ManifoldResult::Outside { violation, state: s } => {
            assert_eq!(
                violation,
                ViolationType::Critical { invariant_ids: vec!["I-01".to_string(), "I-05".to_string()] }
            );
            assert_eq!(violation.invariant_id(), "I-01,I-05");
            assert_eq!(s, state);
        }
        other => panic!("expected Outside, got {:?}", other),
    }
}

#[test]
fn degraded_lists_every_failed_non_critical_invariant() {
    let gen = generator();
    let mut state = safe_state();
    state.agent_count = 11;
    state.rate_limit_remaining = -5;
    assert_eq!(
        gen.is_in_manifold(&state),
        ManifoldResult::Degraded(vec![
            ("I-02".to_string(), InvariantClass::High),
            ("I-07".to_string(), InvariantClass::High),
        ])
    );
}

#[test]
fn transition_payloads() {
    let gen = generator();
    let from = safe_state();
    let mut to = safe_state();
    to.agent_count = 11;
    assert_eq!(
        gen.preserves_manifold(&from, &to),
        TransitionSafety::Degraded {
            violations: vec!["I-02".to_string()],
            warning: "Transition resulted in degraded state".to_string(),
        }
    );
    assert_eq!(
        gen.preserves_manifold(&to, &to),
        TransitionSafety::Degraded {
            violations: vec!["I-02".to_string()],
            warning: "State remains degraded".to_string(),
        }
    );
    let mut out = safe_state();
    out.entropy_bits = 0;
    assert_eq!(
        gen.preserves_manifold(&from, &out),
        TransitionSafety::CriticalEscape {
            violation: ViolationType::Critical { invariant_ids: vec!["I-04".to_string()] },
            state: out,
        }
    );
    assert_eq!(
        gen.preserves_manifold(&to, &out),
        TransitionSafety::CascadeFailure {
            violation: ViolationType::Critical { invariant_ids: vec!["I-04".to_string()] },
        }
    );
    assert_eq!(gen.preserves_manifold(&to, &from), TransitionSafety::Recovery);
    assert_eq!(
        gen.preserves_manifold(&out, &to),
        TransitionSafety::Unsafe {
            reason: "Initial state is outside the manifold (requires recovery)".to_string(),
        }
    );
}

#[test]
fn empty_generator_keeps_everything_inside() {
    let gen: SymmetryGenerator<TokenBudgetInvariant> = SymmetryGenerator::new(Vec::new(), SystemConfig::default());
    let mut state = safe_state();
    state.token_budget = -1;
    assert_eq!(gen.is_in_manifold(&state), ManifoldResult::Inside);
    assert_eq!(gen.invariants().len(), 0);
}

#[test]
fn invariant_ids_join_with_commas() {
    assert_eq!(ViolationType::Critical { invariant_ids: vec![] }.invariant_id(), "");
    assert_eq!(ViolationType::Critical { invariant_ids: vec!["I-03".to_string()] }.invariant_id(), "I-03");
    assert_eq!(
        ViolationType::Critical {
            invariant_ids: vec!["I-01".to_string(), "I-04".to_string(), "I-08".to_string()]
        }
        .invariant_id(),
        "I-01,I-04,I-08"
    );
}

#[test]
fn builtin_invariants_in_order() {
    let ids: Vec<&str> = all_invariants().iter().map(|i| i.id()).collect();
    assert_eq!(ids, vec!["I-01", "I-02", "I-03", "I-04", "I-05", "I-07", "I-08"]);
    let classes: Vec<InvariantClass> = all_invariants().iter().map(|i| i.class()).collect();
    assert_eq!(
        classes,
        vec![
            InvariantClass::Critical,
            InvariantClass::High,
            InvariantClass::Critical,
            InvariantClass::Critical,
            InvariantClass::Critical,
            InvariantClass::High,
            InvariantClass::Critical,
        ]
    );
}

#[test]
fn each_invariant_checks_its_limit() {
    let base = safe_state();
    let mut s = base;
    s.token_budget = 10_000;
    assert!(TokenBudgetInvariant.check(&s));
    s.token_budget = 10_001;
    assert!(!TokenBudgetInvariant.check(&s));
    s.token_budget = 0;
    assert!(TokenBudgetInvariant.check(&s));

    let mut s = base;
    s.agent_count = 10;
    assert!(AgentCountInvariant.check(&s));
    s.agent_count = 11;
    assert!(!AgentCountInvariant.check(&s));

    let mut s = base;
    s.sandbox_fuel = 100;
    assert!(SandboxFuelInvariant.check(&s));
    s.sandbox_fuel = 99;
    assert!(!SandboxFuelInvariant.check(&s));

    let mut s = base;
    s.entropy_bits = 256;
    assert!(EntropyInvariant.check(&s));
    s.entropy_bits = 255;
    assert!(!EntropyInvariant.check(&s));

    let mut s = base;
    assert!(PiiInvariant.check(&s));
    s.pii_scrubbed = false;
    assert!(!PiiInvariant.check(&s));

    let mut s = base;
    s.rate_limit_remaining = 0;
    assert!(RateLimitInvariant.check(&s));
    s.rate_limit_remaining = -1;
    assert!(!RateLimitInvariant.check(&s));

    let mut s = base;
    s.model_capability = 0b1011;
    s.task_requirement = 0b0011;
    assert!(CapabilityInvariant.check(&s));
    s.task_requirement = 0b0111;
    assert!(!CapabilityInvariant.check(&s));
}
