//! The safety manifold: a system state is inside it when every invariant
//! holds, degraded when only non-critical invariants fail, and outside it
//! when a critical invariant fails. Transitions between states are judged by
//! where they start and where they end.
use vstd::prelude::*;
use vstd::string::StringExecFns;

verus! {

/// Operational limits of the system.
#[derive(Debug, Clone, Copy, PartialEq, Eq, Structural)]
pub struct SystemConfig {
    pub max_tokens: i64,
    pub max_agents: u32,
    pub min_fuel: i64,
    pub min_entropy: u32,
    pub max_rate_limit: i64,
    pub max_sandbox_fuel: i64,
}

impl Default for SystemConfig {
    fn default() -> (c: Self)
        ensures
            c == (SystemConfig {
                max_tokens: 10_000,
                max_agents: 10,
                min_fuel: 100,
                min_entropy: 256,
                max_rate_limit: 100,
                max_sandbox_fuel: 1_000,
            }),
    {
        SystemConfig {
            max_tokens: 10_000,
            max_agents: 10,
            min_fuel: 100,
            min_entropy: 256,
            max_rate_limit: 100,
            max_sandbox_fuel: 1_000,
        }
    }
}

/// A snapshot of the system, read by the invariants.
#[derive(Debug, Clone, Copy, PartialEq, Eq, Structural)]
pub struct SystemState {
    pub config: SystemConfig,
    pub token_budget: i64,
    pub agent_count: u32,
    pub sandbox_fuel: i64,
    pub entropy_bits: u32,
    pub pii_scrubbed: bool,
    pub signature_valid: bool,
    pub rate_limit_remaining: i64,
    pub model_capability: u64,
    pub task_requirement: u64,
}

/// Half of `x`, rounded toward zero (integer division by 2).
pub open spec fn half_toward_zero(x: int) -> int {
    if x >= 0 {
        x / 2
    } else {
        -((-x) / 2)
    }
}

/// The state in the middle of the limits of `config`.
pub open spec fn safe_state_of(config: SystemConfig) -> SystemState {
    SystemState {
        config: config,
        token_budget: half_toward_zero(config.max_tokens as int) as i64,
        agent_count: (config.max_agents / 2) as u32,
        sandbox_fuel: half_toward_zero(config.max_sandbox_fuel as int) as i64,
        entropy_bits: (config.min_entropy * 2) as u32,
        pii_scrubbed: true,
        signature_valid: true,
        rate_limit_remaining: half_toward_zero(config.max_rate_limit as int) as i64,
        model_capability: 0xFFFF_FFFF_FFFF_FFFFu64,
        task_requirement: 0xFFu64,
    }
}

/// The safe state keeps `config`, has twice the minimum entropy, half (rounded
/// toward zero) of each of the token, agent, sandbox fuel and rate limits,
/// personal data scrubbed, a valid signature, every capability bit and the
/// low eight requirement bits.
pub proof fn lemma_safe_state_fields(config: SystemConfig)
    requires
        config.min_entropy * 2 <= u32::MAX,
    ensures
        safe_state_of(config).config == config,
        safe_state_of(config).entropy_bits == 2 * config.min_entropy,
        0 <= config.max_agents - 2 * safe_state_of(config).agent_count <= 1,
        config.max_tokens >= 0 ==> 0 <= config.max_tokens - 2 * safe_state_of(config).token_budget <= 1,
        config.max_tokens < 0 ==> 0 <= 2 * safe_state_of(config).token_budget - config.max_tokens <= 1,
        config.max_sandbox_fuel >= 0 ==> 0 <= config.max_sandbox_fuel - 2 * safe_state_of(config).sandbox_fuel <= 1,
        config.max_sandbox_fuel < 0 ==> 0 <= 2 * safe_state_of(config).sandbox_fuel - config.max_sandbox_fuel <= 1,
        config.max_rate_limit >= 0 ==> 0 <= config.max_rate_limit - 2 * safe_state_of(config).rate_limit_remaining <= 1,
        config.max_rate_limit < 0 ==> 0 <= 2 * safe_state_of(config).rate_limit_remaining - config.max_rate_limit <= 1,
        safe_state_of(config).pii_scrubbed,
        safe_state_of(config).signature_valid,
        safe_state_of(config).model_capability == u64::MAX,
        safe_state_of(config).task_requirement == 255,
{
}

impl SystemState {
    /// The state in the middle of the limits of `config`: half the token
    /// budget, agents, sandbox fuel and rate limit, twice the minimum
    /// entropy, every capability bit set and the low eight bits required.
    pub fn safe(config: SystemConfig) -> (s: Self)
        requires
            config.min_entropy * 2 <= u32::MAX,
        ensures
            s == safe_state_of(config),
    {
        SystemState {
            config: config,
            token_budget: config.max_tokens / 2,
            agent_count: config.max_agents / 2,
            sandbox_fuel: config.max_sandbox_fuel / 2,
            entropy_bits: config.min_entropy * 2,
            pii_scrubbed: true,
            signature_valid: true,
            rate_limit_remaining: config.max_rate_limit / 2,
            model_capability: 0xFFFF_FFFF_FFFF_FFFF,
            task_requirement: 0xFF,
        }
    }
}

/// How severe the failure of an invariant is.
#[derive(Debug, Clone, Copy, PartialEq, Eq, Hash, Structural)]
pub enum InvariantClass {
    /// Never violated inside the manifold.
    Critical,
    /// Graceful degradation allowed.
    High,
    /// Alert and log.
    Medium,
    /// Metric only.
    Low,
}

/// A failure of one or more critical invariants.
#[derive(Debug, Clone, PartialEq, Eq)]
pub enum ViolationType {
    Critical { invariant_ids: Vec<String> },
}

/// The abstract content of a list of strings.
pub open spec fn strings_view(v: Seq<String>) -> Seq<Seq<char>> {
    v.map_values(|s: String| s@)
}

/// The strings of `parts` joined with `sep` between each two of them.
pub open spec fn joined(parts: Seq<Seq<char>>, sep: Seq<char>) -> Seq<char>
    decreases parts.len(),
{
    if parts.len() == 0 {
        Seq::empty()
    } else if parts.len() == 1 {
        parts[0]
    } else {
        joined(parts.drop_last(), sep) + sep + parts.last()
    }
}

impl ViolationType {
    /// The identifiers of the violated invariants, in order.
    pub open spec fn ids(&self) -> Seq<Seq<char>> {
        match self {
            ViolationType::Critical { invariant_ids } => strings_view(invariant_ids@),
        }
    }

    /// The identifiers of the violated invariants joined by commas.
    pub fn invariant_id(&self) -> (r: String)
        ensures
            r@ == joined(self.ids(), seq![',']),
    {
        match self {
            ViolationType::Critical { invariant_ids } => {
                let ghost parts = strings_view(invariant_ids@);
                let mut out = String::new();
                let mut i: usize = 0;
                proof {
                    reveal_strlit(",");
                    assert(parts.take(0) =~= Seq::<Seq<char>>::empty());
                }
                while i < invariant_ids.len()
                    invariant
                        parts == strings_view(invariant_ids@),
                        0 <= i <= invariant_ids@.len(),
                        out@ == joined(parts.take(i as int), seq![',']),
                    decreases invariant_ids@.len() - i,
                {
                    proof {
                        reveal_strlit(",");
                        assert(parts.take(i + 1).drop_last() =~= parts.take(i as int));
                    }
                    if i > 0 {
                        out.append(",");
                    }
                    out.append(invariant_ids[i].as_str());
                    proof {
                        if i == 0 {
                            assert(out@ =~= parts.take(1)[0]);
                        } else {
                            assert(out@ =~= joined(parts.take(i as int), seq![',']) + seq![','] + parts.take(i + 1).last());
                        }
                    }
                    i = i + 1;
                }
                assert(parts.take(invariant_ids@.len() as int) =~= parts);
                out
            },
        }
    }
}


/// Where a state stands with respect to the safety manifold.
#[derive(Debug, Clone, Copy, PartialEq, Eq, Structural)]
pub enum ManifoldStatus {
    Inside,
    Degraded,
    Outside,
}

/// Membership of a state in the manifold, with what failed.
#[derive(Debug, Clone, PartialEq, Eq)]
pub enum ManifoldResult {
    Inside,
    Degraded(Vec<(String, InvariantClass)>),
    Outside { violation: ViolationType, state: SystemState },
}

/// The abstract content of a list of non-critical failures.
pub open spec fn failures_view(v: Seq<(String, InvariantClass)>) -> Seq<(Seq<char>, InvariantClass)> {
    v.map_values(|p: (String, InvariantClass)| (p.0@, p.1))
}

/// The identifiers of a list of non-critical failures, in order.
pub fn failure_names(v: &Vec<(String, InvariantClass)>) -> (r: Vec<String>)
    ensures
        strings_view(r@) == failures_view(v@).map_values(|p: (Seq<char>, InvariantClass)| p.0),
{
    let mut r: Vec<String> = Vec::new();
    let mut i: usize = 0;
    while i < v.len()
        invariant
            0 <= i <= v@.len(),
            strings_view(r@) == failures_view(v@.take(i as int)).map_values(|p: (Seq<char>, InvariantClass)| p.0),
        decreases v@.len() - i,
    {
        let name = v[i].0.clone();
        let ghost before = r@;
        r.push(name);
        assert(strings_view(r@) =~= strings_view(before).push(v@[i as int].0@));
        assert(failures_view(v@.take(i + 1)) =~= failures_view(v@.take(i as int)).push((v@[i as int].0@, v@[i as int].1)));
        assert(strings_view(r@) =~= failures_view(v@.take(i + 1)).map_values(|p: (Seq<char>, InvariantClass)| p.0));
        i = i + 1;
    }
    assert(v@.take(v@.len() as int) =~= v@);
    r
}

impl ManifoldResult {
    /// The status that this result reports.
    pub open spec fn status(&self) -> ManifoldStatus {
        match self {
            ManifoldResult::Inside => ManifoldStatus::Inside,
            ManifoldResult::Degraded(_) => ManifoldStatus::Degraded,
            ManifoldResult::Outside { .. } => ManifoldStatus::Outside,
        }
    }
}

/// The kind of a transition between two states.
#[derive(Debug, Clone, Copy, PartialEq, Eq, Structural)]
pub enum TransitionKind {
    Safe,
    CriticalEscape,
    CascadeFailure,
    Recovery,
    Degraded,
    Unsafe,
}

/// The judgement of a transition between two states.
#[derive(Debug, Clone, PartialEq, Eq)]
pub enum TransitionSafety {
    /// Inside to inside.
    Safe,
    /// Inside to outside.
    CriticalEscape { violation: ViolationType, state: SystemState },
    /// Degraded to outside.
    CascadeFailure { violation: ViolationType },
    /// Degraded or outside to inside.
    Recovery,
    /// Inside or degraded to degraded.
    Degraded { violations: Vec<String>, warning: String },
    /// Outside to anything but inside.
    Unsafe { reason: String },
}

impl TransitionSafety {
    /// The kind of this judgement.
    pub open spec fn kind(&self) -> TransitionKind {
        match self {
            TransitionSafety::Safe => TransitionKind::Safe,
            TransitionSafety::CriticalEscape { .. } => TransitionKind::CriticalEscape,
            TransitionSafety::CascadeFailure { .. } => TransitionKind::CascadeFailure,
            TransitionSafety::Recovery => TransitionKind::Recovery,
            TransitionSafety::Degraded { .. } => TransitionKind::Degraded,
            TransitionSafety::Unsafe { .. } => TransitionKind::Unsafe,
        }
    }
}

/// The judgement that a transition from a state with status `from` to a
/// state with status `to` receives.
pub open spec fn transition_kind(from: ManifoldStatus, to: ManifoldStatus) -> TransitionKind {
    match (from, to) {
        (ManifoldStatus::Inside, ManifoldStatus::Inside) => TransitionKind::Safe,
        (ManifoldStatus::Inside, ManifoldStatus::Outside) => TransitionKind::CriticalEscape,
        (ManifoldStatus::Inside, ManifoldStatus::Degraded) => TransitionKind::Degraded,
        (ManifoldStatus::Degraded, ManifoldStatus::Inside) => TransitionKind::Recovery,
        (ManifoldStatus::Degraded, ManifoldStatus::Outside) => TransitionKind::CascadeFailure,
        (ManifoldStatus::Degraded, ManifoldStatus::Degraded) => TransitionKind::Degraded,
        (ManifoldStatus::Outside, ManifoldStatus::Inside) => TransitionKind::Recovery,
        (ManifoldStatus::Outside, _) => TransitionKind::Unsafe,
    }
}

/// A property of system states with an identifier and a severity.
pub trait Invariant: Send + Sync {
    /// The identifier of the invariant.
    spec fn name(&self) -> Seq<char>;

    /// The severity of a failure of the invariant.
    spec fn class_of(&self) -> InvariantClass;

    /// Whether `state` satisfies the invariant.
    spec fn holds(&self, state: SystemState) -> bool;

    fn id(&self) -> (r: &'static str)
        ensures
            r@ == self.name(),
    ;

    fn class(&self) -> (c: InvariantClass)
        ensures
            c == self.class_of(),
    ;

    fn check(&self, state: &SystemState) -> (b: bool)
        ensures
            b == self.holds(*state),
    ;
}

/// The identifiers of the critical invariants of `invs` that `state` fails,
/// in the order of `invs`.
pub open spec fn critical_failures<I: Invariant>(invs: Seq<I>, state: SystemState) -> Seq<Seq<char>>
    decreases invs.len(),
{
    if invs.len() == 0 {
        Seq::empty()
    } else {
        let rest = critical_failures(invs.drop_last(), state);
        let inv = invs.last();
        if !inv.holds(state) && inv.class_of() == InvariantClass::Critical {
            rest.push(inv.name())
        } else {
            rest
        }
    }
}

/// The identifiers and classes of the non-critical invariants of `invs` that
/// `state` fails, in the order of `invs`.
pub open spec fn other_failures<I: Invariant>(invs: Seq<I>, state: SystemState) -> Seq<(Seq<char>, InvariantClass)>
    decreases invs.len(),
{
    if invs.len() == 0 {
        Seq::empty()
    } else {
        let rest = other_failures(invs.drop_last(), state);
        let inv = invs.last();
        if !inv.holds(state) && inv.class_of() != InvariantClass::Critical {
            rest.push((inv.name(), inv.class_of()))
        } else {
            rest
        }
    }
}

/// Where `state` stands with respect to the manifold that `invs` define.
pub open spec fn manifold_status<I: Invariant>(invs: Seq<I>, state: SystemState) -> ManifoldStatus {
    if critical_failures(invs, state).len() > 0 {
        ManifoldStatus::Outside
    } else if other_failures(invs, state).len() == 0 {
        ManifoldStatus::Inside
    } else {
        ManifoldStatus::Degraded
    }
}

/// `critical_failures` lists some identifier exactly when a critical
/// invariant fails, and `other_failures` is empty exactly when every
/// non-critical invariant holds.
proof fn lemma_failure_lists<I: Invariant>(invs: Seq<I>, state: SystemState)
    ensures
        critical_failures(invs, state).len() > 0 <==> exists|i: int|
            0 <= i < invs.len() && !(#[trigger] invs[i]).holds(state) && invs[i].class_of()
                == InvariantClass::Critical,
        other_failures(invs, state).len() == 0 <==> forall|i: int|
            0 <= i < invs.len() && (#[trigger] invs[i]).class_of() != InvariantClass::Critical
                ==> invs[i].holds(state),
    decreases invs.len(),
{
    if invs.len() > 0 {
        let rest = invs.drop_last();
        let last = invs.last();
        lemma_failure_lists(rest, state);
        assert(forall|i: int| 0 <= i < rest.len() ==> rest[i] == invs[i]);
        assert(invs[invs.len() - 1] == last);
        if critical_failures(invs, state).len() > 0 {
            if !(!last.holds(state) && last.class_of() == InvariantClass::Critical) {
                let i = choose|i: int|
                    0 <= i < rest.len() && !(#[trigger] rest[i]).holds(state) && rest[i].class_of()
                        == InvariantClass::Critical;
                assert(invs[i] == rest[i]);
            }
        }
        if exists|i: int|
            0 <= i < invs.len() && !(#[trigger] invs[i]).holds(state) && invs[i].class_of()
                == InvariantClass::Critical {
            let i = choose|i: int|
                0 <= i < invs.len() && !(#[trigger] invs[i]).holds(state) && invs[i].class_of()
                    == InvariantClass::Critical;
            if i < rest.len() {
                assert(rest[i] == invs[i]);
            }
        }
        if other_failures(invs, state).len() == 0 {
            assert forall|i: int|
                0 <= i < invs.len() && (#[trigger] invs[i]).class_of() != InvariantClass::Critical
                    implies invs[i].holds(state) by {
                if i < rest.len() {
                    assert(rest[i] == invs[i]);
                }
            }
        } else {
            if !(!last.holds(state) && last.class_of() != InvariantClass::Critical) {
                let i = choose|i: int|
                    0 <= i < rest.len() && (#[trigger] rest[i]).class_of() != InvariantClass::Critical
                        && !rest[i].holds(state);
                assert(invs[i] == rest[i]);
            }
        }
    }
}

/// A state is outside the manifold exactly when it fails a critical
/// invariant, and inside it exactly when it satisfies every invariant.
pub proof fn lemma_manifold_membership<I: Invariant>(invs: Seq<I>, state: SystemState)
    ensures
        (manifold_status(invs, state) == ManifoldStatus::Outside) <==> exists|i: int|
            0 <= i < invs.len() && !(#[trigger] invs[i]).holds(state) && invs[i].class_of()
                == InvariantClass::Critical,
        (manifold_status(invs, state) == ManifoldStatus::Inside) <==> forall|i: int|
            0 <= i < invs.len() ==> (#[trigger] invs[i]).holds(state),
{
    lemma_failure_lists(invs, state);
    if manifold_status(invs, state) == ManifoldStatus::Inside {
        assert forall|i: int| 0 <= i < invs.len() implies (#[trigger] invs[i]).holds(state) by {
            if invs[i].class_of() == InvariantClass::Critical && !invs[i].holds(state) {
                assert(critical_failures(invs, state).len() > 0);
            }
        }
    }
}

/// A transition is judged safe exactly when both states satisfy every
/// invariant, and a critical escape exactly when the first satisfies every
/// invariant and the second fails a critical one.
pub proof fn lemma_transition_judgement<I: Invariant>(invs: Seq<I>, from: SystemState, to: SystemState)
    ensures
        (transition_kind(manifold_status(invs, from), manifold_status(invs, to)) == TransitionKind::Safe)
            <==> (forall|i: int| 0 <= i < invs.len() ==> (#[trigger] invs[i]).holds(from) && invs[i].holds(to)),
        (transition_kind(manifold_status(invs, from), manifold_status(invs, to)) == TransitionKind::CriticalEscape)
            <==> ((forall|i: int| 0 <= i < invs.len() ==> (#[trigger] invs[i]).holds(from)) && exists|i: int|
            0 <= i < invs.len() && !(#[trigger] invs[i]).holds(to) && invs[i].class_of()
                == InvariantClass::Critical),
{
    lemma_manifold_membership(invs, from);
    lemma_manifold_membership(invs, to);
    if forall|i: int| 0 <= i < invs.len() ==> (#[trigger] invs[i]).holds(from) && invs[i].holds(to) {
        assert(forall|i: int| 0 <= i < invs.len() ==> (#[trigger] invs[i]).holds(from));
        assert(forall|i: int| 0 <= i < invs.len() ==> (#[trigger] invs[i]).holds(to));
    }
}

/// The symmetry generator of the safe manifold: a list of invariants and the
/// configuration they were chosen for.
pub struct SymmetryGenerator<I: Invariant = crate::invariants::SafetyInvariant> {
    pub invariants: Vec<I>,
    pub config: SystemConfig,
}

impl<I: Invariant> SymmetryGenerator<I> {
    pub fn new(invariants: Vec<I>, config: SystemConfig) -> (g: Self)
        ensures
            g.invariants@ == invariants@,
            g.config == config,
    {
        SymmetryGenerator { invariants, config }
    }

    pub fn invariants(&self) -> (r: &[I])
        ensures
            r@ == self.invariants@,
    {
        self.invariants.as_slice()
    }

    /// Whether `state` is inside the manifold, degraded, or outside it.
    pub fn is_in_manifold(&self, state: &SystemState) -> (r: ManifoldResult)
        ensures
            r.status() == manifold_status(self.invariants@, *state),
            r matches ManifoldResult::Degraded(v) ==> failures_view(v@) == other_failures(self.invariants@, *state),
            r matches ManifoldResult::Outside { violation, state: s } ==> {
                &&& violation.ids() == critical_failures(self.invariants@, *state)
                &&& s == *state
            },
    {
        let ghost invs = self.invariants@;
        let mut degraded: Vec<(String, InvariantClass)> = Vec::new();
        let mut critical: Vec<String> = Vec::new();
        let mut i: usize = 0;
        assert(invs.take(0) =~= Seq::<I>::empty());
        while i < self.invariants.len()
            invariant
                invs == self.invariants@,
                0 <= i <= invs.len(),
                strings_view(critical@) == critical_failures(invs.take(i as int), *state),
                failures_view(degraded@) == other_failures(invs.take(i as int), *state),
            decreases invs.len() - i,
        {
            let inv = &self.invariants[i];
            assert(invs.take(i + 1).drop_last() =~= invs.take(i as int));
            assert(invs.take(i + 1).last() == invs[i as int]);
            if !inv.check(state) {
                let c = inv.class();
                let name = inv.id().to_string();
                match c {
                    InvariantClass::Critical => {
                        critical.push(name);
                    },
                    _ => {
                        degraded.push((name, c));
                    },
                }
            }
            assert(strings_view(critical@) =~= critical_failures(invs.take(i + 1), *state));
            assert(failures_view(degraded@) =~= other_failures(invs.take(i + 1), *state));
            i = i + 1;
        }
        assert(invs.take(invs.len() as int) =~= invs);
        if critical.len() > 0 {
            return ManifoldResult::Outside {
                violation: ViolationType::Critical { invariant_ids: critical },
                state: *state,
            };
        }
        if degraded.len() == 0 {
            ManifoldResult::Inside
        } else {
            ManifoldResult::Degraded(degraded)
        }
    }

    /// Whether the transition from `from` to `to` keeps the system in the
    /// manifold, judged by the status of both states.
    pub fn preserves_manifold(&self, from: &SystemState, to: &SystemState) -> (r: TransitionSafety)
        ensures
            r.kind() == transition_kind(
                manifold_status(self.invariants@, *from),
                manifold_status(self.invariants@, *to),
            ),
            r matches TransitionSafety::CriticalEscape { violation, state } ==> {
                &&& violation.ids() == critical_failures(self.invariants@, *to)
                &&& state == *to
            },
            r matches TransitionSafety::CascadeFailure { violation } ==> violation.ids()
                == critical_failures(self.invariants@, *to),
            r matches TransitionSafety::Degraded { violations, warning } ==> {
                &&& strings_view(violations@) == other_failures(self.invariants@, *to).map_values(
                    |p: (Seq<char>, InvariantClass)| p.0,
                )
                &&& warning@ == (if manifold_status(self.invariants@, *from) == ManifoldStatus::Inside {
                    "Transition resulted in degraded state"@
                } else {
                    "State remains degraded"@
                })
            },
            r matches TransitionSafety::Unsafe { reason } ==> reason@
                == "Initial state is outside the manifold (requires recovery)"@,
    {
        let a = self.is_in_manifold(from);
        let b = self.is_in_manifold(to);
        match (a, b) {
            (ManifoldResult::Inside, ManifoldResult::Inside) => TransitionSafety::Safe,
            (ManifoldResult::Inside, ManifoldResult::Outside { violation, state }) => {
                TransitionSafety::CriticalEscape { violation, state }
            },
            (ManifoldResult::Inside, ManifoldResult::Degraded(violations)) => {
                TransitionSafety::Degraded {
                    violations: failure_names(&violations),
                    warning: String::from_str("Transition resulted in degraded state"),
                }
            },
            (ManifoldResult::Degraded(_), ManifoldResult::Inside) => TransitionSafety::Recovery,
            (ManifoldResult::Degraded(_), ManifoldResult::Outside { violation, state: _ }) => {
                TransitionSafety::CascadeFailure { violation }
            },
            (ManifoldResult::Degraded(_), ManifoldResult::Degraded(violations)) => {
                TransitionSafety::Degraded {
                    violations: failure_names(&violations),
                    warning: String::from_str("State remains degraded"),
                }
            },
            (ManifoldResult::Outside { .. }, ManifoldResult::Inside) => TransitionSafety::Recovery,
            (ManifoldResult::Outside { .. }, _) => {
                TransitionSafety::Unsafe {
                    reason: String::from_str("Initial state is outside the manifold (requires recovery)"),
                }
            },
        }
    }
}

} // verus!
