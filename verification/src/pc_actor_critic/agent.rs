//! Building and reconfiguring agents.

use rand::rngs::StdRng;
use std::collections::VecDeque;
use vstd::prelude::*;

use crate::arith::Arith;
use crate::error::{ConfigRule, PcError};
use crate::layer::LayerView;
use crate::linalg::{v_zeros, LinAlg};
use crate::matrix::zeros;
use crate::mlp_critic::{MlpCritic, MlpCriticConfigView};
use crate::pc_actor::{actor_fault, InferResult, PcActor};
use crate::pc_actor_critic::config::{
    config_fault, fixed_change, is_sac_mode, law_accepted_change_keeps_topology,
    law_accepted_continuous_config, sac_critic, sac_mode, validate_config, validate_topology_match,
    ActionSpace, PcActorCriticConfig,
};
use crate::pc_actor_critic::fisher::{
    all_sound, blank_states, build_fisher_for_layers, fisher_fits, fisher_views,
    lemma_blank_states_fit, FisherState, FisherView,
};
use crate::pc_actor_critic::plasticity::{build_hysteresis, fresh_hysteresis, HysteresisState};
use crate::pc_actor_critic::replay::{BufferView, ReplayBuffer};
use crate::pc_model::{ActorView, PcActorConfigView};
use crate::q_critic::{law_working_q_critic_survives_saving, QCritic, QCriticConfig};
use crate::rng::{seed_rng, seeded};
use crate::scalar::{lit, Scalar, ONE, ZERO};
use crate::stack::{initial_stack, proper_matrices};

verus! {

/// Learning steps between two hard rollbacks, by default.
pub const DEFAULT_ROLLBACK_HARD_COOLDOWN: u64 = 100;

/// An agent: a predictive-coding actor with its critics, memories and learning
/// state.
pub struct PcActorCritic<L: LinAlg> {
    pub actor: PcActor<L>,
    /// The state-value critic.
    pub critic: MlpCritic<L>,
    pub config: PcActorCriticConfig,
    /// Source of initial weights, noise and batches.
    pub rng: StdRng,
    /// Recent surprise scores.
    pub surprise_buffer: VecDeque<Scalar>,
    pub backend: L,
    /// Observation of the previous step.
    pub state_prev: Option<L::Vector>,
    /// Discrete action of the previous step.
    pub action_prev: Option<usize>,
    /// Continuous action of the previous step, before squashing.
    pub action_prev_continuous: Option<Vec<Scalar>>,
    /// Inference of the previous step.
    pub infer_prev: Option<InferResult<L>>,
    pub valid_actions_prev: Option<Vec<usize>>,
    pub actor_hysteresis: Option<HysteresisState>,
    pub critic_hysteresis: Option<HysteresisState>,
    pub actor_plastic_step_counter: u64,
    pub critic_plastic_step_counter: u64,
    pub critic_frozen_steps: u64,
    pub actor_frozen_steps: u64,
    /// Recent absolute value errors.
    pub td_error_buffer: VecDeque<Scalar>,
    pub last_td_error: Scalar,
    /// Decay of the actor's learning rate per hidden layer.
    pub actor_decay_factors: Vec<Scalar>,
    /// Decay of the critic's learning rate per hidden layer.
    pub critic_decay_factors: Vec<Scalar>,
    /// Running prediction error per hidden layer of the actor.
    pub layer_error_ema: Vec<Scalar>,
    pub actor_fisher: Vec<FisherState<L>>,
    pub critic_fisher: Vec<FisherState<L>>,
    pub actor_last_phase_reliable: bool,
    pub critic_last_phase_reliable: bool,
    /// Eligibility trace at the actor's output.
    pub actor_trace: Vec<Scalar>,
    /// Slowly following copy of the actor.
    pub polyak_target: Option<PcActor<L>>,
    /// Copy of the actor that never follows.
    pub frozen_champion: Option<PcActor<L>>,
    pub rollback_hard_cooldown_steps: u64,
    pub steps_since_last_rollback_hard: u64,
    pub replay_buffer: Option<ReplayBuffer>,
    pub replay_clamp_count: u64,
    /// Logarithm of the entropy temperature.
    pub log_alpha: Scalar,
    pub q1: Option<QCritic<L>>,
    pub q2: Option<QCritic<L>>,
    /// Slowly following copy of `q1`.
    pub q1_target: Option<QCritic<L>>,
    /// Slowly following copy of `q2`.
    pub q2_target: Option<QCritic<L>>,
    /// Critic updates left out because a value was not finite.
    pub sac_skipped_critic_updates: u64,
    /// Actor updates left out because a value was not finite.
    pub sac_skipped_actor_updates: u64,
}

/// The content of an optional action-value critic.
pub open spec fn opt_q<L: LinAlg>(q: Option<QCritic<L>>) -> Option<Seq<LayerView>> {
    match q {
        Some(c) => Some(c@),
        None => None,
    }
}

/// The content of an optional actor.
pub open spec fn opt_actor<L: LinAlg>(a: Option<PcActor<L>>) -> Option<ActorView> {
    match a {
        Some(x) => Some(x@),
        None => None,
    }
}

/// The content of an optional memory.
pub open spec fn opt_buffer(b: Option<ReplayBuffer>) -> Option<BufferView> {
    match b {
        Some(x) => Some(x@),
        None => None,
    }
}

/// An absent copy, or a working one with the layers of the actor.
pub open spec fn anchor_wf<L: LinAlg>(anchor: Option<PcActor<L>>, actor: PcActor<L>) -> bool {
    match anchor {
        Some(a) => {
            &&& a.wf()
            &&& a.config@.shape() == actor.config@.shape()
            &&& a.config.residual == actor.config.residual
        },
        None => true,
    }
}

/// An absent critic, or a working one with the given sizes.
pub open spec fn q_wf<L: LinAlg>(q: Option<QCritic<L>>, state_dim: nat, action_dim: nat) -> bool {
    match q {
        Some(c) => {
            &&& c.wf()
            &&& c.config.state_dim == state_dim
            &&& c.config.action_dim == action_dim
        },
        None => true,
    }
}

impl<L: LinAlg> PcActorCritic<L> {
    /// The parts of the agent fit together.
    pub open spec fn wf(&self) -> bool {
        &&& self.actor.wf()
        &&& self.critic.wf()
        &&& self.actor.config@.shape() == self.config.actor@.shape()
        &&& self.actor.config.residual == self.config.actor.residual
        &&& self.critic.config@.shape() == self.config.critic@.shape()
        &&& anchor_wf(self.polyak_target, self.actor)
        &&& anchor_wf(self.frozen_champion, self.actor)
        &&& self.actor_decay_factors@.len() == self.actor.config@.depth()
        &&& self.layer_error_ema@.len() == 0 || self.layer_error_ema@.len()
            >= self.actor.config@.depth()
        &&& fisher_fits(fisher_views(self.actor_fisher@), self.actor@.layers)
        &&& all_sound(fisher_views(self.critic_fisher@))
        &&& self.q1 is Some ==> self.q1->0.wf()
        &&& self.q2 is Some ==> self.q2->0.wf()
        &&& self.q1_target is Some ==> self.q1_target->0.wf()
        &&& self.q2_target is Some ==> self.q2_target->0.wf()
    }

    /// A continuous agent's critics, memories and previous step have the sizes
    /// of its observations and actions.
    pub open spec fn sac_ready(&self) -> bool {
        &&& self.config.q_critic is Some
        &&& self.state_dim() == self.actor.config.input_size
        &&& 2 * self.action_dim() == self.actor.config.output_size
        &&& q_wf(self.q1, self.state_dim(), self.action_dim())
        &&& q_wf(self.q2, self.state_dim(), self.action_dim())
        &&& q_wf(self.q1_target, self.state_dim(), self.action_dim())
        &&& q_wf(self.q2_target, self.state_dim(), self.action_dim())
        &&& self.q1 is Some ==> {
            &&& self.q2 is Some
            &&& self.q1_target is Some
            &&& self.q2_target is Some
            &&& self.q1->0.config@.shape() == self.q1_target->0.config@.shape()
            &&& self.q2->0.config@.shape() == self.q2_target->0.config@.shape()
        }
        &&& self.replay_buffer is Some ==> {
            &&& self.replay_buffer->0@.fits(self.state_dim(), self.action_dim())
            &&& self.replay_buffer->0@.action_space == ActionSpace::Continuous
            &&& !self.replay_buffer->0@.positive_only
        }
        &&& self.state_prev is Some ==> L::vec_view(self.state_prev->0).len() == self.state_dim()
        &&& self.action_prev_continuous is Some ==> self.action_prev_continuous->0@.len()
            == self.action_dim()
    }

    /// The number of observed features.
    pub open spec fn state_dim(&self) -> nat {
        self.config.q_critic->0.state_dim as nat
    }

    /// The number of action components.
    pub open spec fn action_dim(&self) -> nat {
        self.config.q_critic->0.action_dim as nat
    }
}

/// Decay factors: the topmost of `n` hidden layers does not decay, each layer
/// below decays once more.
pub open spec fn decay_series<A: Arith>(decay: Scalar, n: nat) -> Seq<Scalar> {
    Seq::new(n, |i: int| A::power(decay, (n - 1 - i) as nat))
}

/// Decay factors of `n` hidden layers.
fn compute_decay_factors<A: Arith>(decay: Scalar, n: usize) -> (r: Vec<Scalar>)
    ensures
        r@ == decay_series::<A>(decay, n as nat),
{
    let mut out: Vec<Scalar> = Vec::new();
    let mut i: usize = 0;
    while i < n
        invariant
            i <= n,
            out@ == decay_series::<A>(decay, n as nat).take(i as int),
        decreases n - i,
    {
        out.push(A::r_powi(decay, n - 1 - i));
        i = i + 1;
        assert(out@ =~= decay_series::<A>(decay, n as nat).take(i as int));
    }
    assert(out@ =~= decay_series::<A>(decay, n as nat));
    out
}

/// Initial running prediction errors.
pub open spec fn fresh_layer_errors(c: PcActorCriticConfig) -> Seq<Scalar> {
    if c.adaptive_consolidation {
        v_zeros(c.actor@.depth())
    } else {
        Seq::empty()
    }
}

/// The length of the eligibility trace.
pub open spec fn trace_len(c: PcActorCriticConfig) -> nat {
    if c.gae_lambda is Some {
        c.actor.output_size as nat
    } else {
        0
    }
}

/// The length of the eligibility trace.
fn gae_trace_len(c: &PcActorCriticConfig) -> (r: usize)
    ensures
        r == trace_len(*c),
{
    if c.gae_lambda.is_some() {
        c.actor.output_size
    } else {
        0
    }
}

/// Whether memories keep steps with a positive reward only: never in a
/// continuous agent.
pub open spec fn positive_only(c: PcActorCriticConfig) -> bool {
    c.action_space != ActionSpace::Continuous && c.replay_positive_only
}

/// Whether memories keep steps with a positive reward only.
pub(crate) fn effective_positive_only(c: &PcActorCriticConfig) -> (r: bool)
    ensures
        r == positive_only(*c),
{
    if c.action_space == ActionSpace::Continuous {
        false
    } else {
        c.replay_positive_only
    }
}

/// Steps that a running importance estimate needs.
pub open spec fn fisher_phase<A: Arith>(c: PcActorCriticConfig) -> u64 {
    if lit(ZERO).lt(c.ewc_lambda) {
        A::ceiling(A::over(lit(ONE), A::minus(lit(ONE), c.fisher_ema_beta)))
    } else {
        0
    }
}

/// Steps that a running importance estimate needs.
fn min_fisher_phase<A: Arith>(c: &PcActorCriticConfig) -> (r: u64)
    ensures
        r == fisher_phase::<A>(*c),
{
    if lit(ZERO).lt(c.ewc_lambda) {
        A::r_ceil(A::r_div(lit(ONE), A::r_sub(lit(ONE), c.fisher_ema_beta)))
    } else {
        0
    }
}

/// The actor's switch between learning and resting.
pub open spec fn fresh_actor_hysteresis<A: Arith>(c: PcActorCriticConfig) -> Option<
    HysteresisState,
> {
    fresh_hysteresis(
        c.actor_hysteresis,
        c.actor_fast_window,
        c.actor_slow_window,
        c.actor_wake_fraction,
        c.actor_sleep_fraction,
        fisher_phase::<A>(c),
    )
}

/// The critic's switch between learning and resting.
pub open spec fn fresh_critic_hysteresis<A: Arith>(c: PcActorCriticConfig) -> Option<
    HysteresisState,
> {
    fresh_hysteresis(
        c.critic_hysteresis,
        c.critic_fast_window,
        c.critic_slow_window,
        c.critic_wake_fraction,
        c.critic_sleep_fraction,
        fisher_phase::<A>(c),
    )
}

/// An empty memory as configured.
pub open spec fn empty_memory(c: PcActorCriticConfig) -> BufferView {
    BufferView::empty(
        c.replay_training_capacity,
        c.replay_recent_capacity,
        positive_only(c),
        c.action_space,
    )
}

/// The memory of a fresh agent.
pub open spec fn fresh_memory(c: PcActorCriticConfig) -> Option<BufferView> {
    if c.replay_training_capacity > 0 {
        Some(empty_memory(c))
    } else {
        None
    }
}

/// The memory after reconfiguration from `c` to `n`: kept where both
/// capacities and the requested filter stay as they are, empty otherwise.
pub open spec fn memory_after(
    c: PcActorCriticConfig,
    n: PcActorCriticConfig,
    memory: Option<BufferView>,
) -> Option<BufferView> {
    if c.replay_training_capacity > 0 && c.replay_training_capacity == n.replay_training_capacity
        && c.replay_recent_capacity == n.replay_recent_capacity && c.replay_positive_only
        == n.replay_positive_only {
        memory
    } else {
        fresh_memory(n)
    }
}

impl<L: LinAlg> PcActorCritic<L> {
    /// No step is under way.
    pub open spec fn between_episodes(&self) -> bool {
        &&& self.state_prev is None
        &&& self.action_prev is None
        &&& self.action_prev_continuous is None
        &&& self.infer_prev is None
        &&& self.valid_actions_prev is None
    }

    /// Learning starts from scratch: no history, no counters.
    pub open spec fn without_history(&self) -> bool {
        &&& self.between_episodes()
        &&& self.surprise_buffer@.len() == 0
        &&& self.td_error_buffer@.len() == 0
        &&& self.last_td_error == lit(ZERO)
        &&& self.actor_plastic_step_counter == 0
        &&& self.critic_plastic_step_counter == 0
        &&& self.critic_frozen_steps == 0
        &&& self.actor_frozen_steps == 0
        &&& !self.actor_last_phase_reliable
        &&& !self.critic_last_phase_reliable
        &&& self.replay_clamp_count == 0
        &&& self.rollback_hard_cooldown_steps == DEFAULT_ROLLBACK_HARD_COOLDOWN
        &&& self.steps_since_last_rollback_hard == u64::MAX
        &&& self.actor_trace@ == v_zeros(trace_len(self.config))
    }

    /// Decay factors and layer errors are those of the configuration.
    pub open spec fn decays_as_configured(&self) -> bool {
        &&& self.actor_decay_factors@ == decay_series::<L>(
            self.config.consolidation_decay,
            self.config.actor@.depth(),
        )
        &&& self.critic_decay_factors@ == decay_series::<L>(
            self.config.critic_consolidation_decay,
            self.config.critic.hidden_layers@.len(),
        )
        &&& self.layer_error_ema@ == fresh_layer_errors(self.config)
    }

    /// Switches and importance estimates start as configured.
    pub open spec fn plasticity_as_configured(&self) -> bool {
        &&& self.actor_hysteresis == fresh_actor_hysteresis::<L>(self.config)
        &&& self.critic_hysteresis == fresh_critic_hysteresis::<L>(self.config)
        &&& fisher_views(self.actor_fisher@) == blank_states(
            self.actor@.layers,
            self.config.ewc_lambda,
        )
        &&& fisher_views(self.critic_fisher@) == blank_states(
            self.critic@,
            self.config.ewc_lambda,
        )
    }

    /// A copy of the actor, on a copy of its backend, exists exactly where
    /// distillation towards it is on.
    pub open spec fn anchored_to_actor(&self) -> bool {
        &&& opt_actor(self.polyak_target) == if lit(ZERO).lt(
            self.config.distillation_lambda_polyak,
        ) {
            Some(self.actor@)
        } else {
            None
        }
        &&& anchor_on(self.polyak_target, self.actor.backend)
        &&& anchor_on(self.frozen_champion, self.actor.backend)
        &&& opt_actor(self.frozen_champion) == if lit(ZERO).lt(
            self.config.distillation_lambda_frozen,
        ) {
            Some(self.actor@)
        } else {
            None
        }
    }
}

/// An absent critic, or one on a copy of the given backend.
pub open spec fn q_on<L: LinAlg>(q: Option<QCritic<L>>, backend: L) -> bool {
    q is Some ==> cloned(backend, q->0.backend)
}

/// An absent copy of the actor, or one on a copy of the given backend.
pub open spec fn anchor_on<L: LinAlg>(a: Option<PcActor<L>>, backend: L) -> bool {
    a is Some ==> cloned(backend, a->0.backend)
}

impl<L: LinAlg> PcActorCritic<L> {
    /// Every network computes on a copy of the agent's backend.
    pub open spec fn on_one_backend(&self) -> bool {
        &&& cloned(self.backend, self.actor.backend)
        &&& cloned(self.backend, self.critic.backend)
        &&& q_on(self.q1, self.backend)
        &&& q_on(self.q2, self.backend)
        &&& q_on(self.q1_target, self.backend)
        &&& q_on(self.q2_target, self.backend)
    }
}

/// The networks of a fresh agent and the generator that is left.
#[verifier::ext_equal]
pub struct FreshNetworks {
    pub actor: ActorView,
    pub critic: Seq<LayerView>,
    pub q1: Option<Seq<LayerView>>,
    pub q2: Option<Seq<LayerView>>,
    pub rng: StdRng,
}

/// The networks that a seed gives: one after the other from one generator.
pub open spec fn networks_from<L: LinAlg>(
    rng: StdRng,
    actor: PcActorConfigView,
    critic: MlpCriticConfigView,
    q_critic: Option<QCriticConfig>,
) -> FreshNetworks {
    let (actor_view, rng) = ActorView::initial::<L>(rng, actor);
    let (critic_view, rng) = initial_stack::<L>(rng, critic.shape());
    match q_critic {
        Some(q) => {
            let (q1, rng) = initial_stack::<L>(rng, q@.shape());
            let (q2, rng) = initial_stack::<L>(rng, q@.shape());
            FreshNetworks {
                actor: actor_view,
                critic: critic_view,
                q1: Some(q1),
                q2: Some(q2),
                rng,
            }
        },
        None => FreshNetworks {
            actor: actor_view,
            critic: critic_view,
            q1: None,
            q2: None,
            rng,
        },
    }
}

/// The temperature of a fresh agent; without action-value critics it is unused.
pub open spec fn first_log_alpha(c: PcActorCriticConfig) -> Scalar {
    if sac_mode(c) {
        c.log_alpha_init
    } else {
        lit(ZERO)
    }
}

impl<L: LinAlg> PcActorCritic<L> {
    /// A fresh agent with networks from a seeded generator.
    pub open spec fn born_of(&self, config: PcActorCriticConfig, seed: u64) -> bool {
        let nets = networks_from::<L>(
            seeded(seed),
            config.actor@,
            config.critic@,
            sac_critic(config),
        );
        &&& self.config == config
        &&& self.actor@ == nets.actor
        &&& self.actor.config@ == config.actor@
        &&& self.critic@ == nets.critic
        &&& self.critic.config@ == config.critic@
        &&& opt_q(self.q1) == nets.q1
        &&& opt_q(self.q2) == nets.q2
        &&& opt_q(self.q1_target) == nets.q1
        &&& opt_q(self.q2_target) == nets.q2
        &&& sac_mode(config) ==> {
            &&& self.q1->0.config@ == config.q_critic->0@
            &&& self.q2->0.config@ == config.q_critic->0@
            &&& self.q1_target->0.config@ == config.q_critic->0@
            &&& self.q2_target->0.config@ == config.q_critic->0@
        }
        &&& self.rng == nets.rng
        &&& self.log_alpha == first_log_alpha(config)
        &&& opt_buffer(self.replay_buffer) == fresh_memory(config)
        &&& self.without_history()
        &&& self.decays_as_configured()
        &&& self.plasticity_as_configured()
        &&& self.anchored_to_actor()
        &&& self.sac_skipped_critic_updates == 0
        &&& self.sac_skipped_actor_updates == 0
    }
}

/// Why no agent can be built from a configuration.
pub open spec fn build_fault<A: Arith>(c: PcActorCriticConfig) -> Option<ConfigRule> {
    if config_fault::<A>(c) is Some {
        config_fault::<A>(c)
    } else if actor_fault(c.actor@) is Some {
        actor_fault(c.actor@)
    } else if sac_mode(c) && c.q_critic->0.action_dim == 0 {
        Some(ConfigRule::QCriticActionDimZero)
    } else {
        None
    }
}

/// The twin critics and their slowly following copies.
pub struct QSlots<L: LinAlg> {
    pub q1: Option<QCritic<L>>,
    pub q2: Option<QCritic<L>>,
    pub q1_target: Option<QCritic<L>>,
    pub q2_target: Option<QCritic<L>>,
}

impl<L: LinAlg> PcActorCritic<L> {
    /// Draws the twin critics and copies each to its target; nothing for an
    /// agent that acts discretely or has no configuration for them.
    fn build_sac_critics(backend: &L, config: &PcActorCriticConfig, rng: &mut StdRng) -> (r: Result<
        QSlots<L>,
        PcError,
    >)
        requires
            sac_mode(*config) ==> config.q_critic->0@.countable(),
        ensures
            match sac_critic(*config) {
                None => r is Ok && *final(rng) == *old(rng),
                Some(q) => if q.action_dim == 0 {
                    r == Err::<QSlots<L>, PcError>(
                        PcError::ConfigValidation(ConfigRule::QCriticActionDimZero),
                    )
                } else {
                    r is Ok
                },
            },
            r matches Ok(slots) ==> match sac_critic(*config) {
                None => {
                    &&& slots.q1 is None
                    &&& slots.q2 is None
                    &&& slots.q1_target is None
                    &&& slots.q2_target is None
                },
                Some(q) => {
                    let (v1, rng1) = initial_stack::<L>(*old(rng), q@.shape());
                    let (v2, rng2) = initial_stack::<L>(rng1, q@.shape());
                    &&& *final(rng) == rng2
                    &&& opt_q(slots.q1) == Some(v1)
                    &&& opt_q(slots.q2) == Some(v2)
                    &&& opt_q(slots.q1_target) == Some(v1)
                    &&& opt_q(slots.q2_target) == Some(v2)
                    &&& q_wf(slots.q1, q.state_dim as nat, q.action_dim as nat)
                    &&& q_wf(slots.q2, q.state_dim as nat, q.action_dim as nat)
                    &&& q_wf(slots.q1_target, q.state_dim as nat, q.action_dim as nat)
                    &&& q_wf(slots.q2_target, q.state_dim as nat, q.action_dim as nat)
                    &&& q_on(slots.q1, *backend)
                    &&& q_on(slots.q2, *backend)
                    &&& q_on(slots.q1_target, *backend)
                    &&& q_on(slots.q2_target, *backend)
                    &&& slots.q1->0.config@ == q@
                    &&& slots.q2->0.config@ == q@
                    &&& slots.q1_target->0.config@ == q@
                    &&& slots.q2_target->0.config@ == q@
                },
            },
    {
        if config.action_space != ActionSpace::Continuous {
            return Ok(QSlots { q1: None, q2: None, q1_target: None, q2_target: None });
        }
        let cfg = match &config.q_critic {
            Some(c) => c,
            None => {
                return Ok(QSlots { q1: None, q2: None, q1_target: None, q2_target: None });
            },
        };
        let q1 = match QCritic::new(backend.clone(), cfg.clone(), rng) {
            Ok(q) => q,
            Err(e) => {
                return Err(e);
            },
        };
        let q2 = match QCritic::new(backend.clone(), cfg.clone(), rng) {
            Ok(q) => q,
            Err(e) => {
                return Err(e);
            },
        };
        proof {
            law_working_q_critic_survives_saving(q1@, cfg@);
            law_working_q_critic_survives_saving(q2@, cfg@);
            assert(proper_matrices(q1@));
            assert(proper_matrices(q2@));
        }
        let q1_target = match QCritic::from_weights(backend.clone(), cfg.clone(), q1.to_weights()) {
            Ok(q) => q,
            Err(e) => {
                return Err(e);
            },
        };
        let q2_target = match QCritic::from_weights(backend.clone(), cfg.clone(), q2.to_weights()) {
            Ok(q) => q,
            Err(e) => {
                return Err(e);
            },
        };
        Ok(
            QSlots {
                q1: Some(q1),
                q2: Some(q2),
                q1_target: Some(q1_target),
                q2_target: Some(q2_target),
            },
        )
    }

    /// Copies of the actor where distillation towards them is on.
    fn allocate_anchor_slots(config: &PcActorCriticConfig, actor: &PcActor<L>) -> (r: (
        Option<PcActor<L>>,
        Option<PcActor<L>>,
    ))
        ensures
            opt_actor(r.0) == if lit(ZERO).lt(config.distillation_lambda_polyak) {
                Some(actor@)
            } else {
                None
            },
            opt_actor(r.1) == if lit(ZERO).lt(config.distillation_lambda_frozen) {
                Some(actor@)
            } else {
                None
            },
            anchor_on(r.0, actor.backend),
            anchor_on(r.1, actor.backend),
            actor.wf() ==> anchor_wf(r.0, *actor) && anchor_wf(r.1, *actor),
    {
        let polyak_target = if lit(ZERO).lt(config.distillation_lambda_polyak) {
            Some(actor.duplicate())
        } else {
            None
        };
        let frozen_champion = if lit(ZERO).lt(config.distillation_lambda_frozen) {
            Some(actor.duplicate())
        } else {
            None
        };
        (polyak_target, frozen_champion)
    }

    /// Initial running prediction errors.
    fn build_layer_errors(config: &PcActorCriticConfig) -> (r: Vec<Scalar>)
        ensures
            r@ == fresh_layer_errors(*config),
    {
        if config.adaptive_consolidation {
            zeros(config.actor.hidden_layers.len())
        } else {
            let none: Vec<Scalar> = Vec::new();
            assert(none@ =~= Seq::empty());
            none
        }
    }

    /// An empty memory as configured.
    fn build_memory(config: &PcActorCriticConfig) -> (r: ReplayBuffer)
        ensures
            r@ == empty_memory(*config),
    {
        ReplayBuffer::new(
            config.replay_training_capacity,
            config.replay_recent_capacity,
            effective_positive_only(config),
            config.action_space,
        )
    }

    /// An agent with networks drawn from a seeded generator.
    pub fn new(backend: L, config: PcActorCriticConfig, seed: u64) -> (r: Result<Self, PcError>)
        requires
            sac_mode(config) ==> config.q_critic->0@.countable(),
        ensures
            match build_fault::<L>(config) {
                Some(rule) => r == Err::<Self, PcError>(PcError::ConfigValidation(rule)),
                None => r is Ok,
            },
            r matches Ok(agent) ==> {
                &&& agent.born_of(config, seed)
                &&& agent.backend == backend
                &&& agent.on_one_backend()
                &&& agent.wf()
                &&& config.action_space == ActionSpace::Continuous ==> agent.sac_ready()
            },
    {
        match validate_config::<L>(&config) {
            Err(e) => {
                return Err(e);
            },
            Ok(()) => {},
        }
        proof {
            if config.action_space == ActionSpace::Continuous {
                law_accepted_continuous_config::<L>(config);
            }
        }
        let mfp: u64 = min_fisher_phase::<L>(&config);
        let actor_hysteresis = build_hysteresis(
            config.actor_hysteresis,
            config.actor_fast_window,
            config.actor_slow_window,
            config.actor_wake_fraction,
            config.actor_sleep_fraction,
            mfp,
        );
        let critic_hysteresis = build_hysteresis(
            config.critic_hysteresis,
            config.critic_fast_window,
            config.critic_slow_window,
            config.critic_wake_fraction,
            config.critic_sleep_fraction,
            mfp,
        );
        let mut rng = seed_rng(seed);
        let actor = match PcActor::new(backend.clone(), config.actor.clone(), &mut rng) {
            Ok(a) => a,
            Err(e) => {
                return Err(e);
            },
        };
        let critic = match MlpCritic::new(backend.clone(), config.critic.clone(), &mut rng) {
            Ok(c) => c,
            Err(e) => {
                return Err(e);
            },
        };
        let actor_fisher = build_fisher_for_layers(&backend, &actor.layers, config.ewc_lambda);
        let critic_fisher = build_fisher_for_layers(&backend, &critic.layers, config.ewc_lambda);
        proof {
            lemma_blank_states_fit(actor@.layers, config.ewc_lambda);
        }
        let (polyak_target, frozen_champion) = Self::allocate_anchor_slots(&config, &actor);
        let replay_buffer = if config.replay_training_capacity > 0 {
            Some(Self::build_memory(&config))
        } else {
            None
        };
        let slots = match Self::build_sac_critics(&backend, &config, &mut rng) {
            Ok(s) => s,
            Err(e) => {
                return Err(e);
            },
        };
        let log_alpha = if is_sac_mode(&config) {
            config.log_alpha_init
        } else {
            lit(ZERO)
        };
        let actor_decay_factors = compute_decay_factors::<L>(
            config.consolidation_decay,
            config.actor.hidden_layers.len(),
        );
        let critic_decay_factors = compute_decay_factors::<L>(
            config.critic_consolidation_decay,
            config.critic.hidden_layers.len(),
        );
        let layer_error_ema = Self::build_layer_errors(&config);
        let actor_trace = zeros(gae_trace_len(&config));
        let agent = PcActorCritic {
            actor,
            critic,
            config,
            rng,
            surprise_buffer: VecDeque::new(),
            backend,
            state_prev: None,
            action_prev: None,
            action_prev_continuous: None,
            infer_prev: None,
            valid_actions_prev: None,
            actor_hysteresis,
            critic_hysteresis,
            actor_plastic_step_counter: 0,
            critic_plastic_step_counter: 0,
            critic_frozen_steps: 0,
            actor_frozen_steps: 0,
            td_error_buffer: VecDeque::new(),
            last_td_error: lit(ZERO),
            actor_decay_factors,
            critic_decay_factors,
            layer_error_ema,
            actor_fisher,
            critic_fisher,
            actor_last_phase_reliable: false,
            critic_last_phase_reliable: false,
            actor_trace,
            polyak_target,
            frozen_champion,
            rollback_hard_cooldown_steps: DEFAULT_ROLLBACK_HARD_COOLDOWN,
            steps_since_last_rollback_hard: u64::MAX,
            replay_buffer,
            replay_clamp_count: 0,
            log_alpha,
            q1: slots.q1,
            q2: slots.q2,
            q1_target: slots.q1_target,
            q2_target: slots.q2_target,
            sac_skipped_critic_updates: 0,
            sac_skipped_actor_updates: 0,
        };
        assert(fisher_views(agent.actor_fisher@) == blank_states(
            agent.actor@.layers,
            agent.config.ewc_lambda,
        ));
        Ok(agent)
    }

    /// An agent made of given networks, without switches, importance estimates,
    /// memories or action-value critics.
    pub fn from_parts(
        config: PcActorCriticConfig,
        actor: PcActor<L>,
        critic: MlpCritic<L>,
        rng: StdRng,
        backend: L,
    ) -> (agent: Self)
        ensures
            agent.config == config,
            agent.actor == actor,
            agent.critic == critic,
            agent.rng == rng,
            agent.backend == backend,
            agent.without_history(),
            agent.decays_as_configured(),
            agent.anchored_to_actor(),
            agent.actor_hysteresis is None,
            agent.critic_hysteresis is None,
            agent.actor_fisher@.len() == 0,
            agent.critic_fisher@.len() == 0,
            agent.replay_buffer is None,
            agent.log_alpha == lit(ZERO),
            agent.q1 is None,
            agent.q2 is None,
            agent.q1_target is None,
            agent.q2_target is None,
            agent.sac_skipped_critic_updates == 0,
            agent.sac_skipped_actor_updates == 0,
            actor.wf() && critic.wf() && actor.config@.shape() == config.actor@.shape()
                && actor.config.residual == config.actor.residual && critic.config@.shape()
                == config.critic@.shape() ==> agent.wf(),
    {
        let (polyak_target, frozen_champion) = Self::allocate_anchor_slots(&config, &actor);
        let actor_decay_factors = compute_decay_factors::<L>(
            config.consolidation_decay,
            config.actor.hidden_layers.len(),
        );
        let critic_decay_factors = compute_decay_factors::<L>(
            config.critic_consolidation_decay,
            config.critic.hidden_layers.len(),
        );
        let layer_error_ema = Self::build_layer_errors(&config);
        let actor_trace = zeros(gae_trace_len(&config));
        PcActorCritic {
            actor,
            critic,
            config,
            rng,
            surprise_buffer: VecDeque::new(),
            backend,
            state_prev: None,
            action_prev: None,
            action_prev_continuous: None,
            infer_prev: None,
            valid_actions_prev: None,
            actor_hysteresis: None,
            critic_hysteresis: None,
            actor_plastic_step_counter: 0,
            critic_plastic_step_counter: 0,
            critic_frozen_steps: 0,
            actor_frozen_steps: 0,
            td_error_buffer: VecDeque::new(),
            last_td_error: lit(ZERO),
            actor_decay_factors,
            critic_decay_factors,
            layer_error_ema,
            actor_fisher: Vec::new(),
            critic_fisher: Vec::new(),
            actor_last_phase_reliable: false,
            critic_last_phase_reliable: false,
            actor_trace,
            polyak_target,
            frozen_champion,
            rollback_hard_cooldown_steps: DEFAULT_ROLLBACK_HARD_COOLDOWN,
            steps_since_last_rollback_hard: u64::MAX,
            replay_buffer: None,
            replay_clamp_count: 0,
            log_alpha: lit(ZERO),
            q1: None,
            q2: None,
            q1_target: None,
            q2_target: None,
            sac_skipped_critic_updates: 0,
            sac_skipped_actor_updates: 0,
        }
    }

    /// Checks that a new configuration leaves every fixed property alone.
    fn validate_topology_match(&self, config: &PcActorCriticConfig) -> (r: Result<(), PcError>)
        ensures
            match fixed_change::<L>(self.config, *config) {
                Some(field) => r == Err::<(), PcError>(
                    PcError::ConfigValidation(ConfigRule::Fixed(field)),
                ),
                None => r is Ok,
            },
    {
        validate_topology_match::<L>(&self.config, config)
    }

    /// Takes a new configuration. Networks, generator and temperature stay;
    /// learning starts from scratch. A refused configuration changes nothing.
    pub fn apply_config(&mut self, config: PcActorCriticConfig) -> (r: Result<(), PcError>)
        ensures
            match config_fault::<L>(config) {
                Some(rule) => r == Err::<(), PcError>(PcError::ConfigValidation(rule)),
                None => match fixed_change::<L>(old(self).config, config) {
                    Some(field) => r == Err::<(), PcError>(
                        PcError::ConfigValidation(ConfigRule::Fixed(field)),
                    ),
                    None => r is Ok,
                },
            },
            r is Err ==> *final(self) == *old(self),
            r is Ok ==> {
                &&& final(self).config == config
                &&& final(self).actor == old(self).actor
                &&& final(self).critic == old(self).critic
                &&& final(self).q1 == old(self).q1
                &&& final(self).q2 == old(self).q2
                &&& final(self).q1_target == old(self).q1_target
                &&& final(self).q2_target == old(self).q2_target
                &&& final(self).rng == old(self).rng
                &&& final(self).backend == old(self).backend
                &&& final(self).log_alpha == old(self).log_alpha
                &&& final(self).sac_skipped_critic_updates == old(self).sac_skipped_critic_updates
                &&& final(self).sac_skipped_actor_updates == old(self).sac_skipped_actor_updates
                &&& final(self).without_history()
                &&& final(self).decays_as_configured()
                &&& final(self).plasticity_as_configured()
                &&& final(self).anchored_to_actor()
                &&& opt_buffer(final(self).replay_buffer) == memory_after(
                    old(self).config,
                    config,
                    opt_buffer(old(self).replay_buffer),
                )
                &&& old(self).wf() ==> final(self).wf()
                &&& old(self).wf() && old(self).sac_ready() && old(self).config.action_space
                    == ActionSpace::Continuous && config.action_space == ActionSpace::Continuous
                    ==> final(self).sac_ready()
            },
    {
        match validate_config::<L>(&config) {
            Err(e) => {
                return Err(e);
            },
            Ok(()) => {},
        }
        match self.validate_topology_match(&config) {
            Err(e) => {
                return Err(e);
            },
            Ok(()) => {},
        }
        proof {
            law_accepted_change_keeps_topology::<L>(self.config, config);
            if config.action_space == ActionSpace::Continuous {
                law_accepted_continuous_config::<L>(config);
            }
        }
        let mfp: u64 = min_fisher_phase::<L>(&config);
        let actor_hysteresis = build_hysteresis(
            config.actor_hysteresis,
            config.actor_fast_window,
            config.actor_slow_window,
            config.actor_wake_fraction,
            config.actor_sleep_fraction,
            mfp,
        );
        let critic_hysteresis = build_hysteresis(
            config.critic_hysteresis,
            config.critic_fast_window,
            config.critic_slow_window,
            config.critic_wake_fraction,
            config.critic_sleep_fraction,
            mfp,
        );
        let actor_fisher = build_fisher_for_layers(
            &self.backend,
            &self.actor.layers,
            config.ewc_lambda,
        );
        let critic_fisher = build_fisher_for_layers(
            &self.backend,
            &self.critic.layers,
            config.ewc_lambda,
        );
        proof {
            lemma_blank_states_fit(self.actor@.layers, config.ewc_lambda);
        }
        let (polyak_target, frozen_champion) = Self::allocate_anchor_slots(&config, &self.actor);
        let old_capacity: usize = self.config.replay_training_capacity;
        let new_capacity: usize = config.replay_training_capacity;
        let keep = old_capacity > 0 && old_capacity == new_capacity
            && self.config.replay_recent_capacity == config.replay_recent_capacity
            && self.config.replay_positive_only == config.replay_positive_only;
        if !keep {
            self.replay_buffer = if new_capacity > 0 {
                Some(Self::build_memory(&config))
            } else {
                None
            };
        }
        self.actor_decay_factors = compute_decay_factors::<L>(
            config.consolidation_decay,
            config.actor.hidden_layers.len(),
        );
        self.critic_decay_factors = compute_decay_factors::<L>(
            config.critic_consolidation_decay,
            config.critic.hidden_layers.len(),
        );
        self.layer_error_ema = Self::build_layer_errors(&config);
        self.actor_trace = zeros(gae_trace_len(&config));
        self.config = config;
        self.surprise_buffer = VecDeque::new();
        self.state_prev = None;
        self.action_prev = None;
        self.action_prev_continuous = None;
        self.infer_prev = None;
        self.valid_actions_prev = None;
        self.actor_hysteresis = actor_hysteresis;
        self.critic_hysteresis = critic_hysteresis;
        self.actor_plastic_step_counter = 0;
        self.critic_plastic_step_counter = 0;
        self.critic_frozen_steps = 0;
        self.actor_frozen_steps = 0;
        self.td_error_buffer = VecDeque::new();
        self.last_td_error = lit(ZERO);
        self.actor_fisher = actor_fisher;
        self.critic_fisher = critic_fisher;
        self.actor_last_phase_reliable = false;
        self.critic_last_phase_reliable = false;
        self.polyak_target = polyak_target;
        self.frozen_champion = frozen_champion;
        self.replay_clamp_count = 0;
        self.rollback_hard_cooldown_steps = DEFAULT_ROLLBACK_HARD_COOLDOWN;
        self.steps_since_last_rollback_hard = u64::MAX;
        Ok(())
    }

    /// Forgets the step under way; weights and learning state stay.
    pub fn reset_step(&mut self)
        ensures
            final(self).between_episodes(),
            final(self).actor_trace@ == v_zeros(old(self).actor_trace@.len()),
            *final(self) == (PcActorCritic {
                state_prev: final(self).state_prev,
                action_prev: final(self).action_prev,
                action_prev_continuous: final(self).action_prev_continuous,
                infer_prev: final(self).infer_prev,
                valid_actions_prev: final(self).valid_actions_prev,
                actor_trace: final(self).actor_trace,
                ..*old(self)
            }),
    {
        self.state_prev = None;
        self.action_prev = None;
        self.action_prev_continuous = None;
        self.infer_prev = None;
        self.valid_actions_prev = None;
        self.actor_trace = zeros(self.actor_trace.len());
    }

    /// Forgets what the actor's learning has accumulated besides its weights.
    pub fn reset_actor_transient_state(&mut self)
        ensures
            final(self).actor_trace@ == v_zeros(old(self).actor_trace@.len()),
            final(self).actor_plastic_step_counter == 0,
            final(self).actor_frozen_steps == 0,
            final(self).td_error_buffer@.len() == 0,
            final(self).last_td_error == lit(ZERO),
            *final(self) == (PcActorCritic {
                actor_trace: final(self).actor_trace,
                actor_plastic_step_counter: 0,
                actor_frozen_steps: 0,
                td_error_buffer: final(self).td_error_buffer,
                last_td_error: lit(ZERO),
                ..*old(self)
            }),
    {
        self.actor_trace = zeros(self.actor_trace.len());
        self.actor_plastic_step_counter = 0;
        self.actor_frozen_steps = 0;
        self.td_error_buffer.clear();
        self.last_td_error = lit(ZERO);
    }

    /// Forgets the actor's running importance estimates; accumulated importance
    /// and snapshots stay. Nothing happens where consolidation is off.
    pub fn clear_actor_fisher_ema(&mut self)
        ensures
            fisher_views(final(self).actor_fisher@) == if old(self).config.ewc_lambda.le(
                lit(ZERO),
            ) {
                fisher_views(old(self).actor_fisher@)
            } else {
                fisher_views(old(self).actor_fisher@).map_values(
                    |f: FisherView| f.forgotten(),
                )
            },
            *final(self) == (PcActorCritic {
                actor_fisher: final(self).actor_fisher,
                ..*old(self)
            }),
    {
        if self.config.ewc_lambda.le(lit(ZERO)) {
            return;
        }
        let ghost start = fisher_views(self.actor_fisher@);
        let n: usize = self.actor_fisher.len();
        let mut i: usize = 0;
        while i < n
            invariant
                i <= n,
                n == self.actor_fisher@.len(),
                n == start.len(),
                *self == (PcActorCritic { actor_fisher: self.actor_fisher, ..*old(self) }),
                forall|k: int|
                    0 <= k < i ==> (#[trigger] self.actor_fisher@[k])@ == start[k].forgotten(),
                forall|k: int| i <= k < n ==> (#[trigger] self.actor_fisher@[k])@ == start[k],
            decreases n - i,
        {
            self.actor_fisher[i].forget(&self.backend);
            i = i + 1;
        }
        assert(fisher_views(self.actor_fisher@) =~= start.map_values(
            |f: FisherView| f.forgotten(),
        ));
    }

    /// Closes the training memories.
    pub fn seal_replay_training_memories(&mut self) -> (r: Result<(), PcError>)
        ensures
            match opt_buffer(old(self).replay_buffer) {
                Some(b) => r is Ok && opt_buffer(final(self).replay_buffer) == Some(
                    BufferView { training_phase: false, ..b },
                ),
                None => r == Err::<(), PcError>(
                    PcError::ConfigValidation(ConfigRule::NothingToSeal),
                ) && final(self).replay_buffer is None,
            },
            *final(self) == (PcActorCritic {
                replay_buffer: final(self).replay_buffer,
                ..*old(self)
            }),
    {
        match &mut self.replay_buffer {
            Some(buffer) => {
                buffer.seal_training_memories();
                Ok(())
            },
            None => Err(PcError::ConfigValidation(ConfigRule::NothingToSeal)),
        }
    }

    /// Forgets the recent memories.
    pub fn clear_recent_memories(&mut self) -> (r: Result<(), PcError>)
        ensures
            match opt_buffer(old(self).replay_buffer) {
                Some(b) => r is Ok && opt_buffer(final(self).replay_buffer) == Some(
                    BufferView { recent: Seq::empty(), ..b },
                ),
                None => r == Err::<(), PcError>(
                    PcError::ConfigValidation(ConfigRule::NothingToClear),
                ) && final(self).replay_buffer is None,
            },
            *final(self) == (PcActorCritic {
                replay_buffer: final(self).replay_buffer,
                ..*old(self)
            }),
    {
        match &mut self.replay_buffer {
            Some(buffer) => {
                buffer.clear_recent();
                Ok(())
            },
            None => Err(PcError::ConfigValidation(ConfigRule::NothingToClear)),
        }
    }

    /// How often a replayed value error was truncated.
    pub fn replay_clamp_count(&self) -> (r: u64)
        ensures
            r == self.replay_clamp_count,
    {
        self.replay_clamp_count
    }
}

} // verus!
