//! Laws of fresh agents.

use rand::rngs::StdRng;
use vstd::prelude::*;

use crate::activation::Activation;
use crate::linalg::{LinAlg, MatView};
use crate::mlp_critic::MlpCriticConfigView;
use crate::pc_actor_critic::agent::{
    decay_series, first_log_alpha, fisher_phase, fresh_actor_hysteresis, fresh_critic_hysteresis,
    fresh_layer_errors, fresh_memory, memory_after, networks_from, trace_len, PcActorCritic,
};
use crate::pc_actor_critic::config::{ActionSpace, PcActorCriticConfig};
use crate::pc_actor_critic::plasticity::{EwmaTracker, HysteresisState, PlasticityState};
use crate::pc_actor_critic::replay::BufferView;
use crate::pc_model::{initial_projections, ActorView, PcActorConfigView};
use crate::q_critic::QCriticConfig;
use crate::rng::seeded;
use crate::scalar::{lit, Scalar, ONE, ZERO};
use crate::stack::{initial_stack, StackShape};

verus! {

/// Decay factors: the topmost hidden layer has the power of zero, each layer below has
/// one power more.
pub proof fn law_decay_factors<L: LinAlg>(decay: Scalar, n: nat, i: int)
    requires
        0 <= i < n,
    ensures
        decay_series::<L>(decay, n).len() == n,
        decay_series::<L>(decay, n)[i] == L::power(decay, (n - 1 - i) as nat),
{
}

/// A fresh actor draws its layers first and then its projections: one matrix for each
/// skip connection between hidden layers of different sizes, none where sizes agree. All
/// scales start where they are configured to.
pub proof fn law_fresh_actor<L: LinAlg>(rng: StdRng, cfg: PcActorConfigView, k: nat)
    requires
        k + 1 < cfg.hidden_layers.len(),
    ensures
        ({
            let (actor, left) = ActorView::initial::<L>(rng, cfg);
            let (layers, after_layers) = initial_stack::<L>(
                rng,
                StackShape {
                    inputs: cfg.input_size as nat,
                    hidden: cfg.hidden_layers,
                    outputs: cfg.output_size as nat,
                    top: cfg.output_activation,
                },
            );
            let skips = if cfg.residual {
                (cfg.hidden_layers.len() - 1) as nat
            } else {
                0
            };
            &&& actor.layers == layers
            &&& (actor.skip_projections, left) == initial_projections::<L>(
                after_layers,
                cfg,
                skips,
            )
            &&& actor.rezero_alpha.len() == skips
            &&& forall|s: int|
                #![trigger actor.rezero_alpha[s]]
                0 <= s < skips ==> actor.rezero_alpha[s] == cfg.rezero_init
        }),
        ({
            let above = cfg.hidden_layers[k as int + 1].size;
            let below = cfg.hidden_layers[k as int].size;
            let (earlier, left) = initial_projections::<L>(rng, cfg, k);
            let (drawn, rest) = L::xavier(left, above as nat, below as nat);
            &&& initial_projections::<L>(rng, cfg, 0) == (Seq::<Option<MatView>>::empty(), rng)
            &&& initial_projections::<L>(rng, cfg, k + 1) == if above == below {
                (earlier.push(None), left)
            } else {
                (earlier.push(Some(drawn)), rest)
            }
        }),
{
}

/// A seed gives the actor, the state-value critic and, for an agent that has them, the
/// first and the second action-value critic, one after the other from one generator.
pub proof fn law_networks_of_a_seed<L: LinAlg>(
    rng: StdRng,
    actor: PcActorConfigView,
    critic: MlpCriticConfigView,
    q_critic: Option<QCriticConfig>,
)
    ensures
        ({
            let nets = networks_from::<L>(rng, actor, critic, q_critic);
            let (first, left) = ActorView::initial::<L>(rng, actor);
            let (second, left) = initial_stack::<L>(
                left,
                StackShape {
                    inputs: critic.input_size as nat,
                    hidden: critic.hidden_layers,
                    outputs: 1,
                    top: critic.output_activation,
                },
            );
            &&& nets.actor == first
            &&& nets.critic == second
            &&& q_critic is None ==> nets.q1 is None && nets.q2 is None && nets.rng == left
            &&& q_critic is Some ==> {
                let shape = StackShape {
                    inputs: (q_critic->0.state_dim + q_critic->0.action_dim) as nat,
                    hidden: q_critic->0.hidden_layers@,
                    outputs: 1,
                    top: Activation::Linear,
                };
                let (q1, after_q1) = initial_stack::<L>(left, shape);
                let (q2, after_q2) = initial_stack::<L>(after_q1, shape);
                nets.q1 == Some(q1) && nets.q2 == Some(q2) && nets.rng == after_q2
            }
        }),
{
}

/// A switch starts in the learning state, with blank averages over its two windows and
/// its own fractions, and may first rest after the slow window and after the steps that
/// an importance estimate needs, which is one over one less `beta`, rounded up, where
/// consolidation is on. There is a switch exactly where it is enabled.
pub proof fn law_fresh_switches<L: LinAlg>(c: PcActorCriticConfig)
    ensures
        ({
            let phase = if lit(ZERO).lt(c.ewc_lambda) {
                L::ceiling(L::over(lit(ONE), L::minus(lit(ONE), c.fisher_ema_beta)))
            } else {
                0
            };
            &&& fisher_phase::<L>(c) == phase
            &&& fresh_actor_hysteresis::<L>(c) is Some <==> c.actor_hysteresis
            &&& fresh_critic_hysteresis::<L>(c) is Some <==> c.critic_hysteresis
            &&& c.actor_hysteresis ==> starts(
                fresh_actor_hysteresis::<L>(c)->0,
                c.actor_fast_window,
                c.actor_slow_window,
                c.actor_wake_fraction,
                c.actor_sleep_fraction,
                phase,
            )
            &&& c.critic_hysteresis ==> starts(
                fresh_critic_hysteresis::<L>(c)->0,
                c.critic_fast_window,
                c.critic_slow_window,
                c.critic_wake_fraction,
                c.critic_sleep_fraction,
                phase,
            )
        }),
{
}

/// A switch that nothing has happened to.
pub open spec fn starts(
    h: HysteresisState,
    fast: usize,
    slow: usize,
    wake: Scalar,
    sleep: Scalar,
    phase: u64,
) -> bool {
    &&& h.fast == (EwmaTracker { value: lit(ZERO), k: 0, window: fast })
    &&& h.slow == (EwmaTracker { value: lit(ZERO), k: 0, window: slow })
    &&& h.state == PlasticityState::Plastic
    &&& h.wake_fraction == wake
    &&& h.sleep_fraction == sleep
    &&& h.min_initial_plastic >= slow
    &&& h.min_initial_plastic >= phase
    &&& h.min_initial_plastic == slow || h.min_initial_plastic == phase
}

/// What else a fresh agent has: a temperature as configured where it acts continuously
/// with critics, running layer errors of zero where consolidation is adaptive, a trace
/// where advantages are estimated, and an empty memory where there is room. Only an agent
/// that acts discretely may keep rewarded steps alone. A changed configuration keeps the
/// memory exactly where its capacities and its filter stay.
pub proof fn law_fresh_books(
    c: PcActorCriticConfig,
    n: PcActorCriticConfig,
    memory: Option<BufferView>,
)
    ensures
        first_log_alpha(c) == if c.action_space == ActionSpace::Continuous && c.q_critic is Some {
            c.log_alpha_init
        } else {
            lit(ZERO)
        },
        fresh_layer_errors(c).len() == if c.adaptive_consolidation {
            c.actor.hidden_layers@.len()
        } else {
            0
        },
        forall|i: int|
            0 <= i < fresh_layer_errors(c).len() ==> #[trigger] fresh_layer_errors(c)[i] == lit(
                ZERO,
            ),
        trace_len(c) == if c.gae_lambda is Some {
            c.actor.output_size as nat
        } else {
            0
        },
        fresh_memory(c) is Some <==> c.replay_training_capacity > 0,
        fresh_memory(c) is Some ==> {
            let b = fresh_memory(c)->0;
            &&& b.training.len() == 0
            &&& b.recent.len() == 0
            &&& b.training_capacity == c.replay_training_capacity
            &&& b.recent_capacity == c.replay_recent_capacity
            &&& b.positive_only <==> c.action_space != ActionSpace::Continuous
                && c.replay_positive_only
            &&& b.action_space == c.action_space
            &&& b.training_phase
        },
        memory_after(c, n, memory) == if c.replay_training_capacity > 0
            && c.replay_training_capacity == n.replay_training_capacity && c.replay_recent_capacity
            == n.replay_recent_capacity && c.replay_positive_only == n.replay_positive_only {
            memory
        } else {
            fresh_memory(n)
        },
{
}

/// A fresh agent's slow copies are its critics, and its networks are those of its seed.
pub proof fn law_fresh_agent<L: LinAlg>(
    agent: PcActorCritic<L>,
    config: PcActorCriticConfig,
    seed: u64,
)
    requires
        agent.born_of(config, seed),
        config.action_space == ActionSpace::Continuous,
        config.q_critic is Some,
    ensures
        ({
            let nets = networks_from::<L>(
                seeded(seed),
                config.actor@,
                config.critic@,
                config.q_critic,
            );
            &&& agent.actor@ == nets.actor
            &&& agent.critic@ == nets.critic
            &&& agent.q1 is Some && agent.q1->0@ == nets.q1->0
            &&& agent.q2 is Some && agent.q2->0@ == nets.q2->0
            &&& agent.q1_target is Some && agent.q1_target->0@ == agent.q1->0@
            &&& agent.q2_target is Some && agent.q2_target->0@ == agent.q2->0@
            &&& agent.log_alpha == config.log_alpha_init
            &&& agent.rng == nets.rng
            &&& agent.state_prev is None
            &&& agent.sac_skipped_critic_updates == 0
            &&& agent.sac_skipped_actor_updates == 0
        }),
{
}

} // verus!
