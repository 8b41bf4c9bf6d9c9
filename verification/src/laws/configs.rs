//! Laws of which configurations are accepted.

use vstd::prelude::*;

use crate::activation::Activation;
use crate::arith::Arith;
use crate::pc_actor::actor_fault;
use crate::pc_actor_critic::agent::build_fault;
use crate::pc_actor_critic::config::{
    approx_eq, config_fault, fixed_change, lemma_no_gap_is_equal, sac_critic, sac_mode,
    ActionSpace, PcActorCriticConfig,
};
use crate::pc_model::PcActorConfigView;
use crate::scalar::{lit, Scalar, EPSILON, FOUR, ONE, TEN, ZERO};

verus! {

/// Strictly between zero and one, or NaN.
pub open spec fn inside_unit(x: Scalar) -> bool {
    x.is_nan() || (lit(ZERO).lt(x) && x.lt(lit(ONE)))
}

/// Positive, or NaN.
pub open spec fn positive(x: Scalar) -> bool {
    x.is_nan() || lit(ZERO).lt(x)
}

/// A replay floor is not in use, marked by minus one, or lies between zero and ten times
/// the ceiling.
pub open spec fn usable_floor<A: Arith>(x: Scalar, ceil: Scalar) -> bool {
    A::minus(x, lit(ONE).neg()).abs().lt(lit(EPSILON)) || (x.is_finite() && x.within(
        lit(ZERO),
        A::times(lit(TEN), ceil),
    ))
}

/// What every accepted configuration keeps to.
pub open spec fn sensible<A: Arith>(c: PcActorCriticConfig) -> bool {
    &&& c.actor.lr_weights.is_finite()
    &&& c.actor.alpha.is_finite()
    &&& c.actor.tol.is_finite()
    &&& c.actor.temperature.is_finite()
    &&& c.actor.local_lambda.is_finite()
    &&& c.actor.rezero_init.is_finite()
    &&& c.critic.lr.is_finite()
    &&& c.scale_floor.is_finite()
    &&& c.scale_ceil.is_finite()
    &&& c.gamma.within(lit(ZERO), lit(ONE))
    &&& c.adaptive_surprise ==> c.surprise_buffer_size >= 10
    &&& lit(ZERO).le(c.scale_floor) && c.scale_floor.lt(c.scale_ceil)
    &&& c.actor_hysteresis ==> positive(c.actor_wake_fraction) && inside_unit(
        c.actor_sleep_fraction,
    )
    &&& c.critic_hysteresis ==> positive(c.critic_wake_fraction) && inside_unit(
        c.critic_sleep_fraction,
    )
    &&& c.consolidation_decay.within(lit(ZERO), lit(ONE))
    &&& c.critic_consolidation_decay.within(lit(ZERO), lit(ONE))
    &&& c.adaptive_consolidation ==> positive(c.consolidation_sigmoid_k) && inside_unit(
        c.consolidation_ema_beta,
    ) && positive(c.consolidation_error_threshold)
    &&& c.ewc_lambda.is_nan() || lit(ZERO).le(c.ewc_lambda)
    &&& lit(ZERO).lt(c.ewc_lambda) ==> c.fisher_decay.within(lit(ZERO), lit(ONE)) && inside_unit(
        c.fisher_ema_beta,
    )
    &&& c.td_steps != 1
    &&& c.gae_lambda is Some ==> c.gae_lambda->0.within(lit(ZERO), lit(ONE)) && c.td_steps == 0
    &&& c.distillation_lambda_polyak.is_finite() && lit(ZERO).le(c.distillation_lambda_polyak)
    &&& c.distillation_lambda_frozen.is_finite() && lit(ZERO).le(c.distillation_lambda_frozen)
    &&& c.polyak_tau.within(lit(ZERO), lit(ONE))
    &&& lit(ZERO).lt(c.distillation_lambda_polyak) ==> lit(ZERO).lt(c.polyak_tau)
    &&& c.replay_recent_capacity > 0 ==> c.replay_training_capacity > 0
    &&& c.replay_training_capacity > 0 ==> c.replay_batch_size > 0
    &&& usable_floor::<A>(c.scale_floor_replay, c.scale_ceil)
    &&& usable_floor::<A>(c.critic_floor_replay, c.scale_ceil)
    &&& c.critic.input_size == c.actor.input_size + c.actor@.latent_size()
}

/// What an accepted configuration of a continuous agent keeps to besides.
pub open spec fn sensible_continuous(c: PcActorCriticConfig) -> bool {
    &&& !c.actor_hysteresis
    &&& !c.critic_hysteresis
    &&& c.policy_sigma.is_finite()
    &&& c.distillation_lambda_polyak.num_eq(lit(ZERO))
    &&& c.distillation_lambda_frozen.num_eq(lit(ZERO))
    &&& c.td_steps == 0
    &&& c.actor.output_activation == Activation::Linear
    &&& c.q_critic is Some
    &&& c.actor.output_size == 2 * c.q_critic->0.action_dim
    &&& c.actor.input_size == c.q_critic->0.state_dim
    &&& 0 < c.replay_batch_size <= c.replay_training_capacity
    &&& c.target_entropy is Some ==> c.target_entropy->0.is_finite()
    &&& lit(ZERO).lt(c.polyak_tau)
    &&& c.alpha_lr.is_finite() && lit(ZERO).lt(c.alpha_lr)
    &&& c.log_alpha_init.is_finite()
}

/// A configuration is accepted exactly where it keeps to all rules, a continuous one
/// exactly where it keeps to the rules of continuous agents besides.
pub proof fn law_accepted_exactly_where_sensible<A: Arith>(c: PcActorCriticConfig)
    ensures
        config_fault::<A>(c) is None <==> sensible::<A>(c) && (c.action_space
            == ActionSpace::Continuous ==> sensible_continuous(c)),
{
}

/// An actor is accepted exactly where it reads and produces something, at a temperature
/// that is not zero or negative, blends in a ratio between zero and one, and starts its
/// skip connections at no negative scale where it has any.
pub proof fn law_actor_accepted_exactly_where_sensible(cfg: PcActorConfigView)
    ensures
        actor_fault(cfg) is None <==> cfg.input_size > 0 && cfg.output_size > 0 && positive(
            cfg.temperature,
        ) && cfg.local_lambda.within(lit(ZERO), lit(ONE)) && (cfg.residual
            ==> cfg.rezero_init.is_nan() || lit(ZERO).le(cfg.rezero_init)),
{
}

/// An agent is built exactly where its configuration and that of its actor are accepted
/// and, where it has action-value critics, there is something to do.
pub proof fn law_built_exactly_where_accepted<A: Arith>(c: PcActorCriticConfig)
    ensures
        build_fault::<A>(c) is None <==> config_fault::<A>(c) is None && actor_fault(c.actor@)
            is None && (c.action_space == ActionSpace::Continuous && c.q_critic is Some
            ==> c.q_critic->0.action_dim > 0),
        sac_mode(c) <==> c.action_space == ActionSpace::Continuous && c.q_critic is Some,
        sac_critic(c) is Some <==> sac_mode(c),
        sac_mode(c) ==> sac_critic(c) == c.q_critic,
{
}

/// Two numbers count as equal where they are, or where both are finite and their
/// distance is within four roundings of the larger magnitude, or of one.
pub proof fn law_equal_up_to_rounding<A: Arith>(a: Scalar, b: Scalar)
    ensures
        a.num_eq(b) ==> approx_eq::<A>(a, b),
        !a.num_eq(b) && (!a.is_finite() || !b.is_finite()) ==> !approx_eq::<A>(a, b),
        !a.num_eq(b) && a.is_finite() && b.is_finite() ==> (approx_eq::<A>(a, b) <==> A::minus(
            a,
            b,
        ).abs().le(
            A::times(
                A::times(lit(FOUR), lit(EPSILON)),
                if lit(ONE).le(a.abs()) && b.abs().le(a.abs()) {
                    a.abs()
                } else if lit(ONE).le(b.abs()) {
                    b.abs()
                } else {
                    lit(ONE)
                },
            ),
        )),
{
}

/// The parameters of the networks that may not change while an agent lives agree.
pub open spec fn same_networks<A: Arith>(c: PcActorCriticConfig, n: PcActorCriticConfig) -> bool {
    &&& c.actor.input_size == n.actor.input_size
    &&& c.actor.hidden_layers@ == n.actor.hidden_layers@
    &&& c.actor.output_size == n.actor.output_size
    &&& c.actor.output_activation == n.actor.output_activation
    &&& c.actor.residual == n.actor.residual
    &&& approx_eq::<A>(c.actor.rezero_init, n.actor.rezero_init)
    &&& approx_eq::<A>(c.actor.lr_weights, n.actor.lr_weights)
    &&& approx_eq::<A>(c.actor.alpha, n.actor.alpha)
    &&& approx_eq::<A>(c.actor.tol, n.actor.tol)
    &&& c.actor.min_steps == n.actor.min_steps
    &&& c.actor.max_steps == n.actor.max_steps
    &&& approx_eq::<A>(c.actor.temperature, n.actor.temperature)
    &&& approx_eq::<A>(c.actor.local_lambda, n.actor.local_lambda)
    &&& c.actor.synchronous == n.actor.synchronous
    &&& c.critic.input_size == n.critic.input_size
    &&& c.critic.hidden_layers@ == n.critic.hidden_layers@
    &&& approx_eq::<A>(c.critic.lr, n.critic.lr)
    &&& c.critic.output_activation == n.critic.output_activation
    &&& match (c.q_critic, n.q_critic) {
        (Some(x), Some(y)) => {
            &&& x.state_dim == y.state_dim
            &&& x.action_dim == y.action_dim
            &&& x.hidden_layers@ == y.hidden_layers@
            &&& (c.action_space == ActionSpace::Continuous) == (n.action_space
                == ActionSpace::Continuous)
        },
        (None, None) => true,
        _ => false,
    }
}

/// A new configuration is taken exactly where it leaves the networks as they are.
pub proof fn law_change_taken_exactly_where_networks_stay<A: Arith>(
    c: PcActorCriticConfig,
    n: PcActorCriticConfig,
)
    ensures
        fixed_change::<A>(c, n) is None <==> same_networks::<A>(c, n),
{
    lemma_no_gap_is_equal(c.actor.hidden_layers@, n.actor.hidden_layers@);
    lemma_no_gap_is_equal(c.critic.hidden_layers@, n.critic.hidden_layers@);
    if c.q_critic is Some && n.q_critic is Some {
        lemma_no_gap_is_equal(c.q_critic->0.hidden_layers@, n.q_critic->0.hidden_layers@);
    }
}

} // verus!
