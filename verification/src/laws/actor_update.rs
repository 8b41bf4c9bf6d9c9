//! Laws of how an agent lets its actor learn.

use vstd::prelude::*;

use crate::linalg::LinAlg;
use crate::pc_actor::InferResult;
use crate::pc_actor_critic::agent::PcActorCritic;
use crate::pc_actor_critic::config::ActionSpace;
use crate::pc_actor_critic::distillation::kl_gradient;
use crate::pc_actor_critic::fisher::fisher_views;
use crate::pc_actor_critic::learning::{
    consolidated_actor, fisher_after, rate_scale, thresholds, LearnMode,
};
use crate::pc_actor_critic::plasticity::PlasticityState;
use crate::pc_model::{inference, learned, Evidence};
use crate::scalar::{lit, Scalar, EPSILON, ONE, ZERO};

verus! {

/// The scale of an actor update: one in a continuous agent; while the actor rests a
/// floor, the replay floor when it learns from memory and that floor is not the sentinel
/// `-1`; and otherwise what the surprise earns against the thresholds in force. The
/// critic's scale is what its value error earns against its own history.
pub proof fn law_scale_of_an_actor_update<L: LinAlg>(
    agent: PcActorCritic<L>,
    surprise: Scalar,
    mode: LearnMode,
)
    ensures
        ({
            let c = agent.config;
            let rests = agent.actor_hysteresis is Some && agent.actor_hysteresis->0.state
                == PlasticityState::Frozen;
            let unset = L::minus(c.scale_floor_replay, lit(ONE).neg()).abs().lt(lit(EPSILON));
            let (low, high) = thresholds::<L>(
                c.adaptive_surprise,
                agent.surprise_buffer@,
                c.surprise_low,
                c.surprise_high,
            );
            let (td_low, td_high) = thresholds::<L>(
                c.adaptive_surprise,
                agent.td_error_buffer@,
                c.surprise_low,
                c.surprise_high,
            );
            let scale = agent.actor_scale(surprise, mode);
            &&& c.action_space == ActionSpace::Continuous ==> scale == lit(ONE)
            &&& c.action_space != ActionSpace::Continuous && rests && mode == LearnMode::Replay
                && !unset ==> scale == c.scale_floor_replay
            &&& c.action_space != ActionSpace::Continuous && rests && (mode == LearnMode::Online
                || unset) ==> scale == c.scale_floor
            &&& c.action_space != ActionSpace::Continuous && !rests ==> scale == rate_scale::<L>(
                surprise,
                low,
                high,
                c.scale_floor,
                c.scale_ceil,
            )
            &&& agent.scale_for_surprise(surprise) == rate_scale::<L>(
                surprise,
                low,
                high,
                c.scale_floor,
                c.scale_ceil,
            )
            &&& agent.scale_for_td_error(surprise) == rate_scale::<L>(
                surprise,
                td_low,
                td_high,
                c.scale_floor,
                c.scale_ceil,
            )
        }),
{
}

/// The decay of the actor's layers: by their running errors where consolidation is
/// adaptive, by the fixed factors otherwise.
pub proof fn law_decay_of_an_actor_update<L: LinAlg>(agent: PcActorCritic<L>, i: int)
    requires
        0 <= i < agent.layer_error_ema@.len(),
    ensures
        !agent.config.adaptive_consolidation ==> agent.actor_decay()
            == agent.actor_decay_factors@,
        agent.config.adaptive_consolidation ==> {
            let x = L::times(
                agent.config.consolidation_sigmoid_k.neg(),
                L::minus(
                    agent.layer_error_ema@[i],
                    agent.config.consolidation_error_threshold,
                ),
            );
            &&& agent.actor_decay().len() == agent.layer_error_ema@.len()
            &&& agent.actor_decay()[i] == L::minus(
                lit(ONE),
                L::over(lit(ONE), L::plus(lit(ONE), L::exp(x.neg()))),
            )
        },
{
}

/// References pull where there is a choice of actions and the actor does not rest, or
/// learns from memory above a positive replay floor. The slow copy adds its part of the
/// pull, where it is there and counts, and the frozen champion adds its own to that.
/// Elsewhere the signal stays.
pub proof fn law_signal_with_references<L: LinAlg>(
    agent: PcActorCritic<L>,
    delta: Seq<Scalar>,
    input: Seq<Scalar>,
    y: Seq<Scalar>,
    valid: Seq<usize>,
    mode: LearnMode,
    j: int,
)
    requires
        0 <= j < delta.len(),
    ensures
        ({
            let rests = agent.actor_hysteresis is Some && agent.actor_hysteresis->0.state
                == PlasticityState::Frozen;
            let pulls = valid.len() > 1 && (!rests || (mode == LearnMode::Replay && lit(ZERO).lt(
                agent.config.scale_floor_replay,
            )));
            let temp = agent.actor.config.temperature;
            let after = agent.pulled_delta(delta, input, y, valid, mode);
            let slow = match agent.polyak_target {
                Some(a) if lit(ZERO).lt(agent.config.distillation_lambda_polyak) => L::plus(
                    delta[j],
                    L::times(
                        agent.config.distillation_lambda_polyak,
                        kl_gradient::<L>(
                            y,
                            inference::<L>(a@, a.config@, input).y_conv,
                            valid,
                            temp,
                        )[j],
                    ),
                ),
                _ => delta[j],
            };
            let both = match agent.frozen_champion {
                Some(a) if lit(ZERO).lt(agent.config.distillation_lambda_frozen) => L::plus(
                    slow,
                    L::times(
                        agent.config.distillation_lambda_frozen,
                        kl_gradient::<L>(
                            y,
                            inference::<L>(a@, a.config@, input).y_conv,
                            valid,
                            temp,
                        )[j],
                    ),
                ),
                _ => slow,
            };
            &&& agent.distils(valid.len(), mode) == pulls
            &&& after.len() == delta.len()
            &&& !pulls ==> after == delta
            &&& pulls ==> after[j] == both
        }),
{
}

/// What an actor update is made of: the signal with the pull of the references, the
/// inference and input that came with it, the scale that its surprise earns, the actor's
/// own blend and the decay of its layers. An update from the step just taken is
/// consolidated where consolidation is on and importances are kept.
pub proof fn law_actor_update<L: LinAlg>(
    agent: PcActorCritic<L>,
    delta: Seq<Scalar>,
    infer: InferResult<L>,
    input: Seq<Scalar>,
    y: Seq<Scalar>,
    valid: Seq<usize>,
    mode: LearnMode,
)
    ensures
        ({
            let e = agent.actor_evidence(delta, infer, input, y, valid, mode);
            let cfg = agent.actor.config@;
            let trained = learned::<L>(agent.actor@, cfg, e);
            let kept = mode == LearnMode::Online && lit(ZERO).lt(agent.config.ewc_lambda)
                && agent.actor_fisher@.len() > 0;
            &&& e == (Evidence {
                input,
                inferred: infer@,
                output_delta: agent.pulled_delta(delta, input, y, valid, mode),
                surprise_scale: agent.actor_scale(infer.surprise_score, mode),
                lambda: agent.actor.config.local_lambda,
                decay_factors: agent.actor_decay(),
            })
            &&& agent.consolidates(mode) == kept
            &&& !kept ==> agent.actor_after(e, mode) == trained
            &&& kept ==> agent.actor_after(e, mode) == consolidated_actor::<L>(
                trained,
                agent.actor@,
                fisher_after::<L>(
                    fisher_views(agent.actor_fisher@),
                    agent.actor@,
                    cfg,
                    e,
                    agent.config.fisher_ema_beta,
                ),
                cfg,
                e.surprise_scale,
                e.decay_factors,
                agent.config.ewc_lambda,
            )
        }),
{
}

} // verus!
