//! The configuration of an agent and the rules it must obey.

use vstd::prelude::*;

use crate::activation::Activation;
use crate::arith::Arith;
use crate::error::{ConfigRule, FixedField, HiddenGap, Network, PcError};
use crate::layer::LayerDef;
use crate::mlp_critic::MlpCriticConfig;
use crate::pc_actor::{lemma_sizes_monotone, PcActorConfig};
use crate::pc_model::sizes_upto;
use crate::q_critic::QCriticConfig;
use crate::scalar::{lit, Scalar, EPSILON, FOUR, ONE, TEN, ZERO};

verus! {

/// The kind of actions an agent takes.
#[derive(Clone, Copy, Debug, PartialEq, Eq, Structural)]
pub enum ActionSpace {
    /// One of finitely many actions.
    Discrete,
    /// A vector of numbers.
    Continuous,
}

/// Configuration of an agent.
#[derive(Debug)]
pub struct PcActorCriticConfig {
    pub actor: PcActorConfig,
    pub critic: MlpCriticConfig,
    /// Discount factor.
    pub gamma: Scalar,
    /// Surprise at or below which the learning rate takes its floor.
    pub surprise_low: Scalar,
    /// Surprise at or above which the learning rate takes its ceiling.
    pub surprise_high: Scalar,
    /// Whether the two thresholds follow the recent surprise.
    pub adaptive_surprise: bool,
    /// How many recent surprise scores are kept.
    pub surprise_buffer_size: usize,
    pub entropy_coeff: Scalar,
    /// Smallest factor on the learning rate.
    pub scale_floor: Scalar,
    /// Largest factor on the learning rate.
    pub scale_ceil: Scalar,
    pub actor_hysteresis: bool,
    pub actor_fast_window: usize,
    pub actor_slow_window: usize,
    pub actor_wake_fraction: Scalar,
    pub actor_sleep_fraction: Scalar,
    pub critic_hysteresis: bool,
    pub critic_fast_window: usize,
    pub critic_slow_window: usize,
    pub critic_wake_fraction: Scalar,
    pub critic_sleep_fraction: Scalar,
    pub actor_wakes_critic: bool,
    pub actor_wakes_critic_threshold: u64,
    pub critic_wakes_actor: bool,
    pub critic_wakes_actor_threshold: u64,
    /// Decay of the actor's learning rate from layer to layer, downwards.
    pub consolidation_decay: Scalar,
    /// Decay of the critic's learning rate from layer to layer, downwards.
    pub critic_consolidation_decay: Scalar,
    /// Whether the actor's decay follows the layers' prediction errors.
    pub adaptive_consolidation: bool,
    pub consolidation_ema_beta: Scalar,
    pub consolidation_sigmoid_k: Scalar,
    pub consolidation_error_threshold: Scalar,
    /// Strength of elastic weight consolidation; zero turns it off.
    pub ewc_lambda: Scalar,
    pub fisher_decay: Scalar,
    pub fisher_ema_beta: Scalar,
    pub logits_reversal: bool,
    pub td_steps: usize,
    pub gae_lambda: Option<Scalar>,
    /// Strength of distillation towards the Polyak average; zero turns it off.
    pub distillation_lambda_polyak: Scalar,
    /// Share by which averages follow their live networks.
    pub polyak_tau: Scalar,
    /// Strength of distillation towards the frozen champion; zero turns it off.
    pub distillation_lambda_frozen: Scalar,
    /// How many training memories are kept; zero keeps none.
    pub replay_training_capacity: usize,
    /// How many recent memories are kept.
    pub replay_recent_capacity: usize,
    pub replay_positive_only: bool,
    pub replay_batch_size: usize,
    /// Floor of the actor's learning rate on replay, or the sentinel.
    pub scale_floor_replay: Scalar,
    /// Floor of the critic's learning rate on replay, or the sentinel.
    pub critic_floor_replay: Scalar,
    pub action_space: ActionSpace,
    pub policy_sigma: Scalar,
    pub policy_entropy_coeff: Scalar,
    /// The twin action-value critics of a continuous agent.
    pub q_critic: Option<QCriticConfig>,
    /// Entropy that the temperature is tuned towards; `None` is minus the
    /// number of action components.
    pub target_entropy: Option<Scalar>,
    pub log_alpha_init: Scalar,
    pub alpha_lr: Scalar,
    /// Memories to collect by uniformly random actions before the policy acts.
    pub learning_starts: usize,
}

/// Equal content.
pub open spec fn same_q(a: Option<QCriticConfig>, b: Option<QCriticConfig>) -> bool {
    match (a, b) {
        (Some(x), Some(y)) => x@ == y@,
        (None, None) => true,
        _ => false,
    }
}

/// Equal content.
pub open spec fn same_config(a: PcActorCriticConfig, b: PcActorCriticConfig) -> bool {
    &&& a.actor@ == b.actor@
    &&& a.critic@ == b.critic@
    &&& same_q(a.q_critic, b.q_critic)
    &&& a == (PcActorCriticConfig { actor: a.actor, critic: a.critic, q_critic: a.q_critic, ..b })
}

/// A copy of an optional configuration.
pub fn copy_q(q: &Option<QCriticConfig>) -> (r: Option<QCriticConfig>)
    ensures
        same_q(r, *q),
{
    match q {
        Some(c) => Some(c.clone()),
        None => None,
    }
}

impl Clone for PcActorCriticConfig {
    fn clone(&self) -> (r: Self)
        ensures
            same_config(r, *self),
    {
        PcActorCriticConfig {
            actor: self.actor.clone(),
            critic: self.critic.clone(),
            gamma: self.gamma,
            surprise_low: self.surprise_low,
            surprise_high: self.surprise_high,
            adaptive_surprise: self.adaptive_surprise,
            surprise_buffer_size: self.surprise_buffer_size,
            entropy_coeff: self.entropy_coeff,
            scale_floor: self.scale_floor,
            scale_ceil: self.scale_ceil,
            actor_hysteresis: self.actor_hysteresis,
            actor_fast_window: self.actor_fast_window,
            actor_slow_window: self.actor_slow_window,
            actor_wake_fraction: self.actor_wake_fraction,
            actor_sleep_fraction: self.actor_sleep_fraction,
            critic_hysteresis: self.critic_hysteresis,
            critic_fast_window: self.critic_fast_window,
            critic_slow_window: self.critic_slow_window,
            critic_wake_fraction: self.critic_wake_fraction,
            critic_sleep_fraction: self.critic_sleep_fraction,
            actor_wakes_critic: self.actor_wakes_critic,
            actor_wakes_critic_threshold: self.actor_wakes_critic_threshold,
            critic_wakes_actor: self.critic_wakes_actor,
            critic_wakes_actor_threshold: self.critic_wakes_actor_threshold,
            consolidation_decay: self.consolidation_decay,
            critic_consolidation_decay: self.critic_consolidation_decay,
            adaptive_consolidation: self.adaptive_consolidation,
            consolidation_ema_beta: self.consolidation_ema_beta,
            consolidation_sigmoid_k: self.consolidation_sigmoid_k,
            consolidation_error_threshold: self.consolidation_error_threshold,
            ewc_lambda: self.ewc_lambda,
            fisher_decay: self.fisher_decay,
            fisher_ema_beta: self.fisher_ema_beta,
            logits_reversal: self.logits_reversal,
            td_steps: self.td_steps,
            gae_lambda: self.gae_lambda,
            distillation_lambda_polyak: self.distillation_lambda_polyak,
            polyak_tau: self.polyak_tau,
            distillation_lambda_frozen: self.distillation_lambda_frozen,
            replay_training_capacity: self.replay_training_capacity,
            replay_recent_capacity: self.replay_recent_capacity,
            replay_positive_only: self.replay_positive_only,
            replay_batch_size: self.replay_batch_size,
            scale_floor_replay: self.scale_floor_replay,
            critic_floor_replay: self.critic_floor_replay,
            action_space: self.action_space,
            policy_sigma: self.policy_sigma,
            policy_entropy_coeff: self.policy_entropy_coeff,
            q_critic: copy_q(&self.q_critic),
            target_entropy: self.target_entropy,
            log_alpha_init: self.log_alpha_init,
            alpha_lr: self.alpha_lr,
            learning_starts: self.learning_starts,
        }
    }
}

/// Whether a replay floor is the sentinel `-1`, up to rounding.
pub open spec fn replay_floor_sentinel<A: Arith>(value: Scalar) -> bool {
    A::minus(value, lit(ONE).neg()).abs().lt(lit(EPSILON))
}

/// Whether a replay floor is the sentinel `-1`, up to rounding.
pub fn is_replay_floor_sentinel<A: Arith>(value: Scalar) -> (r: bool)
    ensures
        r == replay_floor_sentinel::<A>(value),
{
    A::r_sub(value, lit(ONE).neg()).abs().lt(lit(EPSILON))
}

/// The first finiteness rule that is broken.
pub open spec fn finiteness_fault(c: PcActorCriticConfig) -> Option<ConfigRule> {
    if !c.actor.lr_weights.is_finite() {
        Some(ConfigRule::ActorLrNotFinite(c.actor.lr_weights))
    } else if !c.actor.alpha.is_finite() {
        Some(ConfigRule::ActorAlphaNotFinite(c.actor.alpha))
    } else if !c.actor.tol.is_finite() {
        Some(ConfigRule::ActorTolNotFinite(c.actor.tol))
    } else if !c.actor.temperature.is_finite() {
        Some(ConfigRule::ActorTemperatureNotFinite(c.actor.temperature))
    } else if !c.actor.local_lambda.is_finite() {
        Some(ConfigRule::ActorLocalLambdaNotFinite(c.actor.local_lambda))
    } else if !c.actor.rezero_init.is_finite() {
        Some(ConfigRule::ActorRezeroInitNotFinite(c.actor.rezero_init))
    } else if !c.critic.lr.is_finite() {
        Some(ConfigRule::CriticLrNotFinite(c.critic.lr))
    } else if !c.scale_floor.is_finite() {
        Some(ConfigRule::ScaleFloorNotFinite(c.scale_floor))
    } else if !c.scale_ceil.is_finite() {
        Some(ConfigRule::ScaleCeilNotFinite(c.scale_ceil))
    } else {
        None
    }
}

/// The first rule on discount and learning-rate scaling that is broken.
pub open spec fn scaling_fault(c: PcActorCriticConfig) -> Option<ConfigRule> {
    if !c.gamma.within(lit(ZERO), lit(ONE)) {
        Some(ConfigRule::GammaOutOfRange(c.gamma))
    } else if c.adaptive_surprise && c.surprise_buffer_size < 10 {
        Some(ConfigRule::SurpriseBufferTooSmall(c.surprise_buffer_size))
    } else if c.scale_floor.lt(lit(ZERO)) {
        Some(ConfigRule::ScaleFloorNegative(c.scale_floor))
    } else if c.scale_ceil.le(c.scale_floor) {
        Some(ConfigRule::ScaleCeilNotAboveFloor { ceil: c.scale_ceil, floor: c.scale_floor })
    } else {
        None
    }
}

/// Not strictly between zero and one. A NaN is not outside.
pub open spec fn outside_unit(x: Scalar) -> bool {
    x.le(lit(ZERO)) || lit(ONE).le(x)
}

/// The first rule on hysteresis that is broken.
pub open spec fn hysteresis_fault(c: PcActorCriticConfig) -> Option<ConfigRule> {
    if c.actor_hysteresis && c.actor_wake_fraction.le(lit(ZERO)) {
        Some(ConfigRule::ActorWakeFractionNotPositive(c.actor_wake_fraction))
    } else if c.actor_hysteresis && outside_unit(c.actor_sleep_fraction) {
        Some(ConfigRule::ActorSleepFractionOutOfRange(c.actor_sleep_fraction))
    } else if c.critic_hysteresis && c.critic_wake_fraction.le(lit(ZERO)) {
        Some(ConfigRule::CriticWakeFractionNotPositive(c.critic_wake_fraction))
    } else if c.critic_hysteresis && outside_unit(c.critic_sleep_fraction) {
        Some(ConfigRule::CriticSleepFractionOutOfRange(c.critic_sleep_fraction))
    } else {
        None
    }
}

/// The first rule on consolidation that is broken.
pub open spec fn consolidation_fault(c: PcActorCriticConfig) -> Option<ConfigRule> {
    if !c.consolidation_decay.within(lit(ZERO), lit(ONE)) {
        Some(ConfigRule::ConsolidationDecayOutOfRange(c.consolidation_decay))
    } else if !c.critic_consolidation_decay.within(lit(ZERO), lit(ONE)) {
        Some(ConfigRule::CriticConsolidationDecayOutOfRange(c.critic_consolidation_decay))
    } else if c.adaptive_consolidation && c.consolidation_sigmoid_k.le(lit(ZERO)) {
        Some(ConfigRule::SigmoidSlopeNotPositive(c.consolidation_sigmoid_k))
    } else if c.adaptive_consolidation && outside_unit(c.consolidation_ema_beta) {
        Some(ConfigRule::ConsolidationBetaOutOfRange(c.consolidation_ema_beta))
    } else if c.adaptive_consolidation && c.consolidation_error_threshold.le(lit(ZERO)) {
        Some(ConfigRule::ErrorThresholdNotPositive(c.consolidation_error_threshold))
    } else if c.ewc_lambda.lt(lit(ZERO)) {
        Some(ConfigRule::EwcLambdaNegative(c.ewc_lambda))
    } else if lit(ZERO).lt(c.ewc_lambda) && !c.fisher_decay.within(lit(ZERO), lit(ONE)) {
        Some(ConfigRule::FisherDecayOutOfRange(c.fisher_decay))
    } else if lit(ZERO).lt(c.ewc_lambda) && outside_unit(c.fisher_ema_beta) {
        Some(ConfigRule::FisherBetaOutOfRange(c.fisher_ema_beta))
    } else {
        None
    }
}

/// The first rule on returns and distillation that is broken.
pub open spec fn distillation_fault(c: PcActorCriticConfig) -> Option<ConfigRule> {
    if c.td_steps == 1 {
        Some(ConfigRule::TdStepsOne)
    } else if c.gae_lambda is Some && !c.gae_lambda->0.within(lit(ZERO), lit(ONE)) {
        Some(ConfigRule::GaeLambdaOutOfRange(c.gae_lambda->0))
    } else if c.gae_lambda is Some && c.td_steps > 0 {
        Some(ConfigRule::GaeWithTdSteps)
    } else if !c.distillation_lambda_polyak.is_finite() || c.distillation_lambda_polyak.lt(
        lit(ZERO),
    ) {
        Some(ConfigRule::PolyakLambdaInvalid(c.distillation_lambda_polyak))
    } else if !c.polyak_tau.is_finite() || !c.polyak_tau.within(lit(ZERO), lit(ONE)) {
        Some(ConfigRule::PolyakTauInvalid(c.polyak_tau))
    } else if lit(ZERO).lt(c.distillation_lambda_polyak) && c.polyak_tau.num_eq(lit(ZERO)) {
        Some(ConfigRule::PolyakTauZero)
    } else if !c.distillation_lambda_frozen.is_finite() || c.distillation_lambda_frozen.lt(
        lit(ZERO),
    ) {
        Some(ConfigRule::FrozenLambdaInvalid(c.distillation_lambda_frozen))
    } else {
        None
    }
}

/// The first rule on memories that is broken.
pub open spec fn replay_fault(c: PcActorCriticConfig) -> Option<ConfigRule> {
    if c.replay_recent_capacity > 0 && c.replay_training_capacity == 0 {
        Some(ConfigRule::RecentWithoutTraining)
    } else if c.replay_training_capacity > 0 && c.replay_batch_size == 0 {
        Some(ConfigRule::ReplayBatchZero)
    } else if c.action_space == ActionSpace::Continuous && c.replay_training_capacity > 0
        && c.replay_batch_size > c.replay_training_capacity {
        Some(
            ConfigRule::ReplayBatchExceedsCapacity {
                batch: c.replay_batch_size,
                capacity: c.replay_training_capacity,
            },
        )
    } else {
        None
    }
}

/// The first rule on continuous agents that a continuous agent breaks.
pub open spec fn continuous_fault(c: PcActorCriticConfig) -> Option<ConfigRule> {
    if c.actor_hysteresis || c.critic_hysteresis {
        Some(ConfigRule::ContinuousHysteresis)
    } else if !c.policy_sigma.is_finite() {
        Some(ConfigRule::PolicySigmaNotFinite(c.policy_sigma))
    } else if lit(ZERO).lt(c.distillation_lambda_polyak) {
        Some(ConfigRule::ContinuousPolyakLambda(c.distillation_lambda_polyak))
    } else if lit(ZERO).lt(c.distillation_lambda_frozen) {
        Some(ConfigRule::ContinuousFrozenLambda(c.distillation_lambda_frozen))
    } else if c.td_steps != 0 {
        Some(ConfigRule::ContinuousTdSteps(c.td_steps))
    } else if c.actor.output_activation != Activation::Linear {
        Some(ConfigRule::ContinuousOutputActivation(c.actor.output_activation))
    } else if c.q_critic is None {
        Some(ConfigRule::QCriticMissing)
    } else if c.actor.output_size != 2 * c.q_critic->0.action_dim {
        Some(
            ConfigRule::OutputSizeNotTwiceActionDim {
                action_dim: c.q_critic->0.action_dim,
                got: c.actor.output_size,
            },
        )
    } else if c.q_critic->0.state_dim != c.actor.input_size {
        Some(
            ConfigRule::StateDimMismatch {
                state_dim: c.q_critic->0.state_dim,
                input_size: c.actor.input_size,
            },
        )
    } else if c.replay_training_capacity == 0 {
        Some(ConfigRule::ContinuousWithoutReplay)
    } else if c.target_entropy is Some && !c.target_entropy->0.is_finite() {
        Some(ConfigRule::TargetEntropyNotFinite(c.target_entropy->0))
    } else if c.polyak_tau.le(lit(ZERO)) {
        Some(ConfigRule::PolyakTauNotPositive(c.polyak_tau))
    } else if !c.alpha_lr.is_finite() || c.alpha_lr.le(lit(ZERO)) {
        Some(ConfigRule::AlphaLrInvalid(c.alpha_lr))
    } else if !c.log_alpha_init.is_finite() {
        Some(ConfigRule::LogAlphaInitNotFinite(c.log_alpha_init))
    } else {
        None
    }
}

/// Whether a replay floor is the sentinel or lies in `[0, upper]`.
pub open spec fn replay_floor_ok<A: Arith>(value: Scalar, upper: Scalar) -> bool {
    replay_floor_sentinel::<A>(value) || (value.is_finite() && lit(ZERO).le(value) && value.le(
        upper,
    ))
}

/// The size of the state together with all hidden layers of the actor.
pub open spec fn critic_width(c: PcActorCriticConfig) -> nat {
    c.actor.input_size as nat + c.actor@.latent_size()
}

/// The first rule on replay floors and critic width that is broken.
pub open spec fn floor_fault<A: Arith>(c: PcActorCriticConfig) -> Option<ConfigRule> {
    let upper = A::times(lit(TEN), c.scale_ceil);
    if !replay_floor_ok::<A>(c.scale_floor_replay, upper) {
        Some(ConfigRule::ScaleFloorReplayInvalid { value: c.scale_floor_replay, upper })
    } else if !replay_floor_ok::<A>(c.critic_floor_replay, upper) {
        Some(ConfigRule::CriticFloorReplayInvalid { value: c.critic_floor_replay, upper })
    } else if c.critic.input_size != critic_width(c) {
        Some(
            ConfigRule::CriticInputSize {
                got: c.critic.input_size,
                expected: if critic_width(c) <= usize::MAX {
                    critic_width(c) as usize
                } else {
                    usize::MAX
                },
            },
        )
    } else {
        None
    }
}

/// The first of two faults.
pub open spec fn first_fault(a: Option<ConfigRule>, b: Option<ConfigRule>) -> Option<ConfigRule> {
    match a {
        Some(rule) => Some(rule),
        None => b,
    }
}

/// The first rule that a configuration breaks.
pub open spec fn config_fault<A: Arith>(c: PcActorCriticConfig) -> Option<ConfigRule> {
    first_fault(
        finiteness_fault(c),
        first_fault(
            scaling_fault(c),
            first_fault(
                hysteresis_fault(c),
                first_fault(
                    consolidation_fault(c),
                    first_fault(
                        distillation_fault(c),
                        first_fault(
                            replay_fault(c),
                            first_fault(
                                if c.action_space == ActionSpace::Continuous {
                                    continuous_fault(c)
                                } else {
                                    None
                                },
                                floor_fault::<A>(c),
                            ),
                        ),
                    ),
                ),
            ),
        ),
    )
}

fn check_finiteness(c: &PcActorCriticConfig) -> (r: Option<ConfigRule>)
    ensures
        r == finiteness_fault(*c),
{
    if !c.actor.lr_weights.is_finite() {
        Some(ConfigRule::ActorLrNotFinite(c.actor.lr_weights))
    } else if !c.actor.alpha.is_finite() {
        Some(ConfigRule::ActorAlphaNotFinite(c.actor.alpha))
    } else if !c.actor.tol.is_finite() {
        Some(ConfigRule::ActorTolNotFinite(c.actor.tol))
    } else if !c.actor.temperature.is_finite() {
        Some(ConfigRule::ActorTemperatureNotFinite(c.actor.temperature))
    } else if !c.actor.local_lambda.is_finite() {
        Some(ConfigRule::ActorLocalLambdaNotFinite(c.actor.local_lambda))
    } else if !c.actor.rezero_init.is_finite() {
        Some(ConfigRule::ActorRezeroInitNotFinite(c.actor.rezero_init))
    } else if !c.critic.lr.is_finite() {
        Some(ConfigRule::CriticLrNotFinite(c.critic.lr))
    } else if !c.scale_floor.is_finite() {
        Some(ConfigRule::ScaleFloorNotFinite(c.scale_floor))
    } else if !c.scale_ceil.is_finite() {
        Some(ConfigRule::ScaleCeilNotFinite(c.scale_ceil))
    } else {
        None
    }
}

fn check_scaling(c: &PcActorCriticConfig) -> (r: Option<ConfigRule>)
    ensures
        r == scaling_fault(*c),
{
    if !c.gamma.within(lit(ZERO), lit(ONE)) {
        Some(ConfigRule::GammaOutOfRange(c.gamma))
    } else if c.adaptive_surprise && c.surprise_buffer_size < 10 {
        Some(ConfigRule::SurpriseBufferTooSmall(c.surprise_buffer_size))
    } else if c.scale_floor.lt(lit(ZERO)) {
        Some(ConfigRule::ScaleFloorNegative(c.scale_floor))
    } else if c.scale_ceil.le(c.scale_floor) {
        Some(ConfigRule::ScaleCeilNotAboveFloor { ceil: c.scale_ceil, floor: c.scale_floor })
    } else {
        None
    }
}

fn is_outside_unit(x: Scalar) -> (r: bool)
    ensures
        r == outside_unit(x),
{
    x.le(lit(ZERO)) || lit(ONE).le(x)
}

fn check_hysteresis(c: &PcActorCriticConfig) -> (r: Option<ConfigRule>)
    ensures
        r == hysteresis_fault(*c),
{
    if c.actor_hysteresis {
        if c.actor_wake_fraction.le(lit(ZERO)) {
            return Some(ConfigRule::ActorWakeFractionNotPositive(c.actor_wake_fraction));
        }
        if is_outside_unit(c.actor_sleep_fraction) {
            return Some(ConfigRule::ActorSleepFractionOutOfRange(c.actor_sleep_fraction));
        }
    }
    if c.critic_hysteresis {
        if c.critic_wake_fraction.le(lit(ZERO)) {
            return Some(ConfigRule::CriticWakeFractionNotPositive(c.critic_wake_fraction));
        }
        if is_outside_unit(c.critic_sleep_fraction) {
            return Some(ConfigRule::CriticSleepFractionOutOfRange(c.critic_sleep_fraction));
        }
    }
    None
}

fn check_consolidation(c: &PcActorCriticConfig) -> (r: Option<ConfigRule>)
    ensures
        r == consolidation_fault(*c),
{
    if !c.consolidation_decay.within(lit(ZERO), lit(ONE)) {
        return Some(ConfigRule::ConsolidationDecayOutOfRange(c.consolidation_decay));
    }
    if !c.critic_consolidation_decay.within(lit(ZERO), lit(ONE)) {
        return Some(
            ConfigRule::CriticConsolidationDecayOutOfRange(c.critic_consolidation_decay),
        );
    }
    if c.adaptive_consolidation {
        if c.consolidation_sigmoid_k.le(lit(ZERO)) {
            return Some(ConfigRule::SigmoidSlopeNotPositive(c.consolidation_sigmoid_k));
        }
        if is_outside_unit(c.consolidation_ema_beta) {
            return Some(ConfigRule::ConsolidationBetaOutOfRange(c.consolidation_ema_beta));
        }
        if c.consolidation_error_threshold.le(lit(ZERO)) {
            return Some(ConfigRule::ErrorThresholdNotPositive(c.consolidation_error_threshold));
        }
    }
    if c.ewc_lambda.lt(lit(ZERO)) {
        return Some(ConfigRule::EwcLambdaNegative(c.ewc_lambda));
    }
    if lit(ZERO).lt(c.ewc_lambda) {
        if !c.fisher_decay.within(lit(ZERO), lit(ONE)) {
            return Some(ConfigRule::FisherDecayOutOfRange(c.fisher_decay));
        }
        if is_outside_unit(c.fisher_ema_beta) {
            return Some(ConfigRule::FisherBetaOutOfRange(c.fisher_ema_beta));
        }
    }
    None
}

fn check_distillation(c: &PcActorCriticConfig) -> (r: Option<ConfigRule>)
    ensures
        r == distillation_fault(*c),
{
    if c.td_steps == 1 {
        return Some(ConfigRule::TdStepsOne);
    }
    if let Some(lambda) = c.gae_lambda {
        if !lambda.within(lit(ZERO), lit(ONE)) {
            return Some(ConfigRule::GaeLambdaOutOfRange(lambda));
        }
        if c.td_steps > 0 {
            return Some(ConfigRule::GaeWithTdSteps);
        }
    }
    if !c.distillation_lambda_polyak.is_finite() || c.distillation_lambda_polyak.lt(lit(ZERO)) {
        return Some(ConfigRule::PolyakLambdaInvalid(c.distillation_lambda_polyak));
    }
    if !c.polyak_tau.is_finite() || !c.polyak_tau.within(lit(ZERO), lit(ONE)) {
        return Some(ConfigRule::PolyakTauInvalid(c.polyak_tau));
    }
    if lit(ZERO).lt(c.distillation_lambda_polyak) && c.polyak_tau.num_eq(lit(ZERO)) {
        return Some(ConfigRule::PolyakTauZero);
    }
    if !c.distillation_lambda_frozen.is_finite() || c.distillation_lambda_frozen.lt(lit(ZERO)) {
        return Some(ConfigRule::FrozenLambdaInvalid(c.distillation_lambda_frozen));
    }
    None
}

fn check_replay(c: &PcActorCriticConfig) -> (r: Option<ConfigRule>)
    ensures
        r == replay_fault(*c),
{
    if c.replay_recent_capacity > 0 && c.replay_training_capacity == 0 {
        return Some(ConfigRule::RecentWithoutTraining);
    }
    if c.replay_training_capacity > 0 && c.replay_batch_size == 0 {
        return Some(ConfigRule::ReplayBatchZero);
    }
    if c.action_space == ActionSpace::Continuous && c.replay_training_capacity > 0
        && c.replay_batch_size > c.replay_training_capacity {
        return Some(
            ConfigRule::ReplayBatchExceedsCapacity {
                batch: c.replay_batch_size,
                capacity: c.replay_training_capacity,
            },
        );
    }
    None
}

fn check_continuous(c: &PcActorCriticConfig) -> (r: Option<ConfigRule>)
    ensures
        r == continuous_fault(*c),
{
    if c.actor_hysteresis || c.critic_hysteresis {
        return Some(ConfigRule::ContinuousHysteresis);
    }
    if !c.policy_sigma.is_finite() {
        return Some(ConfigRule::PolicySigmaNotFinite(c.policy_sigma));
    }
    if lit(ZERO).lt(c.distillation_lambda_polyak) {
        return Some(ConfigRule::ContinuousPolyakLambda(c.distillation_lambda_polyak));
    }
    if lit(ZERO).lt(c.distillation_lambda_frozen) {
        return Some(ConfigRule::ContinuousFrozenLambda(c.distillation_lambda_frozen));
    }
    if c.td_steps != 0 {
        return Some(ConfigRule::ContinuousTdSteps(c.td_steps));
    }
    if c.actor.output_activation != Activation::Linear {
        return Some(ConfigRule::ContinuousOutputActivation(c.actor.output_activation));
    }
    let q = match &c.q_critic {
        Some(q) => q,
        None => {
            return Some(ConfigRule::QCriticMissing);
        },
    };
    if c.actor.output_size % 2 != 0 || c.actor.output_size / 2 != q.action_dim {
        return Some(
            ConfigRule::OutputSizeNotTwiceActionDim {
                action_dim: q.action_dim,
                got: c.actor.output_size,
            },
        );
    }
    if q.state_dim != c.actor.input_size {
        return Some(
            ConfigRule::StateDimMismatch {
                state_dim: q.state_dim,
                input_size: c.actor.input_size,
            },
        );
    }
    if c.replay_training_capacity == 0 {
        return Some(ConfigRule::ContinuousWithoutReplay);
    }
    if let Some(te) = c.target_entropy {
        if !te.is_finite() {
            return Some(ConfigRule::TargetEntropyNotFinite(te));
        }
    }
    if c.polyak_tau.le(lit(ZERO)) {
        return Some(ConfigRule::PolyakTauNotPositive(c.polyak_tau));
    }
    if !c.alpha_lr.is_finite() || c.alpha_lr.le(lit(ZERO)) {
        return Some(ConfigRule::AlphaLrInvalid(c.alpha_lr));
    }
    if !c.log_alpha_init.is_finite() {
        return Some(ConfigRule::LogAlphaInitNotFinite(c.log_alpha_init));
    }
    None
}

/// Whether a replay floor is the sentinel or lies in `[0, upper]`.
pub fn validate_replay_floor<A: Arith>(value: Scalar, upper: Scalar) -> (r: bool)
    ensures
        r == replay_floor_ok::<A>(value, upper),
{
    is_replay_floor_sentinel::<A>(value) || (value.is_finite() && lit(ZERO).le(value) && value.le(
        upper,
    ))
}

/// The critic's expected width, saturated.
fn expected_critic_width(c: &PcActorCriticConfig) -> (r: Option<usize>)
    ensures
        match r {
            Some(n) => n == critic_width(*c),
            None => critic_width(*c) > usize::MAX,
        },
{
    let defs = &c.actor.hidden_layers;
    let mut sum: usize = c.actor.input_size;
    let mut i: usize = 0;
    while i < defs.len()
        invariant
            i <= defs.len(),
            defs@ == c.actor@.hidden_layers,
            sum == c.actor.input_size + sizes_upto(defs@, i as nat),
        decreases defs.len() - i,
    {
        match sum.checked_add(defs[i].size) {
            Some(next) => {
                sum = next;
            },
            None => {
                proof {
                    lemma_sizes_monotone(defs@, (i + 1) as nat, defs@.len());
                }
                return None;
            },
        }
        i = i + 1;
    }
    Some(sum)
}

fn check_floors<A: Arith>(c: &PcActorCriticConfig) -> (r: Option<ConfigRule>)
    ensures
        r == floor_fault::<A>(*c),
{
    let upper = A::r_mul(lit(TEN), c.scale_ceil);
    if !validate_replay_floor::<A>(c.scale_floor_replay, upper) {
        return Some(ConfigRule::ScaleFloorReplayInvalid { value: c.scale_floor_replay, upper });
    }
    if !validate_replay_floor::<A>(c.critic_floor_replay, upper) {
        return Some(ConfigRule::CriticFloorReplayInvalid { value: c.critic_floor_replay, upper });
    }
    match expected_critic_width(c) {
        Some(expected) => {
            if c.critic.input_size != expected {
                return Some(ConfigRule::CriticInputSize { got: c.critic.input_size, expected });
            }
        },
        None => {
            return Some(
                ConfigRule::CriticInputSize { got: c.critic.input_size, expected: usize::MAX },
            );
        },
    }
    None
}

/// Checks a configuration against every rule; the error names the first that is
/// broken.
pub fn validate_config<A: Arith>(c: &PcActorCriticConfig) -> (r: Result<(), PcError>)
    ensures
        match config_fault::<A>(*c) {
            Some(rule) => r == Err::<(), PcError>(PcError::ConfigValidation(rule)),
            None => r is Ok,
        },
{
    if let Some(rule) = check_finiteness(c) {
        return Err(PcError::ConfigValidation(rule));
    }
    if let Some(rule) = check_scaling(c) {
        return Err(PcError::ConfigValidation(rule));
    }
    if let Some(rule) = check_hysteresis(c) {
        return Err(PcError::ConfigValidation(rule));
    }
    if let Some(rule) = check_consolidation(c) {
        return Err(PcError::ConfigValidation(rule));
    }
    if let Some(rule) = check_distillation(c) {
        return Err(PcError::ConfigValidation(rule));
    }
    if let Some(rule) = check_replay(c) {
        return Err(PcError::ConfigValidation(rule));
    }
    if c.action_space == ActionSpace::Continuous {
        if let Some(rule) = check_continuous(c) {
            return Err(PcError::ConfigValidation(rule));
        }
    }
    if let Some(rule) = check_floors::<A>(c) {
        return Err(PcError::ConfigValidation(rule));
    }
    Ok(())
}

/// An accepted continuous configuration has an action-value critic on the
/// actor's observation, two outputs per action component, a batch that the
/// training memories can hold, no hysteresis, no distillation and a positive
/// averaging share.
pub proof fn law_accepted_continuous_config<A: Arith>(c: PcActorCriticConfig)
    requires
        config_fault::<A>(c) is None,
        c.action_space == ActionSpace::Continuous,
    ensures
        c.q_critic is Some,
        c.actor.output_size == 2 * c.q_critic->0.action_dim,
        c.q_critic->0.state_dim == c.actor.input_size,
        c.actor.output_activation == Activation::Linear,
        0 < c.replay_batch_size <= c.replay_training_capacity,
        !c.actor_hysteresis && !c.critic_hysteresis,
        c.distillation_lambda_polyak.num_eq(lit(ZERO)),
        c.distillation_lambda_frozen.num_eq(lit(ZERO)),
        lit(ZERO).lt(c.polyak_tau) && c.polyak_tau.le(lit(ONE)),
        lit(ZERO).lt(c.alpha_lr),
{
}

/// Every accepted configuration discounts by at most one, scales the learning
/// rate between two ordered finite bounds and gives the critic the state and
/// every hidden layer of the actor.
pub proof fn law_accepted_config<A: Arith>(c: PcActorCriticConfig)
    requires
        config_fault::<A>(c) is None,
    ensures
        c.gamma.within(lit(ZERO), lit(ONE)),
        lit(ZERO).le(c.scale_floor) && c.scale_floor.lt(c.scale_ceil),
        c.critic.input_size == c.actor.input_size + c.actor@.latent_size(),
{
}

/// Whether two numbers are equal up to a few roundings.
pub open spec fn approx_eq<A: Arith>(a: Scalar, b: Scalar) -> bool {
    a.num_eq(b) || (a.is_finite() && b.is_finite() && A::minus(a, b).abs().le(
        A::times(A::times(lit(FOUR), lit(EPSILON)), a.abs().max(b.abs()).max(lit(ONE))),
    ))
}

/// Whether two numbers are equal up to a few roundings.
pub fn f64_approx_eq<A: Arith>(a: Scalar, b: Scalar) -> (r: bool)
    ensures
        r == approx_eq::<A>(a, b),
{
    if a.num_eq(b) {
        return true;
    }
    if !a.is_finite() || !b.is_finite() {
        return false;
    }
    let scale = a.abs().max(b.abs()).max(lit(ONE));
    A::r_sub(a, b).abs().le(A::r_mul(A::r_mul(lit(FOUR), lit(EPSILON)), scale))
}

/// The first gap among the first `k` layers of two equally long lists.
pub open spec fn defs_gap_upto(
    current: Seq<LayerDef>,
    wanted: Seq<LayerDef>,
    k: nat,
) -> Option<HiddenGap>
    decreases k,
{
    if k == 0 {
        None
    } else {
        match defs_gap_upto(current, wanted, (k - 1) as nat) {
            Some(gap) => Some(gap),
            None => if current[k - 1].size != wanted[k - 1].size {
                Some(
                    HiddenGap::Size {
                        layer: (k - 1) as usize,
                        current: current[k - 1].size,
                        wanted: wanted[k - 1].size,
                    },
                )
            } else if current[k - 1].activation != wanted[k - 1].activation {
                Some(
                    HiddenGap::Activation {
                        layer: (k - 1) as usize,
                        current: current[k - 1].activation,
                        wanted: wanted[k - 1].activation,
                    },
                )
            } else {
                None
            },
        }
    }
}

/// The first difference of two lists of hidden layers.
pub open spec fn defs_gap(current: Seq<LayerDef>, wanted: Seq<LayerDef>) -> Option<HiddenGap> {
    if current.len() != wanted.len() {
        Some(
            HiddenGap::Count { current: current.len() as usize, wanted: wanted.len() as usize },
        )
    } else {
        defs_gap_upto(current, wanted, current.len())
    }
}

proof fn lemma_defs_gap_stays(current: Seq<LayerDef>, wanted: Seq<LayerDef>, k: nat, m: nat)
    requires
        k <= m,
        defs_gap_upto(current, wanted, k) is Some,
    ensures
        defs_gap_upto(current, wanted, m) == defs_gap_upto(current, wanted, k),
    decreases m - k,
{
    if k < m {
        lemma_defs_gap_stays(current, wanted, k, (m - 1) as nat);
    }
}

/// Lists without a gap are equal.
pub proof fn lemma_no_gap_is_equal(current: Seq<LayerDef>, wanted: Seq<LayerDef>)
    ensures
        defs_gap(current, wanted) is None <==> current == wanted,
{
    if current.len() == wanted.len() {
        lemma_no_gap_upto(current, wanted, current.len());
        if defs_gap(current, wanted) is None {
            assert(current =~= wanted);
        }
    }
}

proof fn lemma_no_gap_upto(current: Seq<LayerDef>, wanted: Seq<LayerDef>, k: nat)
    requires
        current.len() == wanted.len(),
        k <= current.len(),
    ensures
        defs_gap_upto(current, wanted, k) is None <==> forall|i: int|
            0 <= i < k ==> #[trigger] current[i] == wanted[i],
    decreases k,
{
    if k > 0 {
        lemma_no_gap_upto(current, wanted, (k - 1) as nat);
        let last = current[k - 1];
        assert(last == wanted[k - 1] <==> last.size == wanted[k - 1].size && last.activation
            == wanted[k - 1].activation);
    }
}

fn compare_defs(current: &Vec<LayerDef>, wanted: &Vec<LayerDef>) -> (r: Option<HiddenGap>)
    ensures
        r == defs_gap(current@, wanted@),
{
    if current.len() != wanted.len() {
        return Some(HiddenGap::Count { current: current.len(), wanted: wanted.len() });
    }
    let n: usize = current.len();
    let mut i: usize = 0;
    while i < n
        invariant
            i <= n,
            n == current@.len(),
            n == wanted@.len(),
            defs_gap_upto(current@, wanted@, i as nat) is None,
        decreases n - i,
    {
        if current[i].size != wanted[i].size {
            let gap = HiddenGap::Size {
                layer: i,
                current: current[i].size,
                wanted: wanted[i].size,
            };
            assert(defs_gap_upto(current@, wanted@, (i + 1) as nat) == Some(gap));
            proof {
                lemma_defs_gap_stays(current@, wanted@, (i + 1) as nat, n as nat);
            }
            return Some(gap);
        }
        if current[i].activation != wanted[i].activation {
            let gap = HiddenGap::Activation {
                layer: i,
                current: current[i].activation,
                wanted: wanted[i].activation,
            };
            assert(defs_gap_upto(current@, wanted@, (i + 1) as nat) == Some(gap));
            proof {
                lemma_defs_gap_stays(current@, wanted@, (i + 1) as nat, n as nat);
            }
            return Some(gap);
        }
        i = i + 1;
    }
    None
}

/// The first fixed size or hidden layer that differs.
pub open spec fn size_change(c: PcActorCriticConfig, n: PcActorCriticConfig) -> Option<
    FixedField,
> {
    if c.actor.input_size != n.actor.input_size {
        Some(
            FixedField::ActorInputSize {
                current: c.actor.input_size,
                wanted: n.actor.input_size,
            },
        )
    } else if defs_gap(c.actor.hidden_layers@, n.actor.hidden_layers@) is Some {
        Some(
            FixedField::HiddenLayers {
                network: Network::Actor,
                gap: defs_gap(c.actor.hidden_layers@, n.actor.hidden_layers@)->0,
            },
        )
    } else if c.actor.output_size != n.actor.output_size {
        Some(
            FixedField::ActorOutputSize {
                current: c.actor.output_size,
                wanted: n.actor.output_size,
            },
        )
    } else if c.critic.input_size != n.critic.input_size {
        Some(
            FixedField::CriticInputSize {
                current: c.critic.input_size,
                wanted: n.critic.input_size,
            },
        )
    } else if defs_gap(c.critic.hidden_layers@, n.critic.hidden_layers@) is Some {
        Some(
            FixedField::HiddenLayers {
                network: Network::Critic,
                gap: defs_gap(c.critic.hidden_layers@, n.critic.hidden_layers@)->0,
            },
        )
    } else {
        None
    }
}

/// The first fixed parameter of a network that differs.
pub open spec fn parameter_change<A: Arith>(
    c: PcActorCriticConfig,
    n: PcActorCriticConfig,
) -> Option<FixedField> {
    if c.actor.output_activation != n.actor.output_activation {
        Some(
            FixedField::ActorOutputActivation {
                current: c.actor.output_activation,
                wanted: n.actor.output_activation,
            },
        )
    } else if c.actor.residual != n.actor.residual {
        Some(
            FixedField::ActorResidual { current: c.actor.residual, wanted: n.actor.residual },
        )
    } else if !approx_eq::<A>(c.actor.rezero_init, n.actor.rezero_init) {
        Some(
            FixedField::ActorRezeroInit {
                current: c.actor.rezero_init,
                wanted: n.actor.rezero_init,
            },
        )
    } else if !approx_eq::<A>(c.actor.lr_weights, n.actor.lr_weights) {
        Some(
            FixedField::ActorLrWeights {
                current: c.actor.lr_weights,
                wanted: n.actor.lr_weights,
            },
        )
    } else if !approx_eq::<A>(c.actor.alpha, n.actor.alpha) {
        Some(FixedField::ActorAlpha { current: c.actor.alpha, wanted: n.actor.alpha })
    } else if !approx_eq::<A>(c.actor.tol, n.actor.tol) {
        Some(FixedField::ActorTol { current: c.actor.tol, wanted: n.actor.tol })
    } else if c.actor.min_steps != n.actor.min_steps {
        Some(
            FixedField::ActorMinSteps { current: c.actor.min_steps, wanted: n.actor.min_steps },
        )
    } else if c.actor.max_steps != n.actor.max_steps {
        Some(
            FixedField::ActorMaxSteps { current: c.actor.max_steps, wanted: n.actor.max_steps },
        )
    } else if !approx_eq::<A>(c.actor.temperature, n.actor.temperature) {
        Some(
            FixedField::ActorTemperature {
                current: c.actor.temperature,
                wanted: n.actor.temperature,
            },
        )
    } else if !approx_eq::<A>(c.actor.local_lambda, n.actor.local_lambda) {
        Some(
            FixedField::ActorLocalLambda {
                current: c.actor.local_lambda,
                wanted: n.actor.local_lambda,
            },
        )
    } else if c.actor.synchronous != n.actor.synchronous {
        Some(
            FixedField::ActorSynchronous {
                current: c.actor.synchronous,
                wanted: n.actor.synchronous,
            },
        )
    } else if !approx_eq::<A>(c.critic.lr, n.critic.lr) {
        Some(FixedField::CriticLr { current: c.critic.lr, wanted: n.critic.lr })
    } else if c.critic.output_activation != n.critic.output_activation {
        Some(
            FixedField::CriticOutputActivation {
                current: c.critic.output_activation,
                wanted: n.critic.output_activation,
            },
        )
    } else {
        None
    }
}

/// The agent acts continuously and has action-value critics.
pub open spec fn sac_mode(c: PcActorCriticConfig) -> bool {
    c.action_space == ActionSpace::Continuous && c.q_critic is Some
}

/// Whether the agent acts continuously and has action-value critics.
pub fn is_sac_mode(c: &PcActorCriticConfig) -> (r: bool)
    ensures
        r == sac_mode(*c),
{
    c.action_space == ActionSpace::Continuous && c.q_critic.is_some()
}

/// The configuration of the action-value critics that the agent has: none
/// where it acts discretely.
pub open spec fn sac_critic(c: PcActorCriticConfig) -> Option<QCriticConfig> {
    if c.action_space == ActionSpace::Continuous {
        c.q_critic
    } else {
        None
    }
}

/// The first fixed property of the action-value critics that differs. Neither
/// their presence nor the mode that they are for may change.
pub open spec fn q_change(c: PcActorCriticConfig, n: PcActorCriticConfig) -> Option<FixedField> {
    match (c.q_critic, n.q_critic) {
        (Some(cq), Some(nq)) => if cq.state_dim != nq.state_dim {
            Some(FixedField::QStateDim { current: cq.state_dim, wanted: nq.state_dim })
        } else if cq.action_dim != nq.action_dim {
            Some(FixedField::QActionDim { current: cq.action_dim, wanted: nq.action_dim })
        } else {
            match defs_gap(cq.hidden_layers@, nq.hidden_layers@) {
                Some(gap) => Some(
                    FixedField::HiddenLayers { network: Network::QCritic, gap },
                ),
                None => if sac_mode(c) != sac_mode(n) {
                    Some(FixedField::SacMode { current: sac_mode(c), wanted: sac_mode(n) })
                } else {
                    None
                },
            }
        },
        (Some(_), None) => Some(FixedField::QCriticPresence { current: true, wanted: false }),
        (None, Some(_)) => Some(FixedField::QCriticPresence { current: false, wanted: true }),
        (None, None) => None,
    }
}

/// The first fixed property in which a new configuration differs.
pub open spec fn fixed_change<A: Arith>(
    c: PcActorCriticConfig,
    n: PcActorCriticConfig,
) -> Option<FixedField> {
    if size_change(c, n) is Some {
        size_change(c, n)
    } else if parameter_change::<A>(c, n) is Some {
        parameter_change::<A>(c, n)
    } else {
        q_change(c, n)
    }
}

fn compare_sizes(c: &PcActorCriticConfig, n: &PcActorCriticConfig) -> (r: Option<FixedField>)
    ensures
        r == size_change(*c, *n),
{
    if c.actor.input_size != n.actor.input_size {
        return Some(
            FixedField::ActorInputSize {
                current: c.actor.input_size,
                wanted: n.actor.input_size,
            },
        );
    }
    if let Some(gap) = compare_defs(&c.actor.hidden_layers, &n.actor.hidden_layers) {
        return Some(FixedField::HiddenLayers { network: Network::Actor, gap });
    }
    if c.actor.output_size != n.actor.output_size {
        return Some(
            FixedField::ActorOutputSize {
                current: c.actor.output_size,
                wanted: n.actor.output_size,
            },
        );
    }
    if c.critic.input_size != n.critic.input_size {
        return Some(
            FixedField::CriticInputSize {
                current: c.critic.input_size,
                wanted: n.critic.input_size,
            },
        );
    }
    if let Some(gap) = compare_defs(&c.critic.hidden_layers, &n.critic.hidden_layers) {
        return Some(FixedField::HiddenLayers { network: Network::Critic, gap });
    }
    None
}

fn compare_parameters<A: Arith>(c: &PcActorCriticConfig, n: &PcActorCriticConfig) -> (r: Option<
    FixedField,
>)
    ensures
        r == parameter_change::<A>(*c, *n),
{
    if c.actor.output_activation != n.actor.output_activation {
        return Some(
            FixedField::ActorOutputActivation {
                current: c.actor.output_activation,
                wanted: n.actor.output_activation,
            },
        );
    }
    if c.actor.residual != n.actor.residual {
        return Some(
            FixedField::ActorResidual { current: c.actor.residual, wanted: n.actor.residual },
        );
    }
    if !f64_approx_eq::<A>(c.actor.rezero_init, n.actor.rezero_init) {
        return Some(
            FixedField::ActorRezeroInit {
                current: c.actor.rezero_init,
                wanted: n.actor.rezero_init,
            },
        );
    }
    if !f64_approx_eq::<A>(c.actor.lr_weights, n.actor.lr_weights) {
        return Some(
            FixedField::ActorLrWeights {
                current: c.actor.lr_weights,
                wanted: n.actor.lr_weights,
            },
        );
    }
    if !f64_approx_eq::<A>(c.actor.alpha, n.actor.alpha) {
        return Some(FixedField::ActorAlpha { current: c.actor.alpha, wanted: n.actor.alpha });
    }
    if !f64_approx_eq::<A>(c.actor.tol, n.actor.tol) {
        return Some(FixedField::ActorTol { current: c.actor.tol, wanted: n.actor.tol });
    }
    if c.actor.min_steps != n.actor.min_steps {
        return Some(
            FixedField::ActorMinSteps { current: c.actor.min_steps, wanted: n.actor.min_steps },
        );
    }
    if c.actor.max_steps != n.actor.max_steps {
        return Some(
            FixedField::ActorMaxSteps { current: c.actor.max_steps, wanted: n.actor.max_steps },
        );
    }
    if !f64_approx_eq::<A>(c.actor.temperature, n.actor.temperature) {
        return Some(
            FixedField::ActorTemperature {
                current: c.actor.temperature,
                wanted: n.actor.temperature,
            },
        );
    }
    if !f64_approx_eq::<A>(c.actor.local_lambda, n.actor.local_lambda) {
        return Some(
            FixedField::ActorLocalLambda {
                current: c.actor.local_lambda,
                wanted: n.actor.local_lambda,
            },
        );
    }
    if c.actor.synchronous != n.actor.synchronous {
        return Some(
            FixedField::ActorSynchronous {
                current: c.actor.synchronous,
                wanted: n.actor.synchronous,
            },
        );
    }
    if !f64_approx_eq::<A>(c.critic.lr, n.critic.lr) {
        return Some(FixedField::CriticLr { current: c.critic.lr, wanted: n.critic.lr });
    }
    if c.critic.output_activation != n.critic.output_activation {
        return Some(
            FixedField::CriticOutputActivation {
                current: c.critic.output_activation,
                wanted: n.critic.output_activation,
            },
        );
    }
    None
}

fn compare_q(c: &PcActorCriticConfig, n: &PcActorCriticConfig) -> (r: Option<FixedField>)
    ensures
        r == q_change(*c, *n),
{
    match (&c.q_critic, &n.q_critic) {
        (Some(cq), Some(nq)) => {
            if cq.state_dim != nq.state_dim {
                return Some(
                    FixedField::QStateDim { current: cq.state_dim, wanted: nq.state_dim },
                );
            }
            if cq.action_dim != nq.action_dim {
                return Some(
                    FixedField::QActionDim { current: cq.action_dim, wanted: nq.action_dim },
                );
            }
            match compare_defs(&cq.hidden_layers, &nq.hidden_layers) {
                Some(gap) => Some(FixedField::HiddenLayers { network: Network::QCritic, gap }),
                None => {
                    let current = is_sac_mode(c);
                    let wanted = is_sac_mode(n);
                    if current != wanted {
                        Some(FixedField::SacMode { current, wanted })
                    } else {
                        None
                    }
                },
            }
        },
        (Some(_), None) => Some(FixedField::QCriticPresence { current: true, wanted: false }),
        (None, Some(_)) => Some(FixedField::QCriticPresence { current: false, wanted: true }),
        (None, None) => None,
    }
}

/// Checks that a new configuration leaves every fixed property alone.
pub fn validate_topology_match<A: Arith>(
    c: &PcActorCriticConfig,
    n: &PcActorCriticConfig,
) -> (r: Result<(), PcError>)
    ensures
        match fixed_change::<A>(*c, *n) {
            Some(field) => r == Err::<(), PcError>(
                PcError::ConfigValidation(ConfigRule::Fixed(field)),
            ),
            None => r is Ok,
        },
{
    if let Some(field) = compare_sizes(c, n) {
        return Err(PcError::ConfigValidation(ConfigRule::Fixed(field)));
    }
    if let Some(field) = compare_parameters::<A>(c, n) {
        return Err(PcError::ConfigValidation(ConfigRule::Fixed(field)));
    }
    if let Some(field) = compare_q(c, n) {
        return Err(PcError::ConfigValidation(ConfigRule::Fixed(field)));
    }
    Ok(())
}

/// A configuration with finite network parameters leaves its own fixed
/// properties alone.
pub proof fn law_unchanged_config_is_accepted<A: Arith>(c: PcActorCriticConfig)
    requires
        finiteness_fault(c) is None,
    ensures
        fixed_change::<A>(c, c) is None,
{
    lemma_no_gap_is_equal(c.actor.hidden_layers@, c.actor.hidden_layers@);
    lemma_no_gap_is_equal(c.critic.hidden_layers@, c.critic.hidden_layers@);
    if c.q_critic is Some {
        lemma_no_gap_is_equal(c.q_critic->0.hidden_layers@, c.q_critic->0.hidden_layers@);
    }
}

/// A new configuration that passes has the sizes and hidden layers of the
/// current one, and action-value critics exactly where the current one has.
pub proof fn law_accepted_change_keeps_topology<A: Arith>(
    c: PcActorCriticConfig,
    n: PcActorCriticConfig,
)
    requires
        fixed_change::<A>(c, n) is None,
    ensures
        c.actor@.shape() == n.actor@.shape(),
        c.actor.residual == n.actor.residual,
        c.critic@.shape() == n.critic@.shape(),
        c.q_critic is Some && n.q_critic is Some ==> c.q_critic->0@.shape()
            == n.q_critic->0@.shape(),
        c.q_critic is Some <==> n.q_critic is Some,
        sac_mode(c) == sac_mode(n),
{
    lemma_no_gap_is_equal(c.actor.hidden_layers@, n.actor.hidden_layers@);
    lemma_no_gap_is_equal(c.critic.hidden_layers@, n.critic.hidden_layers@);
    if c.q_critic is Some && n.q_critic is Some {
        lemma_no_gap_is_equal(c.q_critic->0.hidden_layers@, n.q_critic->0.hidden_layers@);
    }
}

} // verus!
