//! Errors of the library.

use vstd::prelude::*;

use crate::activation::Activation;
use crate::scalar::Scalar;

verus! {

/// The network that a complaint is about.
#[derive(Clone, Copy, Debug, PartialEq, Eq, Structural)]
pub enum Network {
    Actor,
    Critic,
    QCritic,
}

/// How two lists of hidden layers differ.
#[derive(Clone, Copy, Debug)]
pub enum HiddenGap {
    Count { current: usize, wanted: usize },
    Size { layer: usize, current: usize, wanted: usize },
    Activation { layer: usize, current: Activation, wanted: Activation },
}

/// A property of an agent that reconfiguration must leave alone.
#[derive(Clone, Copy, Debug)]
pub enum FixedField {
    ActorInputSize { current: usize, wanted: usize },
    ActorOutputSize { current: usize, wanted: usize },
    CriticInputSize { current: usize, wanted: usize },
    HiddenLayers { network: Network, gap: HiddenGap },
    ActorOutputActivation { current: Activation, wanted: Activation },
    ActorResidual { current: bool, wanted: bool },
    ActorRezeroInit { current: Scalar, wanted: Scalar },
    ActorLrWeights { current: Scalar, wanted: Scalar },
    ActorAlpha { current: Scalar, wanted: Scalar },
    ActorTol { current: Scalar, wanted: Scalar },
    ActorMinSteps { current: usize, wanted: usize },
    ActorMaxSteps { current: usize, wanted: usize },
    ActorTemperature { current: Scalar, wanted: Scalar },
    ActorLocalLambda { current: Scalar, wanted: Scalar },
    ActorSynchronous { current: bool, wanted: bool },
    CriticLr { current: Scalar, wanted: Scalar },
    CriticOutputActivation { current: Activation, wanted: Activation },
    QStateDim { current: usize, wanted: usize },
    QActionDim { current: usize, wanted: usize },
    /// Whether there is a configuration of action-value critics.
    QCriticPresence { current: bool, wanted: bool },
    /// Whether the agent is a continuous one with action-value critics.
    SacMode { current: bool, wanted: bool },
}

/// A part of a saved agent.
#[derive(Clone, Copy, Debug, PartialEq, Eq, Structural)]
pub enum SavedPart {
    Q1,
    Q2,
    Q1Target,
    Q2Target,
}

/// The rule that a configuration breaks, with the offending values.
#[derive(Clone, Copy, Debug)]
pub enum ConfigRule {
    /// `input_size` must be positive.
    ActorInputSizeZero,
    /// `output_size` must be positive.
    ActorOutputSizeZero,
    /// `temperature` must be positive.
    TemperatureNotPositive(Scalar),
    /// `local_lambda` must lie in `[0, 1]`.
    LocalLambdaOutOfRange(Scalar),
    /// `rezero_init` must not be negative.
    RezeroInitNegative(Scalar),
    /// The critic's `input_size` must be positive.
    CriticInputSizeZero,
    /// The action-value critic's `action_dim` must be positive.
    QCriticActionDimZero,
    /// The actor's `lr_weights` must be finite.
    ActorLrNotFinite(Scalar),
    /// The actor's `alpha` must be finite.
    ActorAlphaNotFinite(Scalar),
    /// The actor's `tol` must be finite.
    ActorTolNotFinite(Scalar),
    /// The actor's `temperature` must be finite.
    ActorTemperatureNotFinite(Scalar),
    /// The actor's `local_lambda` must be finite.
    ActorLocalLambdaNotFinite(Scalar),
    /// The actor's `rezero_init` must be finite.
    ActorRezeroInitNotFinite(Scalar),
    /// The critic's `lr` must be finite.
    CriticLrNotFinite(Scalar),
    /// `scale_floor` must be finite.
    ScaleFloorNotFinite(Scalar),
    /// `scale_ceil` must be finite.
    ScaleCeilNotFinite(Scalar),
    /// `gamma` must lie in `[0, 1]`.
    GammaOutOfRange(Scalar),
    /// `surprise_buffer_size` must be at least ten under adaptive surprise.
    SurpriseBufferTooSmall(usize),
    /// `scale_floor` must not be negative.
    ScaleFloorNegative(Scalar),
    /// `scale_ceil` must exceed `scale_floor`.
    ScaleCeilNotAboveFloor { ceil: Scalar, floor: Scalar },
    /// `actor_wake_fraction` must be positive under actor hysteresis.
    ActorWakeFractionNotPositive(Scalar),
    /// `actor_sleep_fraction` must lie in `(0, 1)` under actor hysteresis.
    ActorSleepFractionOutOfRange(Scalar),
    /// `critic_wake_fraction` must be positive under critic hysteresis.
    CriticWakeFractionNotPositive(Scalar),
    /// `critic_sleep_fraction` must lie in `(0, 1)` under critic hysteresis.
    CriticSleepFractionOutOfRange(Scalar),
    /// `consolidation_decay` must lie in `[0, 1]`.
    ConsolidationDecayOutOfRange(Scalar),
    /// `critic_consolidation_decay` must lie in `[0, 1]`.
    CriticConsolidationDecayOutOfRange(Scalar),
    /// `consolidation_sigmoid_k` must be positive under adaptive consolidation.
    SigmoidSlopeNotPositive(Scalar),
    /// `consolidation_ema_beta` must lie in `(0, 1)` under adaptive consolidation.
    ConsolidationBetaOutOfRange(Scalar),
    /// `consolidation_error_threshold` must be positive under adaptive
    /// consolidation.
    ErrorThresholdNotPositive(Scalar),
    /// `ewc_lambda` must not be negative.
    EwcLambdaNegative(Scalar),
    /// `fisher_decay` must lie in `[0, 1]` when `ewc_lambda` is positive.
    FisherDecayOutOfRange(Scalar),
    /// `fisher_ema_beta` must lie in `(0, 1)` when `ewc_lambda` is positive.
    FisherBetaOutOfRange(Scalar),
    /// `td_steps` must not be one.
    TdStepsOne,
    /// `gae_lambda` must lie in `[0, 1]`.
    GaeLambdaOutOfRange(Scalar),
    /// `gae_lambda` excludes positive `td_steps`.
    GaeWithTdSteps,
    /// `distillation_lambda_polyak` must be finite and not negative.
    PolyakLambdaInvalid(Scalar),
    /// `polyak_tau` must be finite and lie in `[0, 1]`.
    PolyakTauInvalid(Scalar),
    /// `polyak_tau` must be positive when `distillation_lambda_polyak` is.
    PolyakTauZero,
    /// `distillation_lambda_frozen` must be finite and not negative.
    FrozenLambdaInvalid(Scalar),
    /// Recent memories need training memories.
    RecentWithoutTraining,
    /// `replay_batch_size` must be positive when memories are kept.
    ReplayBatchZero,
    /// A batch must fit into the training memories of a continuous agent.
    ReplayBatchExceedsCapacity { batch: usize, capacity: usize },
    /// A continuous agent has no hysteresis.
    ContinuousHysteresis,
    /// `policy_sigma` of a continuous agent must be finite.
    PolicySigmaNotFinite(Scalar),
    /// A continuous agent does not distil towards its Polyak average.
    ContinuousPolyakLambda(Scalar),
    /// A continuous agent does not distil towards a frozen champion.
    ContinuousFrozenLambda(Scalar),
    /// A continuous agent has no multi-step returns.
    ContinuousTdSteps(usize),
    /// The output of a continuous agent's actor is linear.
    ContinuousOutputActivation(Activation),
    /// A continuous agent needs an action-value critic.
    QCriticMissing,
    /// The actor emits a mean and a deviation per action component.
    OutputSizeNotTwiceActionDim { action_dim: usize, got: usize },
    /// The action-value critic sees the actor's observation.
    StateDimMismatch { state_dim: usize, input_size: usize },
    /// A continuous agent needs training memories.
    ContinuousWithoutReplay,
    /// `target_entropy` must be finite.
    TargetEntropyNotFinite(Scalar),
    /// `polyak_tau` of a continuous agent must be positive.
    PolyakTauNotPositive(Scalar),
    /// `alpha_lr` of a continuous agent must be finite and positive.
    AlphaLrInvalid(Scalar),
    /// `log_alpha_init` of a continuous agent must be finite.
    LogAlphaInitNotFinite(Scalar),
    /// `scale_floor_replay` must be the sentinel or lie in `[0, upper]`.
    ScaleFloorReplayInvalid { value: Scalar, upper: Scalar },
    /// `critic_floor_replay` must be the sentinel or lie in `[0, upper]`.
    CriticFloorReplayInvalid { value: Scalar, upper: Scalar },
    /// The critic reads the state and every hidden layer of the actor.
    CriticInputSize { got: usize, expected: usize },
    /// Reconfiguration tried to change a fixed property.
    Fixed(FixedField),
    /// The call is for continuous agents only.
    NotContinuous,
    /// There are no memories to seal.
    NothingToSeal,
    /// There are no memories to clear.
    NothingToClear,
    /// A transition carries an action of the wrong kind.
    ReplayActionKind,
    /// A saved continuous agent lacks the action-value critic's configuration.
    SavedWithoutQCritic,
    /// A saved continuous agent lacks one of its parts.
    SavedPartMissing(SavedPart),
}

/// An error of the library.
#[derive(Clone, Copy, Debug)]
pub enum PcError {
    /// A configuration breaks a rule.
    ConfigValidation(ConfigRule),
    /// Two sizes that must agree do not.
    DimensionMismatch { expected: usize, got: usize, context: &'static str },
}

} // verus!
