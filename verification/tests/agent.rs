//! Configuration, stepping and bookkeeping of agents.

use pc_rl_continuos::arith::Arith;
use pc_rl_continuos::coarse::Coarse;
use pc_rl_continuos::error::{ConfigRule, FixedField, HiddenGap, Network};
use pc_rl_continuos::layer::LayerDef;
use pc_rl_continuos::matrix::WEIGHT_CLIP;
use pc_rl_continuos::mlp_critic::{default_critic_lr, MlpCritic, MlpCriticConfig};
use pc_rl_continuos::pc_actor::{
    default_alpha, default_local_lambda, default_lr_weights, default_max_steps,
    default_min_steps, default_rezero_init, default_synchronous, default_temperature,
    default_tol, PcActor, PcActorConfig, SelectionMode,
};
use pc_rl_continuos::pc_actor_critic::distillation::kl_gradient_of;
use pc_rl_continuos::pc_actor_critic::learning::LearnMode;
use pc_rl_continuos::pc_actor_critic::policy::{
    sac_actor_delta, sample_standard_normal, split_mu_log_sigma, squashed_log_prob, LOG_SIG_MAX,
    LOG_SIG_MIN, WARMUP_BOUND,
};
use pc_rl_continuos::pc_actor_critic::{
    Action, ActionSpace, PcActorCritic, PcActorCriticConfig, PlasticityState, ReplayBuffer,
    ReplayTransition,
};
use pc_rl_continuos::q_critic::{QCritic, QCriticConfig};
use pc_rl_continuos::scalar::{lit, Scalar};
use pc_rl_continuos::{Activation, CpuLinAlg, PcError};
use rand::rngs::StdRng;
use rand::{Rng, SeedableRng};

/// Double-precision arithmetic.
#[derive(Clone, Copy, Debug)]
struct F64;

fn s(x: f64) -> Scalar {
    lit(x.to_bits())
}

fn f(x: Scalar) -> f64 {
    f64::from_bits(x.bits)
}

#[allow(dead_code)]
fn sv(xs: &[f64]) -> Vec<Scalar> {
    xs.iter().map(|x| s(*x)).collect()
}

#[allow(dead_code)]
fn fv(xs: &[Scalar]) -> Vec<f64> {
    xs.iter().map(|x| f(*x)).collect()
}

impl Arith for F64 {
    // Facts of double precision, with nothing to run.
    fn zero_is_neutral(_a: Scalar, _b: Scalar) {}

    fn zero_absorbs(_a: Scalar, _b: Scalar) {}

    fn square_is_not_negative(_a: Scalar) {}

    fn equals_cancel(_a: Scalar, _b: Scalar) {}

    fn infinities_spread(_a: Scalar, _b: Scalar) {}

    fn equals_agree(_a: Scalar, _b: Scalar, _other_a: Scalar, _other_b: Scalar) {}

    fn r_add(a: Scalar, b: Scalar) -> Scalar {
        s(f(a) + f(b))
    }

    fn r_sub(a: Scalar, b: Scalar) -> Scalar {
        s(f(a) - f(b))
    }

    fn r_mul(a: Scalar, b: Scalar) -> Scalar {
        s(f(a) * f(b))
    }

    fn r_div(a: Scalar, b: Scalar) -> Scalar {
        s(f(a) / f(b))
    }

    fn r_sqrt(a: Scalar) -> Scalar {
        s(f(a).sqrt())
    }

    fn r_exp(a: Scalar) -> Scalar {
        s(f(a).exp())
    }

    fn r_ln(a: Scalar) -> Scalar {
        s(f(a).ln())
    }

    fn r_tanh(a: Scalar) -> Scalar {
        s(f(a).tanh())
    }

    fn r_atanh(a: Scalar) -> Scalar {
        s(f(a).atanh())
    }

    fn r_cos(a: Scalar) -> Scalar {
        s(f(a).cos())
    }

    fn r_powi(a: Scalar, n: usize) -> Scalar {
        s(f(a).powi(i32::try_from(n).unwrap_or(i32::MAX)))
    }

    fn r_count(n: usize) -> Scalar {
        s(n as f64)
    }

    fn r_ceil(a: Scalar) -> u64 {
        f(a).ceil() as u64
    }

    fn r_uniform_closed(rng: &mut StdRng, low: Scalar, high: Scalar) -> Scalar {
        s(rng.gen_range(f(low)..=f(high)))
    }

    fn r_uniform_open(rng: &mut StdRng, low: Scalar, high: Scalar) -> Scalar {
        s(rng.gen_range(f(low)..f(high)))
    }
}

type Cpu = CpuLinAlg<F64>;

fn cpu() -> Cpu {
    CpuLinAlg::new(F64)
}

fn default_config() -> PcActorCriticConfig {
    PcActorCriticConfig {
        actor: PcActorConfig {
            input_size: 9,
            hidden_layers: vec![LayerDef {
                size: 18,
                activation: Activation::Tanh,
            }],
            output_size: 9,
            output_activation: Activation::Tanh,
            alpha: s(0.1),
            tol: s(0.01),
            min_steps: 1,
            max_steps: 20,
            lr_weights: s(0.01),
            synchronous: true,
            temperature: s(1.0),
            local_lambda: s(1.0),
            residual: false,
            rezero_init: s(0.001),
        },
        critic: MlpCriticConfig {
            input_size: 27,
            hidden_layers: vec![LayerDef {
                size: 36,
                activation: Activation::Tanh,
            }],
            output_activation: Activation::Linear,
            lr: s(0.005),
        },
        gamma: s(0.95),
        surprise_low: s(0.02),
        surprise_high: s(0.15),
        adaptive_surprise: false,
        surprise_buffer_size: 100,
        entropy_coeff: s(0.01),
        scale_floor: s(0.1),
        scale_ceil: s(2.0),
        actor_hysteresis: false,
        actor_fast_window: 20,
        actor_slow_window: 100,
        actor_wake_fraction: s(0.5),
        actor_sleep_fraction: s(0.3),
        critic_hysteresis: false,
        critic_fast_window: 20,
        critic_slow_window: 100,
        critic_wake_fraction: s(0.5),
        critic_sleep_fraction: s(0.3),
        actor_wakes_critic: true,
        actor_wakes_critic_threshold: 1000,
        critic_wakes_actor: true,
        critic_wakes_actor_threshold: 1000,
        consolidation_decay: s(1.0),
        critic_consolidation_decay: s(1.0),
        adaptive_consolidation: false,
        consolidation_ema_beta: s(0.99),
        consolidation_sigmoid_k: s(10.0),
        consolidation_error_threshold: s(0.05),
        ewc_lambda: s(0.0),
        fisher_decay: s(0.9),
        fisher_ema_beta: s(0.99),
        logits_reversal: false,
        td_steps: 0,
        gae_lambda: None,
        distillation_lambda_polyak: s(0.0),
        polyak_tau: s(0.005),
        distillation_lambda_frozen: s(0.0),
        replay_training_capacity: 0,
        replay_recent_capacity: 0,
        replay_positive_only: true,
        replay_batch_size: 64,
        scale_floor_replay: s(-1.0),
        critic_floor_replay: s(-1.0),
        action_space: ActionSpace::Discrete,
        policy_sigma: s(0.1),
        policy_entropy_coeff: s(0.0),
        q_critic: None,
        target_entropy: None,
        log_alpha_init: s(0.0),
        alpha_lr: s(0.001),
        learning_starts: 0,
    }
}

fn continuous_sac_config() -> PcActorCriticConfig {
    let mut cfg = default_config();
    cfg.action_space = ActionSpace::Continuous;
    cfg.actor.output_size = 2;
    cfg.actor.output_activation = Activation::Linear;
    cfg.policy_sigma = s(0.3);
    cfg.q_critic = Some(QCriticConfig {
        state_dim: cfg.actor.input_size,
        action_dim: 1,
        hidden_layers: vec![LayerDef {
            size: 16,
            activation: Activation::Tanh,
        }],
        lr: s(0.001),
    });
    cfg.replay_training_capacity = 1000;
    cfg.replay_batch_size = 8;
    cfg.polyak_tau = s(0.005);
    cfg.gae_lambda = None;
    cfg.td_steps = 0;
    cfg.distillation_lambda_polyak = s(0.0);
    cfg.distillation_lambda_frozen = s(0.0);
    cfg
}

type Agent = PcActorCritic<Cpu>;

fn discrete(change: impl Fn(&mut PcActorCriticConfig)) -> PcActorCriticConfig {
    let mut c = default_config();
    change(&mut c);
    c
}

fn continuous(change: impl Fn(&mut PcActorCriticConfig)) -> PcActorCriticConfig {
    let mut c = continuous_sac_config();
    change(&mut c);
    c
}

fn agent_with(cfg: PcActorCriticConfig, seed: u64) -> Agent {
    PcActorCritic::new(cpu(), cfg, seed).unwrap()
}

fn rule_of<T>(r: Result<T, PcError>) -> ConfigRule {
    match r {
        Err(PcError::ConfigValidation(rule)) => rule,
        Err(e) => panic!("unexpected error {e:?}"),
        Ok(_) => panic!("accepted"),
    }
}

fn refused(cfg: PcActorCriticConfig) -> ConfigRule {
    rule_of(Agent::new(cpu(), cfg, 1))
}

fn close(a: f64, b: f64) -> bool {
    (a - b).abs() < 1e-12
}

const INF: f64 = f64::INFINITY;

#[test]
fn numbers_must_be_finite() {
    assert!(matches!(refused(discrete(|c| c.actor.lr_weights = s(INF))), ConfigRule::ActorLrNotFinite(x) if f(x) == INF));
    assert!(matches!(refused(discrete(|c| c.actor.alpha = s(f64::NAN))), ConfigRule::ActorAlphaNotFinite(x) if f(x).is_nan()));
    assert!(matches!(refused(discrete(|c| c.actor.tol = s(INF))), ConfigRule::ActorTolNotFinite(_)));
    assert!(matches!(refused(discrete(|c| c.actor.temperature = s(INF))), ConfigRule::ActorTemperatureNotFinite(_)));
    assert!(matches!(refused(discrete(|c| c.actor.local_lambda = s(INF))), ConfigRule::ActorLocalLambdaNotFinite(_)));
    assert!(matches!(refused(discrete(|c| c.actor.rezero_init = s(-INF))), ConfigRule::ActorRezeroInitNotFinite(_)));
    assert!(matches!(refused(discrete(|c| c.critic.lr = s(INF))), ConfigRule::CriticLrNotFinite(_)));
    assert!(matches!(refused(discrete(|c| c.scale_floor = s(INF))), ConfigRule::ScaleFloorNotFinite(_)));
    assert!(matches!(refused(discrete(|c| c.scale_ceil = s(INF))), ConfigRule::ScaleCeilNotFinite(_)));
}

#[test]
fn scaling_rules_are_checked() {
    assert!(matches!(refused(discrete(|c| c.gamma = s(1.5))), ConfigRule::GammaOutOfRange(x) if f(x) == 1.5));
    assert!(matches!(refused(discrete(|c| c.gamma = s(f64::NAN))), ConfigRule::GammaOutOfRange(_)));
    assert!(matches!(
        refused(discrete(|c| {
            c.adaptive_surprise = true;
            c.surprise_buffer_size = 9;
        })),
        ConfigRule::SurpriseBufferTooSmall(9)
    ));
    assert!(matches!(refused(discrete(|c| c.scale_floor = s(-0.5))), ConfigRule::ScaleFloorNegative(x) if f(x) == -0.5));
    assert!(matches!(
        refused(discrete(|c| c.scale_ceil = s(0.1))),
        ConfigRule::ScaleCeilNotAboveFloor { ceil, floor } if f(ceil) == 0.1 && f(floor) == 0.1
    ));
}

#[test]
fn hysteresis_rules_are_checked() {
    let on = |change: fn(&mut PcActorCriticConfig)| {
        discrete(|c| {
            c.actor_hysteresis = true;
            c.critic_hysteresis = true;
            change(c);
        })
    };
    assert!(matches!(refused(on(|c| c.actor_wake_fraction = s(0.0))), ConfigRule::ActorWakeFractionNotPositive(_)));
    assert!(matches!(refused(on(|c| c.actor_sleep_fraction = s(1.0))), ConfigRule::ActorSleepFractionOutOfRange(_)));
    assert!(matches!(refused(on(|c| c.critic_wake_fraction = s(-1.0))), ConfigRule::CriticWakeFractionNotPositive(_)));
    assert!(matches!(refused(on(|c| c.critic_sleep_fraction = s(0.0))), ConfigRule::CriticSleepFractionOutOfRange(_)));
    assert!(Agent::new(cpu(), discrete(|c| c.actor_wake_fraction = s(0.0)), 1).is_ok());
}

#[test]
fn consolidation_rules_are_checked() {
    assert!(matches!(refused(discrete(|c| c.consolidation_decay = s(1.1))), ConfigRule::ConsolidationDecayOutOfRange(_)));
    assert!(matches!(
        refused(discrete(|c| c.critic_consolidation_decay = s(-0.1))),
        ConfigRule::CriticConsolidationDecayOutOfRange(_)
    ));
    let adaptive = |change: fn(&mut PcActorCriticConfig)| {
        discrete(|c| {
            c.adaptive_consolidation = true;
            change(c);
        })
    };
    assert!(matches!(refused(adaptive(|c| c.consolidation_sigmoid_k = s(0.0))), ConfigRule::SigmoidSlopeNotPositive(_)));
    assert!(matches!(refused(adaptive(|c| c.consolidation_ema_beta = s(1.0))), ConfigRule::ConsolidationBetaOutOfRange(_)));
    assert!(matches!(
        refused(adaptive(|c| c.consolidation_error_threshold = s(0.0))),
        ConfigRule::ErrorThresholdNotPositive(_)
    ));
    assert!(matches!(refused(discrete(|c| c.ewc_lambda = s(-1.0))), ConfigRule::EwcLambdaNegative(_)));
    let ewc = |change: fn(&mut PcActorCriticConfig)| {
        discrete(|c| {
            c.ewc_lambda = s(0.5);
            change(c);
        })
    };
    assert!(matches!(refused(ewc(|c| c.fisher_decay = s(2.0))), ConfigRule::FisherDecayOutOfRange(_)));
    assert!(matches!(refused(ewc(|c| c.fisher_ema_beta = s(1.0))), ConfigRule::FisherBetaOutOfRange(_)));
}

#[test]
fn return_and_distillation_rules_are_checked() {
    assert!(matches!(refused(discrete(|c| c.td_steps = 1)), ConfigRule::TdStepsOne));
    assert!(matches!(refused(discrete(|c| c.gae_lambda = Some(s(1.5)))), ConfigRule::GaeLambdaOutOfRange(x) if f(x) == 1.5));
    assert!(matches!(
        refused(discrete(|c| {
            c.gae_lambda = Some(s(0.5));
            c.td_steps = 3;
        })),
        ConfigRule::GaeWithTdSteps
    ));
    assert!(matches!(refused(discrete(|c| c.distillation_lambda_polyak = s(-1.0))), ConfigRule::PolyakLambdaInvalid(_)));
    assert!(matches!(refused(discrete(|c| c.polyak_tau = s(1.5))), ConfigRule::PolyakTauInvalid(_)));
    assert!(matches!(
        refused(discrete(|c| {
            c.distillation_lambda_polyak = s(0.1);
            c.polyak_tau = s(0.0);
        })),
        ConfigRule::PolyakTauZero
    ));
    assert!(matches!(refused(discrete(|c| c.distillation_lambda_frozen = s(INF))), ConfigRule::FrozenLambdaInvalid(_)));
}

#[test]
fn memory_rules_are_checked() {
    assert!(matches!(refused(discrete(|c| c.replay_recent_capacity = 5)), ConfigRule::RecentWithoutTraining));
    assert!(matches!(
        refused(discrete(|c| {
            c.replay_training_capacity = 5;
            c.replay_batch_size = 0;
        })),
        ConfigRule::ReplayBatchZero
    ));
    assert!(matches!(
        refused(continuous(|c| c.replay_batch_size = 1001)),
        ConfigRule::ReplayBatchExceedsCapacity { batch: 1001, capacity: 1000 }
    ));
    assert!(matches!(
        refused(discrete(|c| c.scale_floor_replay = s(20.5))),
        ConfigRule::ScaleFloorReplayInvalid { value, upper } if f(value) == 20.5 && f(upper) == 20.0
    ));
    assert!(matches!(
        refused(discrete(|c| c.critic_floor_replay = s(-0.5))),
        ConfigRule::CriticFloorReplayInvalid { value, upper } if f(value) == -0.5 && f(upper) == 20.0
    ));
    assert!(Agent::new(cpu(), discrete(|c| c.scale_floor_replay = s(20.0)), 1).is_ok());
}

#[test]
fn continuous_rules_are_checked() {
    assert!(matches!(refused(continuous(|c| c.actor_hysteresis = true)), ConfigRule::ContinuousHysteresis));
    assert!(matches!(refused(continuous(|c| c.policy_sigma = s(INF))), ConfigRule::PolicySigmaNotFinite(_)));
    assert!(matches!(
        refused(continuous(|c| c.distillation_lambda_polyak = s(0.1))),
        ConfigRule::ContinuousPolyakLambda(_)
    ));
    assert!(matches!(
        refused(continuous(|c| c.distillation_lambda_frozen = s(0.1))),
        ConfigRule::ContinuousFrozenLambda(_)
    ));
    assert!(matches!(refused(continuous(|c| c.td_steps = 3)), ConfigRule::ContinuousTdSteps(3)));
    assert!(matches!(
        refused(continuous(|c| c.actor.output_activation = Activation::Tanh)),
        ConfigRule::ContinuousOutputActivation(Activation::Tanh)
    ));
    assert!(matches!(refused(continuous(|c| c.q_critic = None)), ConfigRule::QCriticMissing));
    assert!(matches!(
        refused(continuous(|c| c.actor.output_size = 3)),
        ConfigRule::OutputSizeNotTwiceActionDim { action_dim: 1, got: 3 }
    ));
    assert!(matches!(
        refused(continuous(|c| c.q_critic.as_mut().unwrap().state_dim = 8)),
        ConfigRule::StateDimMismatch { state_dim: 8, input_size: 9 }
    ));
    assert!(matches!(refused(continuous(|c| c.replay_training_capacity = 0)), ConfigRule::ContinuousWithoutReplay));
    assert!(matches!(refused(continuous(|c| c.target_entropy = Some(s(INF)))), ConfigRule::TargetEntropyNotFinite(_)));
    assert!(matches!(refused(continuous(|c| c.polyak_tau = s(0.0))), ConfigRule::PolyakTauNotPositive(_)));
    assert!(matches!(refused(continuous(|c| c.alpha_lr = s(0.0))), ConfigRule::AlphaLrInvalid(_)));
    assert!(matches!(refused(continuous(|c| c.log_alpha_init = s(INF))), ConfigRule::LogAlphaInitNotFinite(_)));
}

#[test]
fn network_rules_are_checked() {
    assert!(matches!(
        refused(discrete(|c| c.critic.input_size = 26)),
        ConfigRule::CriticInputSize { got: 26, expected: 27 }
    ));
    assert!(matches!(
        refused(discrete(|c| {
            c.actor.input_size = 0;
            c.critic.input_size = 18;
        })),
        ConfigRule::ActorInputSizeZero
    ));
    assert!(matches!(refused(discrete(|c| c.actor.output_size = 0)), ConfigRule::ActorOutputSizeZero));
    assert!(matches!(refused(discrete(|c| c.actor.temperature = s(0.0))), ConfigRule::TemperatureNotPositive(_)));
    assert!(matches!(refused(discrete(|c| c.actor.local_lambda = s(2.0))), ConfigRule::LocalLambdaOutOfRange(_)));
    assert!(matches!(
        refused(discrete(|c| {
            c.actor.residual = true;
            c.actor.rezero_init = s(-0.1);
        })),
        ConfigRule::RezeroInitNegative(_)
    ));
    assert!(PcActorCritic::new(cpu(), discrete(|c| c.actor.rezero_init = s(-0.1)), 3).is_ok());
    let q_critic = QCritic::new(
        cpu(),
        QCriticConfig { state_dim: 2, action_dim: 0, hidden_layers: vec![], lr: s(0.1) },
        &mut StdRng::seed_from_u64(1),
    );
    assert!(matches!(rule_of(q_critic), ConfigRule::QCriticActionDimZero));
    let critic = MlpCritic::new(
        cpu(),
        MlpCriticConfig {
            input_size: 0,
            hidden_layers: vec![],
            output_activation: Activation::Linear,
            lr: s(0.1),
        },
        &mut StdRng::seed_from_u64(1),
    );
    assert!(matches!(rule_of(critic), ConfigRule::CriticInputSizeZero));
}

#[test]
fn fixed_properties_stay() {
    let change = |g: &dyn Fn(&mut PcActorCriticConfig)| -> FixedField {
        let mut agent = agent_with(continuous_sac_config(), 3);
        let mut c = continuous_sac_config();
        g(&mut c);
        match rule_of(agent.apply_config(c)) {
            ConfigRule::Fixed(field) => field,
            rule => panic!("unexpected rule {rule:?}"),
        }
    };
    assert!(matches!(
        change(&|c| {
            c.actor.input_size = 8;
            c.critic.input_size = 26;
            c.q_critic.as_mut().unwrap().state_dim = 8;
        }),
        FixedField::ActorInputSize { current: 9, wanted: 8 }
    ));
    assert!(matches!(
        change(&|c| {
            c.actor.output_size = 4;
            c.q_critic.as_mut().unwrap().action_dim = 2;
        }),
        FixedField::ActorOutputSize { current: 2, wanted: 4 }
    ));
    assert!(matches!(
        change(&|c| {
            c.actor.hidden_layers[0].size = 17;
            c.critic.input_size = 26;
        }),
        FixedField::HiddenLayers {
            network: Network::Actor,
            gap: HiddenGap::Size { layer: 0, current: 18, wanted: 17 }
        }
    ));
    assert!(matches!(
        change(&|c| c.actor.hidden_layers[0].activation = Activation::Softsign),
        FixedField::HiddenLayers {
            network: Network::Actor,
            gap: HiddenGap::Activation {
                layer: 0,
                current: Activation::Tanh,
                wanted: Activation::Softsign
            }
        }
    ));
    assert!(matches!(
        change(&|c| c.critic.hidden_layers = vec![]),
        FixedField::HiddenLayers {
            network: Network::Critic,
            gap: HiddenGap::Count { current: 1, wanted: 0 }
        }
    ));
    assert!(matches!(
        change(&|c| c.q_critic.as_mut().unwrap().hidden_layers[0].size = 15),
        FixedField::HiddenLayers {
            network: Network::QCritic,
            gap: HiddenGap::Size { layer: 0, current: 16, wanted: 15 }
        }
    ));
    assert!(matches!(change(&|c| c.actor.residual = true), FixedField::ActorResidual { current: false, wanted: true }));
    assert!(matches!(change(&|c| c.actor.rezero_init = s(0.5)), FixedField::ActorRezeroInit { .. }));
    assert!(matches!(change(&|c| c.actor.lr_weights = s(0.5)), FixedField::ActorLrWeights { .. }));
    assert!(matches!(change(&|c| c.actor.alpha = s(0.5)), FixedField::ActorAlpha { .. }));
    assert!(matches!(change(&|c| c.actor.tol = s(0.5)), FixedField::ActorTol { .. }));
    assert!(matches!(change(&|c| c.actor.min_steps = 2), FixedField::ActorMinSteps { current: 1, wanted: 2 }));
    assert!(matches!(change(&|c| c.actor.max_steps = 21), FixedField::ActorMaxSteps { current: 20, wanted: 21 }));
    assert!(matches!(change(&|c| c.actor.temperature = s(0.5)), FixedField::ActorTemperature { .. }));
    assert!(matches!(change(&|c| c.actor.local_lambda = s(0.5)), FixedField::ActorLocalLambda { .. }));
    assert!(matches!(change(&|c| c.actor.synchronous = false), FixedField::ActorSynchronous { current: true, wanted: false }));
    assert!(matches!(change(&|c| c.critic.lr = s(0.5)), FixedField::CriticLr { .. }));
    assert!(matches!(
        change(&|c| c.critic.output_activation = Activation::Tanh),
        FixedField::CriticOutputActivation { current: Activation::Linear, wanted: Activation::Tanh }
    ));
}

#[test]
fn fixed_properties_of_discrete_agents_stay() {
    let q = |state_dim: usize, action_dim: usize| {
        Some(QCriticConfig { state_dim, action_dim, hidden_layers: vec![], lr: s(0.1) })
    };
    let change = |to: Option<QCriticConfig>| -> FixedField {
        let mut agent = agent_with(discrete(|c| c.q_critic = q(2, 1)), 3);
        let mut c = default_config();
        c.q_critic = to;
        match rule_of(agent.apply_config(c)) {
            ConfigRule::Fixed(field) => field,
            rule => panic!("unexpected rule {rule:?}"),
        }
    };
    assert!(matches!(change(q(3, 1)), FixedField::QStateDim { current: 2, wanted: 3 }));
    assert!(matches!(change(q(2, 4)), FixedField::QActionDim { current: 1, wanted: 4 }));
    assert!(matches!(change(None), FixedField::QCriticPresence { current: true, wanted: false }));
    let mut agent = agent_with(default_config(), 3);
    assert!(matches!(
        rule_of(agent.apply_config(discrete(|c| c.q_critic = q(2, 1)))),
        ConfigRule::Fixed(FixedField::QCriticPresence { current: false, wanted: true })
    ));
    let r = agent.apply_config(discrete(|c| c.actor.output_activation = Activation::Linear));
    assert!(matches!(
        rule_of(r),
        ConfigRule::Fixed(FixedField::ActorOutputActivation { current: Activation::Tanh, wanted: Activation::Linear })
    ));
}

#[test]
fn an_unchanged_configuration_is_accepted() {
    let mut agent = agent_with(continuous_sac_config(), 3);
    assert!(agent.apply_config(continuous_sac_config()).is_ok());
    let mut c = continuous_sac_config();
    c.gamma = s(0.5);
    assert!(agent.apply_config(c).is_ok());
    assert_eq!(f(agent.config.gamma), 0.5);
}

#[test]
fn a_refused_configuration_changes_nothing() {
    let mut agent = agent_with(continuous_sac_config(), 3);
    assert!(agent.apply_config(continuous(|c| c.gamma = s(7.0))).is_err());
    assert_eq!(f(agent.config.gamma), 0.95);
}

#[test]
fn stepping_needs_a_continuous_agent() {
    let mut agent = agent_with(default_config(), 3);
    let state = sv(&[0.0; 9]);
    let short = sv(&[0.0]);
    assert!(matches!(rule_of(agent.step_continuous(&short, s(0.0), false)), ConfigRule::NotContinuous));
    assert!(matches!(rule_of(agent.step_continuous(&state, s(0.0), false)), ConfigRule::NotContinuous));
    assert!(matches!(
        rule_of(agent.step_continuous_raw_device(&state, s(0.0), false)),
        ConfigRule::NotContinuous
    ));
    assert!(matches!(
        rule_of(agent.act_continuous(&state, SelectionMode::Play)),
        ConfigRule::NotContinuous
    ));
}

#[test]
fn one_seed_gives_one_trajectory() {
    let mut a = agent_with(continuous_sac_config(), 11);
    let mut b = agent_with(continuous_sac_config(), 11);
    let mut c = agent_with(continuous_sac_config(), 12);
    let mut parted = false;
    for k in 0..30 {
        let state = sv(&[0.1 * f64::from(k); 9]);
        let x = a.step_continuous(&state, s(0.5), k % 10 == 9).unwrap();
        let y = b.step_continuous(&state, s(0.5), k % 10 == 9).unwrap();
        let z = c.step_continuous_raw_device(&state, s(0.5), k % 10 == 9).unwrap();
        assert_eq!(x, y);
        assert!(fv(&x).iter().all(|v| (-1.0..=1.0).contains(v)));
        parted = parted || x != z;
    }
    assert!(parted);
    assert_eq!(a.replay_buffer.as_ref().unwrap().total_len(), 27);
}

#[test]
fn playing_is_deterministic_and_leaves_the_generator_alone() {
    let mut a = agent_with(continuous_sac_config(), 5);
    let state = sv(&[0.3; 9]);
    let (x, _) = a.act_continuous(&state, SelectionMode::Play).unwrap();
    let (y, infer) = a.act_continuous(&state, SelectionMode::Play).unwrap();
    assert_eq!(x, y);
    assert_eq!(f(x[0]), f(infer.y_conv[0]).tanh());
    let (z, _) = a.act_continuous(&state, SelectionMode::Training).unwrap();
    assert_ne!(x, z);
    let mut b = agent_with(continuous_sac_config(), 5);
    let (w, _) = b.act_continuous(&state, SelectionMode::Training).unwrap();
    assert_eq!(z, w);
}

#[test]
fn warm_up_actions_are_uniform_and_bounded() {
    let mut a = agent_with(continuous(|c| c.learning_starts = 50), 5);
    let before = a.actor.layers[0].weights.data.clone();
    let state = sv(&[0.3; 9]);
    for _ in 0..40 {
        let x = a.step_continuous(&state, s(1.0), false).unwrap();
        assert!(f(x[0]).abs() <= f(lit(WARMUP_BOUND)));
        let raw = f(a.action_prev_continuous.as_ref().unwrap()[0]);
        assert!((raw.tanh() - f(x[0])).abs() < 1e-9);
    }
    assert_eq!(a.actor.layers[0].weights.data, before);
}

#[test]
fn learning_starts_once_a_batch_is_there() {
    let mut a = agent_with(continuous_sac_config(), 5);
    let before = a.q1.as_ref().unwrap().layers[0].weights.data.clone();
    let state = sv(&[0.3; 9]);
    for _ in 0..8 {
        a.step_continuous(&state, s(1.0), false).unwrap();
        assert_eq!(a.q1.as_ref().unwrap().layers[0].weights.data, before);
    }
    a.step_continuous(&state, s(1.0), false).unwrap();
    assert_ne!(a.q1.as_ref().unwrap().layers[0].weights.data, before);
}

#[test]
fn the_end_of_an_episode_forgets_the_step_under_way() {
    let mut a = agent_with(continuous_sac_config(), 5);
    let state = sv(&[0.3; 9]);
    a.step_continuous(&state, s(1.0), false).unwrap();
    assert!(a.state_prev.is_some());
    a.step_continuous(&state, s(1.0), true).unwrap();
    assert!(a.state_prev.is_none() && a.action_prev_continuous.is_none() && a.infer_prev.is_none());
    a.step_continuous(&state, s(1.0), false).unwrap();
    a.reset_step();
    assert!(a.state_prev.is_none());
}

#[test]
fn log_density_of_a_squashed_action() {
    let lp = f(squashed_log_prob::<F64>(&sv(&[0.2, -0.4]), &sv(&[0.0, -1.0]), &sv(&[0.5, 0.1])));
    let part = |mu: f64, ls: f64, a: f64| {
        let z = (a - mu) / ls.exp();
        -0.5 * z * z - ls - 0.5 * (2.0 * std::f64::consts::PI).ln()
            - (1.0 - a.tanh() * a.tanh() + 1e-6).ln()
    };
    assert!(close(lp, part(0.2, 0.0, 0.5) + part(-0.4, -1.0, 0.1)));
}

#[test]
fn descent_direction_of_the_actor() {
    let d = fv(&sac_actor_delta::<F64>(
        &sv(&[0.2]),
        &sv(&[-1.0]),
        &sv(&[0.5]),
        &sv(&[0.8]),
        &sv(&[2.0]),
        s(0.3),
    ));
    let t = 0.5f64.tanh();
    let jac = 1.0 - t * t;
    let slope = 2.0 * t * jac / (jac + 1e-6);
    let sigma = (-1.0f64).exp();
    assert_eq!(d.len(), 2);
    assert!(close(d[0], 0.3 * slope - 2.0 * jac));
    assert!(close(d[1], 0.3 * (-1.0 + slope * sigma * 0.8) - 2.0 * jac * sigma * 0.8));
}

#[test]
fn deviations_are_clamped() {
    let (mu, ls) = split_mu_log_sigma(&sv(&[0.5, -7.0, -9.0, 3.0]), 2);
    assert_eq!(fv(&mu), vec![0.5, -7.0]);
    assert_eq!(fv(&ls), vec![-5.0, 2.0]);
    assert_eq!(f(lit(LOG_SIG_MIN)), -5.0);
    assert_eq!(f(lit(LOG_SIG_MAX)), 2.0);
}

#[test]
fn normal_draws_have_mean_zero_and_variance_one() {
    let mut rng = StdRng::seed_from_u64(9);
    let xs: Vec<f64> = (0..4000).map(|_| f(sample_standard_normal::<F64>(&mut rng))).collect();
    let mean = xs.iter().sum::<f64>() / 4000.0;
    let var = xs.iter().map(|x| x * x).sum::<f64>() / 4000.0;
    assert!(mean.abs() < 0.1 && (var - 1.0).abs() < 0.1);
}

#[test]
fn surprise_scales_the_learning_rate() {
    let a = agent_with(default_config(), 1);
    assert_eq!(f(a.surprise_scale(s(0.02))), 0.1);
    assert_eq!(f(a.surprise_scale(s(0.15))), 2.0);
    assert!(close(f(a.surprise_scale(s(0.085))), 1.05));
    assert_eq!(f(a.critic_surprise_scale(s(0.01))), 0.1);
    assert!(close(f(a.critic_surprise_scale(s(0.085))), 1.05));
}

#[test]
fn surprise_thresholds_adapt() {
    let mut a = agent_with(discrete(|c| c.adaptive_surprise = true), 1);
    for k in 0..10 {
        a.surprise_buffer.push_back(s(if k % 2 == 0 { 1.0 } else { 3.0 }));
    }
    // Mean two, deviation one: thresholds at 1.5 and 3.5.
    assert_eq!(f(a.surprise_scale(s(1.5))), 0.1);
    assert_eq!(f(a.surprise_scale(s(3.5))), 2.0);
    assert!(close(f(a.surprise_scale(s(2.5))), 1.05));
}

#[test]
fn the_actor_learns_and_keeps_its_books() {
    let mut a = agent_with(
        discrete(|c| {
            c.adaptive_surprise = true;
            c.surprise_buffer_size = 10;
            c.adaptive_consolidation = true;
            c.distillation_lambda_polyak = s(0.5);
            c.polyak_tau = s(0.5);
            c.ewc_lambda = s(0.1);
        }),
        1,
    );
    let input = sv(&[0.3; 9]);
    let infer = a.actor.infer(&input);
    let y = infer.y_conv.clone();
    let before = a.actor.layers[0].weights.data.clone();
    let copy = a.polyak_target.as_ref().unwrap().layers[0].weights.data.clone();
    assert_eq!(before, copy);
    let loss = a.apply_actor_update_and_bookkeeping(
        &sv(&[0.1; 9]),
        &infer,
        &input,
        &y,
        &[0, 1, 2],
        s(-0.4),
        s(7.0),
        LearnMode::Online,
    );
    assert_eq!(f(loss), 7.0);
    let now = &a.actor.layers[0].weights.data;
    assert_ne!(*now, before);
    let followed = &a.polyak_target.as_ref().unwrap().layers[0].weights.data;
    assert!(close(f(followed[0][0]), 0.5 * f(now[0][0]) + 0.5 * f(before[0][0])));
    assert_eq!(a.surprise_buffer.len(), 1);
    assert_eq!(a.td_error_buffer.len(), 1);
    assert_eq!(f(a.td_error_buffer[0]), 0.4);
    assert_eq!(f(a.last_td_error), -0.4);
    assert!(f(a.layer_error_ema[0]) > 0.0);
    assert!(a.actor_fisher[0].f_ema_weights.data.iter().flatten().any(|x| f(*x) > 0.0));
    for w in a.actor.layers.iter().flat_map(|l| l.weights.data.iter().flatten()) {
        assert!(f(*w).abs() <= f(lit(WEIGHT_CLIP)));
    }
    a.clear_actor_fisher_ema();
    assert!(a.actor_fisher[0].f_ema_weights.data.iter().flatten().all(|x| f(*x) == 0.0));
    a.reset_actor_transient_state();
    assert!(a.td_error_buffer.is_empty());
}

#[test]
fn values_that_are_not_finite_stay_out_of_the_history() {
    let mut a = agent_with(discrete(|c| c.adaptive_surprise = true), 1);
    let input = sv(&[0.3; 9]);
    let mut infer = a.actor.infer(&input);
    infer.surprise_score = s(INF);
    let y = infer.y_conv.clone();
    a.apply_actor_update_and_bookkeeping(
        &sv(&[0.0; 9]),
        &infer,
        &input,
        &y,
        &[0],
        s(f64::NAN),
        s(0.0),
        LearnMode::Online,
    );
    assert!(a.surprise_buffer.is_empty());
    assert!(a.td_error_buffer.is_empty());
}

#[test]
fn divergence_gradient_of_two_policies() {
    let y = sv(&[1.0, 0.0, 5.0]);
    let g = fv(&kl_gradient_of::<F64>(&y, &sv(&[0.0, 1.0, 5.0]), &[0, 1], s(1.0)));
    let p = 1f64.exp() / (1f64.exp() + 1.0);
    let (l0, l1) = (p.ln(), (1.0 - p).ln());
    let kl = p * (l0 - l1) + (1.0 - p) * (l1 - l0);
    assert!(close(g[0], p * (l0 - l1 - kl)));
    assert!(close(g[1], (1.0 - p) * (l1 - l0 - kl)));
    assert_eq!(g[2], 0.0);
    let same = fv(&kl_gradient_of::<F64>(&y, &y, &[0, 1], s(1.0)));
    assert_eq!(same, vec![0.0, 0.0, 0.0]);
    let zeros = sv(&[0.0, -0.0, 2.0]);
    let signs = sv(&[-0.0, 0.0, 9.0]);
    let agreeing = fv(&kl_gradient_of::<F64>(&zeros, &signs, &[0, 1, 0], s(0.5)));
    assert_eq!(agreeing, vec![0.0, 0.0, 0.0]);
    let endless = sv(&[INF, -INF, 0.0]);
    let stuck = fv(&kl_gradient_of::<F64>(&endless, &endless, &[0, 1], s(1.0)));
    assert_eq!(stuck, vec![0.0, 0.0, 0.0]);
    let wild = fv(&kl_gradient_of::<F64>(&sv(&[INF, 0.0, 0.0]), &y, &[0, 1], s(1.0)));
    assert_eq!(wild, vec![0.0, 0.0, 0.0]);
}

#[test]
fn memories_move_from_training_to_recent() {
    let step = |r: f64| ReplayTransition {
        state: sv(&[0.0]),
        action: Action::Continuous(sv(&[0.5])),
        reward: s(r),
        next_state: sv(&[1.0]),
        done: false,
        valid_actions: None,
    };
    let mut b = ReplayBuffer::new(2, 1, false, ActionSpace::Continuous);
    for k in 0..3 {
        b.push(step(f64::from(k))).unwrap();
    }
    assert_eq!(b.total_len(), 2);
    assert_eq!(f(b.get(0).reward), 1.0);
    b.seal_training_memories();
    b.push(step(5.0)).unwrap();
    b.push(step(6.0)).unwrap();
    assert_eq!(b.total_len(), 3);
    assert_eq!(f(b.get(2).reward), 6.0);
    assert_eq!(f(b.get(0).reward), 1.0);
    b.clear_recent();
    assert_eq!(b.total_len(), 2);

    let mut discrete_memory = ReplayBuffer::new(2, 0, true, ActionSpace::Discrete);
    assert!(matches!(rule_of(discrete_memory.push(step(1.0))), ConfigRule::ReplayActionKind));
    let mut positive = ReplayBuffer::new(2, 0, true, ActionSpace::Continuous);
    positive.push(step(0.0)).unwrap();
    assert_eq!(positive.total_len(), 0);
    positive.push(step(0.5)).unwrap();
    assert_eq!(positive.total_len(), 1);
}

#[test]
fn sealing_and_clearing_need_memories() {
    let mut none = agent_with(default_config(), 1);
    assert!(matches!(rule_of(none.seal_replay_training_memories()), ConfigRule::NothingToSeal));
    assert!(matches!(rule_of(none.clear_recent_memories()), ConfigRule::NothingToClear));
    let mut some = agent_with(continuous(|c| c.replay_recent_capacity = 4), 1);
    some.seal_replay_training_memories().unwrap();
    let state = sv(&[0.3; 9]);
    for _ in 0..6 {
        some.step_continuous(&state, s(-1.0), false).unwrap();
    }
    let memory = some.replay_buffer.as_ref().unwrap();
    assert_eq!((memory.training_memories.len(), memory.recent_memories.len()), (0, 4));
    some.clear_recent_memories().unwrap();
    assert_eq!(some.replay_buffer.as_ref().unwrap().total_len(), 0);
    assert_eq!(some.replay_clamp_count(), 0);
}

#[test]
fn slow_copies_follow_by_tau() {
    let mut a = agent_with(continuous(|c| c.polyak_tau = s(0.25)), 1);
    let live = f(a.q1.as_ref().unwrap().layers[0].weights.data[0][0]);
    a.q1_target.as_mut().unwrap().layers[0].weights.data[0][0] = s(1.0);
    a.polyak_update_targets();
    let slow = f(a.q1_target.as_ref().unwrap().layers[0].weights.data[0][0]);
    assert!(close(slow, 0.75 + 0.25 * live));
    assert!(a.has_sac_critics());
    assert!(!agent_with(default_config(), 1).has_sac_critics());
}

#[test]
fn the_smaller_critic_decides() {
    let a = agent_with(continuous_sac_config(), 1);
    let state = sv(&[0.3; 9]);
    let action = sv(&[0.4]);
    let q1 = f(a.q1.as_ref().unwrap().forward(&state, &action));
    let q2 = f(a.q2.as_ref().unwrap().forward(&state, &action));
    assert_ne!(q1, q2);
    assert_eq!(f(a.sac_q_min(&state, &action).unwrap()), q1.min(q2));
    let g = f(a.sac_action_gradient_min(&state, &action).unwrap()[0]);
    let h = 1e-6;
    let smaller = if q1 <= q2 { a.q1.as_ref().unwrap() } else { a.q2.as_ref().unwrap() };
    let slope = (f(smaller.forward(&state, &sv(&[0.4 + h]))) - f(smaller.forward(&state, &sv(&[0.4 - h]))))
        / (2.0 * h);
    assert!((g - slope).abs() < 1e-6);
    assert!(agent_with(default_config(), 1).sac_q_min(&state, &action).is_none());
}

#[test]
fn temperature_descends_by_its_rate() {
    let mut a = agent_with(continuous(|c| c.log_alpha_init = s(0.5)), 1);
    a.sac_temperature_update(s(2.0));
    // Target entropy minus one: the gradient is -exp(0.5) * (2 - 1).
    assert!(close(f(a.log_alpha), 0.5 + 0.001 * 0.5f64.exp()));
    let mut b = agent_with(continuous(|c| c.target_entropy = Some(s(-3.0))), 1);
    b.sac_temperature_update(s(1.0));
    assert!(close(f(b.log_alpha), 0.001 * (1.0 - 3.0)));
}

#[test]
fn updates_with_numbers_that_are_not_finite_are_left_out() {
    let mut a = agent_with(continuous_sac_config(), 1);
    let bad = ReplayTransition {
        state: sv(&[0.1; 9]),
        action: Action::Continuous(sv(&[0.5])),
        reward: s(INF),
        next_state: sv(&[0.1; 9]),
        done: true,
        valid_actions: None,
    };
    let before = a.q1.as_ref().unwrap().layers[0].weights.data.clone();
    a.sac_critic_update(std::slice::from_ref(&bad));
    assert_eq!(a.sac_skipped_critic_updates(), 1);
    assert_eq!(a.q1.as_ref().unwrap().layers[0].weights.data, before);
    assert_eq!(a.sac_skipped_actor_updates(), 0);
}

#[test]
fn learning_rate_decays_from_the_top_layer() {
    let a = agent_with(
        discrete(|c| {
            c.actor.hidden_layers = vec![
                LayerDef { size: 4, activation: Activation::Tanh },
                LayerDef { size: 4, activation: Activation::Tanh },
                LayerDef { size: 4, activation: Activation::Tanh },
            ];
            c.critic.input_size = 21;
            c.consolidation_decay = s(0.5);
        }),
        1,
    );
    assert_eq!(fv(&a.effective_actor_decay()), vec![0.25, 0.5, 1.0]);
}

#[test]
fn adaptive_decay_is_a_sigmoid_of_the_layer_error() {
    let mut a = agent_with(discrete(|c| c.adaptive_consolidation = true), 1);
    assert_eq!(a.layer_error_ema.len(), 1);
    a.layer_error_ema[0] = s(0.15);
    let d = f(a.effective_actor_decay()[0]);
    let x: f64 = -10.0 * (0.15 - 0.05);
    assert!(close(d, 1.0 - 1.0 / (1.0 + (-x).exp())));
}

#[test]
fn a_resting_actor_learns_at_the_floor() {
    let mut a = agent_with(
        discrete(|c| {
            c.actor_hysteresis = true;
            c.scale_floor_replay = s(0.7);
        }),
        1,
    );
    assert_eq!(f(a.effective_actor_scale_for_mode(s(1.0), LearnMode::Online)), 2.0);
    if let Some(h) = a.actor_hysteresis.as_mut() {
        h.state = PlasticityState::Frozen;
    }
    assert_eq!(f(a.effective_actor_scale_for_mode(s(1.0), LearnMode::Online)), 0.1);
    assert_eq!(f(a.effective_actor_scale_for_mode(s(1.0), LearnMode::Replay)), 0.7);
    let c = agent_with(continuous_sac_config(), 1);
    assert_eq!(f(c.effective_actor_scale_for_mode(s(0.0), LearnMode::Online)), 1.0);
}

#[test]
fn defaults_of_the_configuration() {
    assert_eq!(f(default_alpha()), 0.1);
    assert_eq!(f(default_tol()), 0.01);
    assert_eq!(default_min_steps(), 1);
    assert_eq!(default_max_steps(), 20);
    assert_eq!(f(default_lr_weights()), 0.01);
    assert!(default_synchronous());
    assert_eq!(f(default_temperature()), 1.0);
    assert_eq!(f(default_local_lambda()), 1.0);
    assert_eq!(f(default_rezero_init()), 0.001);
    assert_eq!(f(default_critic_lr()), 0.005);
}

#[test]
fn the_coarse_number_system_copies_an_actor() {
    let config = PcActorConfig {
        input_size: 1,
        hidden_layers: vec![],
        output_size: 1,
        output_activation: Activation::Linear,
        ..default_config().actor
    };
    let backend = CpuLinAlg::new(Coarse);
    let mut rng = StdRng::seed_from_u64(1);
    let mut a = PcActor::new(backend.clone(), config.clone(), &mut rng).unwrap();
    let mut b = PcActor::new(backend, config, &mut rng).unwrap();
    a.layers[0].weights.data[0][0] = s(0.25);
    b.layers[0].weights.data[0][0] = s(0.75);
    a.polyak_update_from(&b, s(1.0)).unwrap();
    assert_eq!(f(a.layers[0].weights.data[0][0]), 0.75);
}

#[test]
fn the_mode_of_an_agent_stays() {
    let resting = continuous(|c| c.action_space = ActionSpace::Discrete);
    let mut agent = agent_with(resting.clone(), 3);
    assert!(matches!(
        rule_of(agent.apply_config(continuous_sac_config())),
        ConfigRule::Fixed(FixedField::SacMode { current: false, wanted: true })
    ));
    let mut agent = agent_with(continuous_sac_config(), 3);
    assert!(matches!(
        rule_of(agent.apply_config(resting)),
        ConfigRule::Fixed(FixedField::SacMode { current: true, wanted: false })
    ));
}

#[test]
fn discrete_agents_have_no_action_value_critics() {
    let warm = continuous(|c| c.log_alpha_init = s(0.3));
    let agent = agent_with(warm.clone(), 3);
    assert!(agent.q1.is_some() && agent.q2_target.is_some());
    assert_eq!(f(agent.log_alpha), 0.3);
    let mut cold = warm;
    cold.action_space = ActionSpace::Discrete;
    let agent = agent_with(cold, 3);
    assert!(agent.q1.is_none() && agent.q2.is_none());
    assert!(agent.q1_target.is_none() && agent.q2_target.is_none());
    assert_eq!(f(agent.log_alpha), 0.0);
    assert!(agent.sac_alpha().is_none());
}

#[test]
fn a_toggled_filter_empties_the_memory() {
    let mut a = agent_with(continuous_sac_config(), 5);
    let state = sv(&[0.3; 9]);
    for _ in 0..4 {
        a.step_continuous(&state, s(-1.0), false).unwrap();
    }
    let size = |a: &Agent| a.replay_buffer.as_ref().unwrap().total_len();
    assert_eq!(size(&a), 3);
    a.apply_config(continuous(|c| c.gamma = s(0.5))).unwrap();
    assert_eq!(size(&a), 3);
    a.apply_config(continuous(|c| c.replay_positive_only = false)).unwrap();
    assert_eq!(size(&a), 0);
    a.apply_config(continuous(|c| c.replay_positive_only = true)).unwrap();
    assert!(!a.replay_buffer.as_ref().unwrap().positive_only);
}

#[test]
fn running_errors_belong_to_their_layer() {
    let mut a = agent_with(
        discrete(|c| {
            let tanh = Activation::Tanh;
            c.actor.hidden_layers =
                vec![LayerDef { size: 4, activation: tanh }, LayerDef { size: 3, activation: tanh }];
            c.critic.input_size = 16;
            c.adaptive_consolidation = true;
            c.consolidation_ema_beta = s(0.75);
        }),
        1,
    );
    let input = sv(&[0.3; 9]);
    let mut infer = a.actor.infer(&input);
    assert_eq!(infer.prediction_errors[0].len(), 3);
    infer.prediction_errors = vec![sv(&[1.0; 3]), sv(&[2.0; 4])];
    let y = infer.y_conv.clone();
    a.apply_actor_update_and_bookkeeping(
        &sv(&[0.0; 9]),
        &infer,
        &input,
        &y,
        &[0],
        s(0.0),
        s(0.0),
        LearnMode::Online,
    );
    assert_eq!(fv(&a.layer_error_ema), [0.5, 0.25]);
}

#[test]
fn each_later_step_is_remembered_once() {
    let mut a = agent_with(continuous_sac_config(), 5);
    let seen = |k: u32| sv(&[0.1 * f64::from(k); 9]);
    a.step_continuous(&seen(0), s(9.0), false).unwrap();
    assert_eq!(a.replay_buffer.as_ref().unwrap().total_len(), 0);
    let raw = a.action_prev_continuous.clone().unwrap();
    a.step_continuous(&seen(1), s(-2.0), true).unwrap();
    let memory = a.replay_buffer.as_ref().unwrap();
    assert_eq!(memory.total_len(), 1);
    let t = memory.get(0);
    assert_eq!(fv(&t.state), [0.0; 9]);
    assert_eq!(fv(&t.next_state), [0.1; 9]);
    assert_eq!(f(t.reward), -2.0);
    assert!(t.done);
    assert!(t.valid_actions.is_none());
    match &t.action {
        Action::Continuous(x) => assert_eq!(*x, raw),
        Action::Discrete(_) => panic!("a discrete action"),
    }
    a.step_continuous(&seen(2), s(1.0), false).unwrap();
    assert_eq!(a.replay_buffer.as_ref().unwrap().total_len(), 1);
}

#[test]
fn agents_without_inference_steps_act_and_follow() {
    let mut a = agent_with(
        continuous(|c| {
            c.actor.max_steps = 0;
            c.actor.min_steps = 0;
            c.actor.local_lambda = s(0.5);
            c.polyak_tau = s(0.25);
        }),
        5,
    );
    let state = sv(&[0.3; 9]);
    for _ in 0..3 {
        let x = a.step_continuous(&state, s(1.0), false).unwrap();
        assert_eq!(x.len(), 1);
        assert!(f(x[0]).abs() <= 1.0);
    }
    let live = f(a.q2.as_ref().unwrap().layers[0].weights.data[0][0]);
    a.q2_target.as_mut().unwrap().layers[0].weights.data[0][0] = s(1.0);
    a.polyak_update_targets();
    let slow = f(a.q2_target.as_ref().unwrap().layers[0].weights.data[0][0]);
    assert!(close(slow, 0.75 + 0.25 * live));
}
