//! Saving and loading agents.

use pc_rl_continuos::arith::Arith;
use pc_rl_continuos::error::{ConfigRule, SavedPart};
use pc_rl_continuos::layer::LayerDef;
use pc_rl_continuos::matrix::Matrix;
use pc_rl_continuos::mlp_critic::{MlpCriticConfig, MlpCriticWeights};
use pc_rl_continuos::naming::{checkpoint_filename_at, decimal_text};
use pc_rl_continuos::pc_actor::{PcActorConfig, SelectionMode};
use pc_rl_continuos::pc_actor_critic::{
    ActionSpace, PcActorCritic, PcActorCriticConfig, PlasticityState,
};
use pc_rl_continuos::q_critic::QCriticConfig;
use pc_rl_continuos::save_file::{is_workable, restore_agent};
use pc_rl_continuos::scalar::{lit, Scalar};
use pc_rl_continuos::serializer::{
    checkpoint_filename, default_rollback_hard_cooldown_steps,
    default_steps_since_last_rollback_hard, load_agent, load_agent_generic, save_agent,
    save_checkpoint, SaveFile, TrainingMetrics,
};
use pc_rl_continuos::{Activation, CpuLinAlg, PcError};
use rand::rngs::StdRng;
use rand::{Rng, SeedableRng};

/// Double-precision arithmetic.
#[derive(Clone, Copy, Debug)]
struct F64;

fn s(x: f64) -> Scalar {
    lit(x.to_bits())
}

fn f(x: Scalar) -> f64 {
    f64::from_bits(x.bits)
}

#[allow(dead_code)]
fn sv(xs: &[f64]) -> Vec<Scalar> {
    xs.iter().map(|x| s(*x)).collect()
}

#[allow(dead_code)]
fn fv(xs: &[Scalar]) -> Vec<f64> {
    xs.iter().map(|x| f(*x)).collect()
}

impl Arith for F64 {
    // Facts of double precision, with nothing to run.
    fn zero_is_neutral(_a: Scalar, _b: Scalar) {}

    fn zero_absorbs(_a: Scalar, _b: Scalar) {}

    fn square_is_not_negative(_a: Scalar) {}

    fn equals_cancel(_a: Scalar, _b: Scalar) {}

    fn infinities_spread(_a: Scalar, _b: Scalar) {}

    fn equals_agree(_a: Scalar, _b: Scalar, _other_a: Scalar, _other_b: Scalar) {}

    fn r_add(a: Scalar, b: Scalar) -> Scalar {
        s(f(a) + f(b))
    }

    fn r_sub(a: Scalar, b: Scalar) -> Scalar {
        s(f(a) - f(b))
    }

    fn r_mul(a: Scalar, b: Scalar) -> Scalar {
        s(f(a) * f(b))
    }

    fn r_div(a: Scalar, b: Scalar) -> Scalar {
        s(f(a) / f(b))
    }

    fn r_sqrt(a: Scalar) -> Scalar {
        s(f(a).sqrt())
    }

    fn r_exp(a: Scalar) -> Scalar {
        s(f(a).exp())
    }

    fn r_ln(a: Scalar) -> Scalar {
        s(f(a).ln())
    }

    fn r_tanh(a: Scalar) -> Scalar {
        s(f(a).tanh())
    }

    fn r_atanh(a: Scalar) -> Scalar {
        s(f(a).atanh())
    }

    fn r_cos(a: Scalar) -> Scalar {
        s(f(a).cos())
    }

    fn r_powi(a: Scalar, n: usize) -> Scalar {
        s(f(a).powi(i32::try_from(n).unwrap_or(i32::MAX)))
    }

    fn r_count(n: usize) -> Scalar {
        s(n as f64)
    }

    fn r_ceil(a: Scalar) -> u64 {
        f(a).ceil() as u64
    }

    fn r_uniform_closed(rng: &mut StdRng, low: Scalar, high: Scalar) -> Scalar {
        s(rng.gen_range(f(low)..=f(high)))
    }

    fn r_uniform_open(rng: &mut StdRng, low: Scalar, high: Scalar) -> Scalar {
        s(rng.gen_range(f(low)..f(high)))
    }
}

type Cpu = CpuLinAlg<F64>;

fn cpu() -> Cpu {
    CpuLinAlg::new(F64)
}

fn default_config() -> PcActorCriticConfig {
    PcActorCriticConfig {
        actor: PcActorConfig {
            input_size: 9,
            hidden_layers: vec![LayerDef {
                size: 18,
                activation: Activation::Tanh,
            }],
            output_size: 9,
            output_activation: Activation::Tanh,
            alpha: s(0.1),
            tol: s(0.01),
            min_steps: 1,
            max_steps: 20,
            lr_weights: s(0.01),
            synchronous: true,
            temperature: s(1.0),
            local_lambda: s(1.0),
            residual: false,
            rezero_init: s(0.001),
        },
        critic: MlpCriticConfig {
            input_size: 27,
            hidden_layers: vec![LayerDef {
                size: 36,
                activation: Activation::Tanh,
            }],
            output_activation: Activation::Linear,
            lr: s(0.005),
        },
        gamma: s(0.95),
        surprise_low: s(0.02),
        surprise_high: s(0.15),
        adaptive_surprise: false,
        surprise_buffer_size: 100,
        entropy_coeff: s(0.01),
        scale_floor: s(0.1),
        scale_ceil: s(2.0),
        actor_hysteresis: false,
        actor_fast_window: 20,
        actor_slow_window: 100,
        actor_wake_fraction: s(0.5),
        actor_sleep_fraction: s(0.3),
        critic_hysteresis: false,
        critic_fast_window: 20,
        critic_slow_window: 100,
        critic_wake_fraction: s(0.5),
        critic_sleep_fraction: s(0.3),
        actor_wakes_critic: true,
        actor_wakes_critic_threshold: 1000,
        critic_wakes_actor: true,
        critic_wakes_actor_threshold: 1000,
        consolidation_decay: s(1.0),
        critic_consolidation_decay: s(1.0),
        adaptive_consolidation: false,
        consolidation_ema_beta: s(0.99),
        consolidation_sigmoid_k: s(10.0),
        consolidation_error_threshold: s(0.05),
        ewc_lambda: s(0.0),
        fisher_decay: s(0.9),
        fisher_ema_beta: s(0.99),
        logits_reversal: false,
        td_steps: 0,
        gae_lambda: None,
        distillation_lambda_polyak: s(0.0),
        polyak_tau: s(0.005),
        distillation_lambda_frozen: s(0.0),
        replay_training_capacity: 0,
        replay_recent_capacity: 0,
        replay_positive_only: true,
        replay_batch_size: 64,
        scale_floor_replay: s(-1.0),
        critic_floor_replay: s(-1.0),
        action_space: ActionSpace::Discrete,
        policy_sigma: s(0.1),
        policy_entropy_coeff: s(0.0),
        q_critic: None,
        target_entropy: None,
        log_alpha_init: s(0.0),
        alpha_lr: s(0.001),
        learning_starts: 0,
    }
}

fn continuous_sac_config() -> PcActorCriticConfig {
    let mut cfg = default_config();
    cfg.action_space = ActionSpace::Continuous;
    cfg.actor.output_size = 2;
    cfg.actor.output_activation = Activation::Linear;
    cfg.policy_sigma = s(0.3);
    cfg.q_critic = Some(QCriticConfig {
        state_dim: cfg.actor.input_size,
        action_dim: 1,
        hidden_layers: vec![LayerDef {
            size: 16,
            activation: Activation::Tanh,
        }],
        lr: s(0.001),
    });
    cfg.replay_training_capacity = 1000;
    cfg.replay_batch_size = 8;
    cfg.polyak_tau = s(0.005);
    cfg.gae_lambda = None;
    cfg.td_steps = 0;
    cfg.distillation_lambda_polyak = s(0.0);
    cfg.distillation_lambda_frozen = s(0.0);
    cfg
}

type Agent = PcActorCritic<Cpu>;

fn agent_with(cfg: PcActorCriticConfig, seed: u64) -> Agent {
    PcActorCritic::new(cpu(), cfg, seed).unwrap()
}

fn metrics() -> TrainingMetrics {
    TrainingMetrics {
        win_rate: s(0.5),
        loss_rate: s(0.25),
        draw_rate: s(0.25),
        avg_surprise: s(0.01),
        curriculum_depth: 3,
    }
}

fn error_of(file: SaveFile) -> PcError {
    load_agent(file, cpu()).err().unwrap()
}

fn worked_agent() -> Agent {
    let mut agent = agent_with(continuous_sac_config(), 21);
    for k in 0..20 {
        let state = sv(&[0.05 * f64::from(k); 9]);
        agent.step_continuous(&state, s(0.1), k == 9).unwrap();
    }
    agent
}

#[test]
fn a_saved_agent_comes_back() {
    let mut agent = worked_agent();
    let file = save_agent(&agent, 7, Some(metrics()));
    assert_eq!(file.metadata.version, "1.0.0");
    assert!(file.metadata.created.ends_with("+00:00"));
    assert!(file.metadata.created.contains('T'));
    let (mut back, metadata) = load_agent_generic(file, cpu()).unwrap();
    assert_eq!(metadata.episode, 7);
    assert_eq!(metadata.metrics.unwrap().curriculum_depth, 3);
    assert_eq!(back.log_alpha, agent.log_alpha);
    assert_ne!(f(back.log_alpha), 0.0);
    assert_eq!(
        back.replay_buffer.as_ref().unwrap().total_len(),
        agent.replay_buffer.as_ref().unwrap().total_len()
    );
    assert_eq!(back.steps_since_last_rollback_hard, agent.steps_since_last_rollback_hard);
    assert_eq!(back.rollback_hard_cooldown_steps, agent.rollback_hard_cooldown_steps);
    let state = sv(&[0.3; 9]);
    let (x, _) = agent.act_continuous(&state, SelectionMode::Play).unwrap();
    let (y, _) = back.act_continuous(&state, SelectionMode::Play).unwrap();
    assert_eq!(x, y);
    let a = sv(&[0.2]);
    assert_eq!(agent.sac_q_min(&state, &a), back.sac_q_min(&state, &a));
    assert_eq!(
        agent.q2_target.as_ref().unwrap().layers[1].weights.data,
        back.q2_target.as_ref().unwrap().layers[1].weights.data
    );
    assert!(back.state_prev.is_none());
    assert!(back.step_continuous(&state, s(0.0), false).is_ok());
}

#[test]
fn loaded_agents_draw_from_fresh_generators() {
    let (mut a, _) = load_agent(save_agent(&worked_agent(), 0, None), cpu()).unwrap();
    let (mut b, _) = load_agent(save_agent(&worked_agent(), 0, None), cpu()).unwrap();
    let state = sv(&[0.3; 9]);
    let (x, _) = a.act_continuous(&state, SelectionMode::Training).unwrap();
    let (y, _) = b.act_continuous(&state, SelectionMode::Training).unwrap();
    assert_ne!(x, y);
}

#[test]
fn restoring_with_a_given_generator_is_deterministic() {
    let state = sv(&[0.3; 9]);
    let draw = || {
        let file = save_agent(&worked_agent(), 0, None);
        let (mut a, _) = restore_agent(file, cpu(), StdRng::seed_from_u64(4)).unwrap();
        a.act_continuous(&state, SelectionMode::Training).unwrap().0
    };
    assert_eq!(draw(), draw());
}

#[test]
fn missing_critics_are_reported_in_order() {
    let expect = |file: SaveFile, part: SavedPart| {
        let e = error_of(file);
        assert!(
            matches!(e, PcError::ConfigValidation(ConfigRule::SavedPartMissing(p)) if p == part),
            "{e:?}"
        );
    };
    let saved = || save_agent(&worked_agent(), 0, None);
    let mut file = saved();
    file.q2_target_weights = None;
    expect(file, SavedPart::Q2Target);
    let mut file = saved();
    file.q2_target_weights = None;
    file.q1_target_weights = None;
    expect(file, SavedPart::Q1Target);
    let mut file = saved();
    file.q1_target_weights = None;
    file.q2_weights = None;
    expect(file, SavedPart::Q2);
    let mut file = saved();
    file.q1_weights = None;
    file.q2_weights = None;
    expect(file, SavedPart::Q1);
    let mut file = saved();
    file.config.q_critic = None;
    assert!(matches!(
        error_of(file),
        PcError::ConfigValidation(ConfigRule::SavedWithoutQCritic)
    ));
}

#[test]
fn misfitting_weights_are_reported() {
    let saved = || save_agent(&worked_agent(), 0, None);
    let mut file = saved();
    file.actor_weights.layers[0].weights = Matrix::zeros(3, 9);
    assert!(matches!(error_of(file), PcError::DimensionMismatch { expected: 18, got: 3, .. }));
    let mut file = save_agent(&agent_with(default_config(), 2), 0, None);
    file.critic_weights = MlpCriticWeights::default();
    assert!(matches!(error_of(file), PcError::DimensionMismatch { expected: 2, got: 0, .. }));
    let mut file = saved();
    file.q2_weights.as_mut().unwrap().layers[0].bias = sv(&[0.0; 3]);
    assert!(matches!(error_of(file), PcError::DimensionMismatch { expected: 16, got: 3, .. }));
}

#[test]
fn what_was_not_saved_gets_its_default() {
    let mut file = save_agent(&worked_agent(), 0, None);
    file.log_alpha = None;
    file.replay_buffer = None;
    file.config.log_alpha_init = s(0.125);
    let (back, _) = load_agent(file, cpu()).unwrap();
    assert_eq!(f(back.log_alpha), 0.125);
    let memory = back.replay_buffer.as_ref().unwrap();
    assert_eq!(memory.total_len(), 0);
    assert_eq!(memory.training_capacity, 1000);
    assert!(!memory.positive_only);
    assert_eq!(default_steps_since_last_rollback_hard(), u64::MAX);
    assert_eq!(default_rollback_hard_cooldown_steps(), 100);
}

#[test]
fn references_come_back() {
    let mut cfg = default_config();
    cfg.distillation_lambda_polyak = s(0.5);
    cfg.distillation_lambda_frozen = s(0.5);
    let mut agent = agent_with(cfg, 2);
    agent.polyak_target.as_mut().unwrap().layers[0].bias[0] = s(0.75);
    let mut file = save_agent(&agent, 0, None);
    file.frozen_champion_weights = None;
    file.actor_weights.layers[0].bias[0] = s(0.5);
    let (back, _) = load_agent(file, cpu()).unwrap();
    assert_eq!(f(back.polyak_target.as_ref().unwrap().layers[0].bias[0]), 0.75);
    assert_eq!(f(back.frozen_champion.as_ref().unwrap().layers[0].bias[0]), 0.5);

    let mut file = save_agent(&agent, 0, None);
    file.config.distillation_lambda_polyak = s(0.0);
    let (back, _) = load_agent(file, cpu()).unwrap();
    assert!(back.polyak_target.is_none());
    assert!(back.frozen_champion.is_some());

    let mut file = save_agent(&agent, 0, None);
    file.polyak_target_weights.as_mut().unwrap().layers[0].bias = sv(&[]);
    assert!(matches!(error_of(file), PcError::DimensionMismatch { expected: 18, got: 0, .. }));
}

#[test]
fn continual_learning_state_comes_back() {
    let mut cfg = default_config();
    cfg.actor_hysteresis = true;
    cfg.ewc_lambda = s(0.5);
    cfg.adaptive_consolidation = true;
    let mut agent = agent_with(cfg, 2);
    agent.actor_frozen_steps = 4;
    agent.actor_last_phase_reliable = true;
    agent.layer_error_ema[0] = s(0.75);
    agent.actor_fisher[0].f_total_bias[1] = s(2.5);
    if let Some(h) = agent.actor_hysteresis.as_mut() {
        h.state = PlasticityState::Frozen;
        h.fast.k = 9;
    }
    let (back, _) = load_agent(save_agent(&agent, 0, None), cpu()).unwrap();
    assert_eq!(back.actor_frozen_steps, 4);
    assert!(back.actor_last_phase_reliable);
    assert_eq!(f(back.layer_error_ema[0]), 0.75);
    assert_eq!(f(back.actor_fisher[0].f_total_bias[1]), 2.5);
    assert_eq!(back.actor_hysteresis, agent.actor_hysteresis);
    assert!(back.critic_hysteresis.is_none());
}

#[test]
fn plain_agents_save_no_continual_learning_state() {
    let agent = agent_with(default_config(), 2);
    assert!(agent.to_cl_state().is_none());
    let mut other = agent_with(default_config(), 2);
    other.critic_frozen_steps = 1;
    let cl = other.to_cl_state().unwrap();
    assert_eq!(cl.critic_frozen_steps, 1);
    let mut third = agent_with(default_config(), 2);
    third.restore_cl_state(cl);
    assert_eq!(third.critic_frozen_steps, 1);
}

#[test]
fn checkpoint_names_hold_episode_and_date() {
    assert_eq!(checkpoint_filename_at(42, "20260102_030405"), "checkpoint_ep42_20260102_030405.json");
    assert_eq!(decimal_text(0), "0");
    assert_eq!(decimal_text(1090), "1090");
    let name = checkpoint_filename(100);
    assert!(name.starts_with("checkpoint_ep100_"));
    assert!(name.ends_with(".json"));
    assert!(!name.contains(':'));
    assert_eq!(name.len(), "checkpoint_ep100_20260102_030405.json".len());
    let stamp = &name["checkpoint_ep100_".len()..name.len() - 5];
    assert!(stamp.chars().enumerate().all(|(i, c)| if i == 8 { c == '_' } else { c.is_ascii_digit() }));
}

#[test]
fn a_checkpoint_is_a_name_and_a_save() {
    let (name, file) = save_checkpoint(&worked_agent(), 5, None);
    assert!(name.starts_with("checkpoint_ep5_"));
    assert_eq!(file.metadata.episode, 5);
    assert!(file.metadata.metrics.is_none());
    assert!(file.log_alpha.is_some());
    let (_, plain) = save_checkpoint(&agent_with(default_config(), 2), 5, None);
    assert!(plain.log_alpha.is_none() && plain.q1_weights.is_none());
}

#[test]
fn a_continuous_agent_loads_without_its_state_value_critic() {
    let agent = worked_agent();
    let saved = || {
        let mut file = save_agent(&agent, 0, None);
        file.critic_weights = MlpCriticWeights::default();
        file
    };
    let (mut back, _) = restore_agent(saved(), cpu(), StdRng::seed_from_u64(4)).unwrap();
    assert_eq!(back.critic.layers.len(), 2);
    assert_eq!(back.actor.layers[0].weights.data, agent.actor.layers[0].weights.data);
    let (again, _) = restore_agent(saved(), cpu(), StdRng::seed_from_u64(4)).unwrap();
    assert_eq!(again.critic.layers[0].weights.data, back.critic.layers[0].weights.data);
    back.step_continuous(&sv(&[0.2; 9]), s(0.0), false).unwrap();
    let mut file = saved();
    file.config.critic.input_size = 0;
    assert!(matches!(
        error_of(file),
        PcError::ConfigValidation(ConfigRule::CriticInputSizeZero)
    ));
}

#[test]
fn a_discrete_agent_loads_without_action_value_critics() {
    let resting = || {
        let mut file = save_agent(&worked_agent(), 0, None);
        file.config.action_space = ActionSpace::Discrete;
        file
    };
    let (back, _) = load_agent(resting(), cpu()).unwrap();
    assert!(back.q1.is_none() && back.q2_target.is_none());
    assert_eq!(f(back.log_alpha), 0.0);
    let mut file = resting();
    file.q2_weights = None;
    assert!(matches!(
        error_of(file),
        PcError::ConfigValidation(ConfigRule::SavedPartMissing(SavedPart::Q2))
    ));
}

#[test]
fn parts_that_do_not_fit_each_other_are_noticed() {
    let mut file = save_agent(&worked_agent(), 0, None);
    assert!(is_workable(&file));
    let tanh = Activation::Tanh;
    file.config.actor.residual = true;
    file.config.actor.hidden_layers =
        vec![LayerDef { size: 18, activation: tanh }, LayerDef { size: 4, activation: tanh }];
    file.actor_weights.skip_projections = vec![None];
    assert!(!is_workable(&file));
}
