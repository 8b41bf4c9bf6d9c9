//! Learning of continuous agents.

use pc_rl_continuos::arith::Arith;
use pc_rl_continuos::layer::LayerDef;
use pc_rl_continuos::mlp_critic::MlpCriticConfig;
use pc_rl_continuos::pc_actor::PcActorConfig;
use pc_rl_continuos::pc_actor_critic::policy::split_mu_log_sigma;
use pc_rl_continuos::pc_actor_critic::{
    Action, ActionSpace, PcActorCritic, PcActorCriticConfig, ReplayTransition,
};
use pc_rl_continuos::q_critic::{QCritic, QCriticConfig};
use pc_rl_continuos::scalar::{lit, Scalar};
use pc_rl_continuos::{Activation, CpuLinAlg};
use rand::rngs::StdRng;
use rand::Rng;

/// Double-precision arithmetic.
#[derive(Clone, Copy, Debug)]
struct F64;

fn s(x: f64) -> Scalar {
    lit(x.to_bits())
}

fn f(x: Scalar) -> f64 {
    f64::from_bits(x.bits)
}

#[allow(dead_code)]
fn sv(xs: &[f64]) -> Vec<Scalar> {
    xs.iter().map(|x| s(*x)).collect()
}

#[allow(dead_code)]
fn fv(xs: &[Scalar]) -> Vec<f64> {
    xs.iter().map(|x| f(*x)).collect()
}

impl Arith for F64 {
    // Facts of double precision, with nothing to run.
    fn zero_is_neutral(_a: Scalar, _b: Scalar) {}

    fn zero_absorbs(_a: Scalar, _b: Scalar) {}

    fn square_is_not_negative(_a: Scalar) {}

    fn equals_cancel(_a: Scalar, _b: Scalar) {}

    fn infinities_spread(_a: Scalar, _b: Scalar) {}

    fn equals_agree(_a: Scalar, _b: Scalar, _other_a: Scalar, _other_b: Scalar) {}

    fn r_add(a: Scalar, b: Scalar) -> Scalar {
        s(f(a) + f(b))
    }

    fn r_sub(a: Scalar, b: Scalar) -> Scalar {
        s(f(a) - f(b))
    }

    fn r_mul(a: Scalar, b: Scalar) -> Scalar {
        s(f(a) * f(b))
    }

    fn r_div(a: Scalar, b: Scalar) -> Scalar {
        s(f(a) / f(b))
    }

    fn r_sqrt(a: Scalar) -> Scalar {
        s(f(a).sqrt())
    }

    fn r_exp(a: Scalar) -> Scalar {
        s(f(a).exp())
    }

    fn r_ln(a: Scalar) -> Scalar {
        s(f(a).ln())
    }

    fn r_tanh(a: Scalar) -> Scalar {
        s(f(a).tanh())
    }

    fn r_atanh(a: Scalar) -> Scalar {
        s(f(a).atanh())
    }

    fn r_cos(a: Scalar) -> Scalar {
        s(f(a).cos())
    }

    fn r_powi(a: Scalar, n: usize) -> Scalar {
        s(f(a).powi(i32::try_from(n).unwrap_or(i32::MAX)))
    }

    fn r_count(n: usize) -> Scalar {
        s(n as f64)
    }

    fn r_ceil(a: Scalar) -> u64 {
        f(a).ceil() as u64
    }

    fn r_uniform_closed(rng: &mut StdRng, low: Scalar, high: Scalar) -> Scalar {
        s(rng.gen_range(f(low)..=f(high)))
    }

    fn r_uniform_open(rng: &mut StdRng, low: Scalar, high: Scalar) -> Scalar {
        s(rng.gen_range(f(low)..f(high)))
    }
}

type Cpu = CpuLinAlg<F64>;

fn cpu() -> Cpu {
    CpuLinAlg::new(F64)
}

fn default_config() -> PcActorCriticConfig {
    PcActorCriticConfig {
        actor: PcActorConfig {
            input_size: 9,
            hidden_layers: vec![LayerDef {
                size: 18,
                activation: Activation::Tanh,
            }],
            output_size: 9,
            output_activation: Activation::Tanh,
            alpha: s(0.1),
            tol: s(0.01),
            min_steps: 1,
            max_steps: 20,
            lr_weights: s(0.01),
            synchronous: true,
            temperature: s(1.0),
            local_lambda: s(1.0),
            residual: false,
            rezero_init: s(0.001),
        },
        critic: MlpCriticConfig {
            input_size: 27,
            hidden_layers: vec![LayerDef {
                size: 36,
                activation: Activation::Tanh,
            }],
            output_activation: Activation::Linear,
            lr: s(0.005),
        },
        gamma: s(0.95),
        surprise_low: s(0.02),
        surprise_high: s(0.15),
        adaptive_surprise: false,
        surprise_buffer_size: 100,
        entropy_coeff: s(0.01),
        scale_floor: s(0.1),
        scale_ceil: s(2.0),
        actor_hysteresis: false,
        actor_fast_window: 20,
        actor_slow_window: 100,
        actor_wake_fraction: s(0.5),
        actor_sleep_fraction: s(0.3),
        critic_hysteresis: false,
        critic_fast_window: 20,
        critic_slow_window: 100,
        critic_wake_fraction: s(0.5),
        critic_sleep_fraction: s(0.3),
        actor_wakes_critic: true,
        actor_wakes_critic_threshold: 1000,
        critic_wakes_actor: true,
        critic_wakes_actor_threshold: 1000,
        consolidation_decay: s(1.0),
        critic_consolidation_decay: s(1.0),
        adaptive_consolidation: false,
        consolidation_ema_beta: s(0.99),
        consolidation_sigmoid_k: s(10.0),
        consolidation_error_threshold: s(0.05),
        ewc_lambda: s(0.0),
        fisher_decay: s(0.9),
        fisher_ema_beta: s(0.99),
        logits_reversal: false,
        td_steps: 0,
        gae_lambda: None,
        distillation_lambda_polyak: s(0.0),
        polyak_tau: s(0.005),
        distillation_lambda_frozen: s(0.0),
        replay_training_capacity: 0,
        replay_recent_capacity: 0,
        replay_positive_only: true,
        replay_batch_size: 64,
        scale_floor_replay: s(-1.0),
        critic_floor_replay: s(-1.0),
        action_space: ActionSpace::Discrete,
        policy_sigma: s(0.1),
        policy_entropy_coeff: s(0.0),
        q_critic: None,
        target_entropy: None,
        log_alpha_init: s(0.0),
        alpha_lr: s(0.001),
        learning_starts: 0,
    }
}

fn continuous_sac_config() -> PcActorCriticConfig {
    let mut cfg = default_config();
    cfg.action_space = ActionSpace::Continuous;
    cfg.actor.output_size = 2;
    cfg.actor.output_activation = Activation::Linear;
    cfg.policy_sigma = s(0.3);
    cfg.q_critic = Some(QCriticConfig {
        state_dim: cfg.actor.input_size,
        action_dim: 1,
        hidden_layers: vec![LayerDef {
            size: 16,
            activation: Activation::Tanh,
        }],
        lr: s(0.001),
    });
    cfg.replay_training_capacity = 1000;
    cfg.replay_batch_size = 8;
    cfg.polyak_tau = s(0.005);
    cfg.gae_lambda = None;
    cfg.td_steps = 0;
    cfg.distillation_lambda_polyak = s(0.0);
    cfg.distillation_lambda_frozen = s(0.0);
    cfg
}

type Agent = PcActorCritic<Cpu>;

fn agent_with(cfg: PcActorCriticConfig, seed: u64) -> Agent {
    PcActorCritic::new(cpu(), cfg, seed).unwrap()
}

fn q1(agent: &Agent, state: &[Scalar], action: &[Scalar]) -> f64 {
    f(agent.q1.as_ref().unwrap().forward(state, action))
}

fn heads(agent: &Agent, state: &[Scalar]) -> (Vec<f64>, Vec<f64>) {
    let action_dim = agent.config.q_critic.as_ref().unwrap().action_dim;
    let infer = agent.actor.infer(state);
    let (mu, log_sigma) = split_mu_log_sigma(&infer.y_conv, action_dim);
    (fv(&mu), fv(&log_sigma))
}

fn alpha(agent: &Agent) -> f64 {
    f(agent.sac_alpha().unwrap())
}

fn final_step(state: &[Scalar], a_raw: f64, reward: f64) -> ReplayTransition {
    ReplayTransition {
        state: state.to_vec(),
        action: Action::Continuous(sv(&[a_raw])),
        reward: s(reward),
        next_state: state.to_vec(),
        done: true,
        valid_actions: None,
    }
}

const PROBE: [f64; 9] = [0.1, 0.2, 0.3, 0.4, 0.5, 0.6, 0.7, 0.8, 0.9];

#[test]
fn test_sac_critic_learns_to_rank_actions() {
    let mut agent = agent_with(continuous_sac_config(), 7);
    let state = sv(&PROBE);
    let batch: Vec<ReplayTransition> = (0..64)
        .map(|i| {
            let a_raw = -3.0 + (i as f64) * (6.0 / 63.0);
            let r = -((a_raw.tanh() - 0.7).powi(2));
            final_step(&state, a_raw, r)
        })
        .collect();
    for _ in 0..300 {
        agent.sac_critic_update(&batch);
    }
    let q_good = q1(&agent, &state, &sv(&[0.7]));
    let q_bad = q1(&agent, &state, &sv(&[-0.7]));
    assert!(
        q_good > q_bad,
        "Q should rank good action above bad: {q_good} vs {q_bad}"
    );
}

fn score_function_mu_delta(mu: f64, a_raw: f64, sigma: f64, advantage: f64) -> f64 {
    advantage * (mu - a_raw) / (sigma * sigma)
}

#[test]
fn pathwise_gradient_moves_the_mean_towards_better_actions() {
    let state = sv(&PROBE);
    let mut agent = agent_with(continuous_sac_config(), 17);

    // The critics learn that a larger action is better.
    let q_batch: Vec<ReplayTransition> = (0..64)
        .map(|i| {
            let a_raw = -3.0 + (i as f64) * (6.0 / 63.0);
            final_step(&state, a_raw, a_raw.tanh())
        })
        .collect();
    for _ in 0..1000 {
        agent.sac_critic_update(&q_batch);
    }
    let q_high = q1(&agent, &state, &sv(&[0.8]));
    let q_low = q1(&agent, &state, &sv(&[-0.8]));
    assert!(
        q_high > q_low,
        "critic pre-train sanity: Q(a=+0.8)={q_high} must > Q(a=-0.8)={q_low}"
    );

    // The actor follows them, one full step per transition.
    let mu_before = heads(&agent, &state).0[0];
    let actor_single_batch: Vec<ReplayTransition> = (0..32)
        .map(|i| {
            let a_raw = -2.0 + (i as f64) * (4.0 / 31.0);
            final_step(&state, a_raw, a_raw.tanh())
        })
        .collect();
    for _ in 0..200 {
        for t in &actor_single_batch {
            agent.sac_actor_update(std::slice::from_ref(t));
        }
    }
    let mu_after = heads(&agent, &state).0[0];
    assert!(
        mu_after > mu_before,
        "pathwise gradient must push the mean upward; before={mu_before:.4}, after={mu_after:.4}"
    );

    // At a saturated point the score function moves the mean far less.
    let saturated_a_raw = 4.0;
    let advantage_at_saturation = 0.02;
    let sf_delta =
        score_function_mu_delta(mu_after, saturated_a_raw, 0.3, advantage_at_saturation);
    let pathwise_movement = (mu_after - mu_before).abs();
    assert!(
        pathwise_movement > 3.0 * sf_delta.abs(),
        "contrast: pathwise movement {pathwise_movement:.4} must exceed 3x score-fn delta {sf_delta:.4}"
    );
}

#[test]
fn test_mu_raw_stays_bounded_under_sac() {
    const MU_RAW_BOUND: f64 = 50.0;
    const STEPS: usize = 500;

    let probes: Vec<Vec<Scalar>> = vec![
        sv(&[0.1, 0.2, 0.3, 0.4, 0.5, 0.6, 0.7, 0.8, 0.9]),
        sv(&[-0.5, 0.5, -0.5, 0.5, -0.5, 0.5, -0.5, 0.5, 0.0]),
        sv(&[1.0, -1.0, 1.0, -1.0, 1.0, -1.0, 1.0, -1.0, 0.0]),
        sv(&[0.0, 0.0, 0.0, 0.0, 0.0, 0.0, 0.0, 0.0, 0.0]),
        sv(&[0.3, 0.6, 0.9, -0.3, -0.6, -0.9, 0.1, -0.1, 0.5]),
    ];
    let mut agent = agent_with(continuous_sac_config(), 31);
    let mut state = probes[0].clone();
    let next_states: Vec<Vec<Scalar>> =
        probes.iter().cycle().skip(1).take(STEPS).cloned().collect();
    for (step, next_state) in next_states.iter().enumerate() {
        let done = (step + 1) % 50 == 0;
        let reward = heads(&agent, &state).0[0].tanh();
        let _ = agent.step_continuous(&state, s(reward), done);
        if !done {
            state = next_state.clone();
        } else {
            state = probes[0].clone();
        }
    }
    let mean_abs_mu: f64 = probes
        .iter()
        .map(|p| heads(&agent, p).0[0].abs())
        .sum::<f64>()
        / probes.len() as f64;
    assert!(
        mean_abs_mu < MU_RAW_BOUND,
        "the mean runs away: {mean_abs_mu:.2} >= {MU_RAW_BOUND}"
    );
}

#[test]
fn test_learned_sigma_collapses_as_policy_commits() {
    const TARGET: f64 = 0.5;
    const SEED: u64 = 53;

    let state = sv(&PROBE);
    let mut cfg = continuous_sac_config();
    cfg.actor.hidden_layers = vec![];
    cfg.critic.input_size = 9;
    cfg.log_alpha_init = s(0.0);
    cfg.alpha_lr = s(1e-9);
    cfg.q_critic = Some(QCriticConfig {
        state_dim: 9,
        action_dim: 1,
        hidden_layers: vec![LayerDef {
            size: 16,
            activation: Activation::Tanh,
        }],
        lr: s(0.001),
    });
    cfg.replay_training_capacity = 200;
    cfg.replay_batch_size = 16;
    let mut agent = agent_with(cfg, SEED);

    let q_batch: Vec<ReplayTransition> = (0..64_usize)
        .map(|i| {
            let a_squashed = -0.9 + (i as f64) * (1.8 / 63.0);
            let a_raw = a_squashed.atanh();
            let r = -((a_squashed - TARGET) * (a_squashed - TARGET));
            final_step(&state, a_raw, r)
        })
        .collect();
    for _ in 0..800 {
        agent.sac_critic_update(&q_batch);
    }
    let q_opt = q1(&agent, &state, &sv(&[TARGET]));
    let q_edge = q1(&agent, &state, &sv(&[-0.9]));
    assert!(
        q_opt > q_edge,
        "critic sanity: Q(a=0.5)={q_opt:.4} must > Q(a=-0.9)={q_edge:.4}"
    );

    let sigma_initial: f64 = heads(&agent, &state).1.iter().map(|ls| ls.exp()).sum::<f64>();
    let actor_batch: Vec<ReplayTransition> = (0..32_usize)
        .map(|i| {
            let a_raw = -2.0 + (i as f64) * (4.0 / 31.0);
            let r = -(a_raw.tanh() - TARGET).powi(2);
            final_step(&state, a_raw, r)
        })
        .collect();
    for _ in 0..800 {
        agent.sac_actor_update(&actor_batch);
    }
    let sigma_final: f64 = heads(&agent, &state).1.iter().map(|ls| ls.exp()).sum::<f64>();
    assert!(
        sigma_final < sigma_initial,
        "the deviation must narrow; initial={sigma_initial:.4}, final={sigma_final:.4}; seed={SEED}"
    );
}

#[test]
fn test_auto_temperature_drives_entropy_toward_target() {
    let mut agent = agent_with(continuous_sac_config(), 79);
    let alpha_initial = alpha(&agent);
    for _ in 0..200 {
        agent.sac_temperature_update(s(0.0));
    }
    let alpha_after_fall = alpha(&agent);
    assert!(
        alpha_after_fall < alpha_initial,
        "too much entropy must lower the temperature: {alpha_initial:.6} -> {alpha_after_fall:.6}"
    );

    let mut agent2 = agent_with(continuous_sac_config(), 79);
    let alpha_initial2 = alpha(&agent2);
    for _ in 0..200 {
        agent2.sac_temperature_update(s(2.0));
    }
    let alpha_after_rise = alpha(&agent2);
    assert!(
        alpha_after_rise > alpha_initial2,
        "too little entropy must raise the temperature: {alpha_initial2:.6} -> {alpha_after_rise:.6}"
    );
}

fn weights(q: &Option<QCritic<Cpu>>) -> Vec<f64> {
    let layers = &q.as_ref().unwrap().layers;
    layers.iter().flat_map(|l| l.weights.data.iter().flatten().map(|x| f(*x))).collect()
}

#[test]
fn critics_and_actor_learn_apart() {
    let mut agent = agent_with(continuous_sac_config(), 4);
    let batch = vec![final_step(&sv(&PROBE), 0.3, 1.0), final_step(&sv(&PROBE), -0.3, -1.0)];
    let actor = agent.actor.layers[0].weights.data.clone();
    let (q1, slow) = (weights(&agent.q1), weights(&agent.q1_target));
    agent.sac_critic_update(&batch);
    assert_ne!(weights(&agent.q1), q1);
    assert_eq!(weights(&agent.q1_target), slow);
    assert_eq!(agent.actor.layers[0].weights.data, actor);
    let (q1, log_alpha) = (weights(&agent.q1), agent.log_alpha);
    assert!(agent.sac_actor_update(&batch).is_some());
    assert_ne!(agent.actor.layers[0].weights.data, actor);
    assert_eq!(weights(&agent.q1), q1);
    assert_eq!(weights(&agent.q1_target), slow);
    assert_eq!(agent.log_alpha, log_alpha);
}

#[test]
fn a_learning_step_moves_slow_copies_towards_the_critics() {
    let mut cfg = continuous_sac_config();
    cfg.replay_batch_size = 2;
    cfg.polyak_tau = s(0.5);
    let mut agent = agent_with(cfg, 4);
    let state = sv(&PROBE);
    agent.sac_learn_step();
    let before = weights(&agent.q2_target);
    for k in 0..2 {
        let buffer = agent.replay_buffer.as_mut().unwrap();
        buffer.push(final_step(&state, 0.1 * f64::from(k), 1.0)).unwrap();
    }
    agent.sac_learn_step();
    let live = weights(&agent.q2);
    for (i, w) in weights(&agent.q2_target).iter().enumerate() {
        assert!((w - (0.5 * before[i] + 0.5 * live[i])).abs() < 1e-12);
    }
    assert_ne!(f(agent.log_alpha), 0.0);
}
