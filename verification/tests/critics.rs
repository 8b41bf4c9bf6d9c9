//! The two critics.

use pc_rl_continuos::arith::Arith;
use pc_rl_continuos::layer::LayerDef;
use pc_rl_continuos::matrix::{Matrix, WEIGHT_CLIP};
use pc_rl_continuos::mlp_critic::{MlpCritic, MlpCriticConfig, MlpCriticWeights};
use pc_rl_continuos::q_critic::{QCritic, QCriticConfig};
use pc_rl_continuos::scalar::{lit, Scalar};
use pc_rl_continuos::{Activation, CpuLinAlg, PcError};
use rand::rngs::StdRng;
use rand::{Rng, SeedableRng};

/// Double-precision arithmetic.
#[derive(Clone, Copy, Debug)]
struct F64;

fn s(x: f64) -> Scalar {
    lit(x.to_bits())
}

fn f(x: Scalar) -> f64 {
    f64::from_bits(x.bits)
}

#[allow(dead_code)]
fn sv(xs: &[f64]) -> Vec<Scalar> {
    xs.iter().map(|x| s(*x)).collect()
}

#[allow(dead_code)]
fn fv(xs: &[Scalar]) -> Vec<f64> {
    xs.iter().map(|x| f(*x)).collect()
}

impl Arith for F64 {
    // Facts of double precision, with nothing to run.
    fn zero_is_neutral(_a: Scalar, _b: Scalar) {}

    fn zero_absorbs(_a: Scalar, _b: Scalar) {}

    fn square_is_not_negative(_a: Scalar) {}

    fn equals_cancel(_a: Scalar, _b: Scalar) {}

    fn infinities_spread(_a: Scalar, _b: Scalar) {}

    fn equals_agree(_a: Scalar, _b: Scalar, _other_a: Scalar, _other_b: Scalar) {}

    fn r_add(a: Scalar, b: Scalar) -> Scalar {
        s(f(a) + f(b))
    }

    fn r_sub(a: Scalar, b: Scalar) -> Scalar {
        s(f(a) - f(b))
    }

    fn r_mul(a: Scalar, b: Scalar) -> Scalar {
        s(f(a) * f(b))
    }

    fn r_div(a: Scalar, b: Scalar) -> Scalar {
        s(f(a) / f(b))
    }

    fn r_sqrt(a: Scalar) -> Scalar {
        s(f(a).sqrt())
    }

    fn r_exp(a: Scalar) -> Scalar {
        s(f(a).exp())
    }

    fn r_ln(a: Scalar) -> Scalar {
        s(f(a).ln())
    }

    fn r_tanh(a: Scalar) -> Scalar {
        s(f(a).tanh())
    }

    fn r_atanh(a: Scalar) -> Scalar {
        s(f(a).atanh())
    }

    fn r_cos(a: Scalar) -> Scalar {
        s(f(a).cos())
    }

    fn r_powi(a: Scalar, n: usize) -> Scalar {
        s(f(a).powi(i32::try_from(n).unwrap_or(i32::MAX)))
    }

    fn r_count(n: usize) -> Scalar {
        s(n as f64)
    }

    fn r_ceil(a: Scalar) -> u64 {
        f(a).ceil() as u64
    }

    fn r_uniform_closed(rng: &mut StdRng, low: Scalar, high: Scalar) -> Scalar {
        s(rng.gen_range(f(low)..=f(high)))
    }

    fn r_uniform_open(rng: &mut StdRng, low: Scalar, high: Scalar) -> Scalar {
        s(rng.gen_range(f(low)..f(high)))
    }
}

type Cpu = CpuLinAlg<F64>;

fn cpu() -> Cpu {
    CpuLinAlg::new(F64)
}

fn make_rng() -> StdRng {
    StdRng::seed_from_u64(42)
}

fn default_config() -> MlpCriticConfig {
    MlpCriticConfig {
        input_size: 27,
        hidden_layers: vec![LayerDef {
            size: 36,
            activation: Activation::Tanh,
        }],
        output_activation: Activation::Linear,
        lr: s(0.005),
    }
}

// forward tests

#[test]
fn test_forward_returns_finite_scalar() {
    let mut rng = make_rng();
    let critic: MlpCritic<Cpu> =
        MlpCritic::new(cpu(), default_config(), &mut rng).unwrap();
    let input = sv(&[0.0; 27]);
    let v = critic.forward(&input);
    assert!(v.is_finite(), "forward output {v:?} is not finite");
}

#[test]
fn test_forward_different_inputs_give_different_outputs() {
    let mut rng = make_rng();
    let critic: MlpCritic<Cpu> =
        MlpCritic::new(cpu(), default_config(), &mut rng).unwrap();
    let a = critic.forward(&sv(&[0.0; 27]));
    let mut input_b = sv(&[0.0; 27]);
    input_b[0] = s(1.0);
    input_b[5] = s(-1.0);
    let b = critic.forward(&input_b);
    assert!(
        (f(a) - f(b)).abs() > 1e-12,
        "Different inputs should give different outputs: {a:?} vs {b:?}"
    );
}

#[test]
fn test_forward_deep_topology_returns_finite() {
    let mut rng = make_rng();
    let config = MlpCriticConfig {
        input_size: 27,
        hidden_layers: vec![
            LayerDef {
                size: 36,
                activation: Activation::Tanh,
            },
            LayerDef {
                size: 18,
                activation: Activation::Tanh,
            },
        ],
        output_activation: Activation::Linear,
        lr: s(0.005),
    };
    let critic: MlpCritic<Cpu> = MlpCritic::new(cpu(), config, &mut rng).unwrap();
    let v = critic.forward(&sv(&[0.5; 27]));
    assert!(v.is_finite(), "Deep topology output {v:?} is not finite");
}

#[test]
fn test_forward_extreme_input_still_finite() {
    let mut rng = make_rng();
    let critic: MlpCritic<Cpu> =
        MlpCritic::new(cpu(), default_config(), &mut rng).unwrap();
    let input: Vec<Scalar> = (0..27)
        .map(|i| if i % 2 == 0 { s(1e6) } else { s(-1e6) })
        .collect();
    let v = critic.forward(&input);
    assert!(v.is_finite(), "Extreme input output {v:?} is not finite");
}


// update tests

#[test]
fn test_update_loss_decreases_over_30_iterations() {
    let mut rng = make_rng();
    let mut critic: MlpCritic<Cpu> =
        MlpCritic::new(cpu(), default_config(), &mut rng).unwrap();
    let input = sv(&[0.1; 27]);
    let target = s(0.5);
    let initial_loss = critic.update(&input, target);
    let mut final_loss = initial_loss;
    for _ in 0..29 {
        final_loss = critic.update(&input, target);
    }
    assert!(
        f(final_loss) < f(initial_loss),
        "Loss should decrease: initial={initial_loss:?}, final={final_loss:?}"
    );
}

#[test]
fn test_update_returns_finite_nonneg_loss() {
    let mut rng = make_rng();
    let mut critic: MlpCritic<Cpu> =
        MlpCritic::new(cpu(), default_config(), &mut rng).unwrap();
    let loss = critic.update(&sv(&[0.0; 27]), s(1.0));
    assert!(loss.is_finite(), "Loss {loss:?} is not finite");
    assert!(f(loss) >= 0.0, "Loss {loss:?} is negative");
}

#[test]
fn test_update_changes_weights() {
    let mut rng = make_rng();
    let mut critic: MlpCritic<Cpu> =
        MlpCritic::new(cpu(), default_config(), &mut rng).unwrap();
    let w_before = critic.layers[0].weights.get(0, 0);
    let _ = critic.update(&sv(&[0.1; 27]), s(1.0));
    let w_after = critic.layers[0].weights.get(0, 0);
    assert!(
        (f(w_before) - f(w_after)).abs() > 1e-15,
        "Weights should change after update"
    );
}

#[test]
fn test_update_clips_weights() {
    let mut rng = make_rng();
    let mut critic: MlpCritic<Cpu> =
        MlpCritic::new(cpu(), default_config(), &mut rng).unwrap();
    // Extreme update to force clipping
    for _ in 0..100 {
        let _ = critic.update(&sv(&[10.0; 27]), s(1e6));
    }
    for layer in &critic.layers {
        for r in 0..layer.weights.rows {
            for c in 0..layer.weights.cols {
                let w = f(layer.weights.get(r, c));
                assert!(
                    w.abs() <= f(lit(WEIGHT_CLIP)) + 1e-12,
                    "Weight {w} exceeds WEIGHT_CLIP"
                );
            }
        }
    }
}

// weights round trip

#[test]
fn test_serde_roundtrip_preserves_weights() {
    let mut rng = make_rng();
    let critic: MlpCritic<Cpu> =
        MlpCritic::new(cpu(), default_config(), &mut rng).unwrap();
    let input = sv(&[0.3; 27]);
    let original_output = critic.forward(&input);

    let weights = critic.to_weights();
    let restored: MlpCritic<Cpu> =
        MlpCritic::from_weights(cpu(), default_config(), weights).unwrap();
    let restored_output = restored.forward(&input);

    assert!(
        (f(original_output) - f(restored_output)).abs() < 1e-12,
        "Serde roundtrip changed output: {original_output:?} vs {restored_output:?}"
    );
}

#[test]
fn test_forward_with_hidden_returns_value_and_states() {
    let mut rng = make_rng();
    let critic: MlpCritic<Cpu> =
        MlpCritic::new(cpu(), default_config(), &mut rng).unwrap();
    let input = sv(&[0.3; 27]);
    let (value, hidden_states) = critic.forward_with_hidden(&input);

    assert!(value.is_finite(), "value not finite: {value:?}");
    // 1 hidden layer → 1 entry in hidden_states
    assert_eq!(hidden_states.len(), 1);
    // Hidden layer has 36 neurons
    assert_eq!(hidden_states[0].len(), 36);
}

#[test]
fn test_forward_with_hidden_matches_forward() {
    let mut rng = make_rng();
    let critic: MlpCritic<Cpu> =
        MlpCritic::new(cpu(), default_config(), &mut rng).unwrap();
    let input = sv(&[0.3; 27]);
    let value_plain = critic.forward(&input);
    let (value_hidden, _) = critic.forward_with_hidden(&input);

    assert!(
        (f(value_plain) - f(value_hidden)).abs() < 1e-12,
        "forward and forward_with_hidden should return same value: {value_plain:?} vs {value_hidden:?}"
    );
}

#[test]
fn test_forward_with_hidden_two_layers() {
    let config = MlpCriticConfig {
        input_size: 27,
        hidden_layers: vec![
            LayerDef {
                size: 36,
                activation: Activation::Tanh,
            },
            LayerDef {
                size: 24,
                activation: Activation::Tanh,
            },
        ],
        output_activation: Activation::Linear,
        lr: s(0.005),
    };
    let mut rng = make_rng();
    let critic: MlpCritic<Cpu> = MlpCritic::new(cpu(), config, &mut rng).unwrap();
    let input = sv(&[0.3; 27]);
    let (value, hidden_states) = critic.forward_with_hidden(&input);

    assert!(value.is_finite());
    assert_eq!(hidden_states.len(), 2);
    assert_eq!(hidden_states[0].len(), 36);
    assert_eq!(hidden_states[1].len(), 24);
}

// from_weights dimension validation tests

/// Helper: build valid MlpCriticWeights from a config.
fn valid_weights_for(config: &MlpCriticConfig) -> MlpCriticWeights {
    let mut rng = make_rng();
    let critic =
        MlpCritic::<Cpu>::new(cpu(), config.clone(), &mut rng).unwrap();
    critic.to_weights()
}

#[test]
fn mlp_critic_test_from_weights_valid_returns_ok() {
    let config = default_config();
    let weights = valid_weights_for(&config);
    let result = MlpCritic::<Cpu>::from_weights(cpu(), config, weights);
    assert!(result.is_ok());
}

#[test]
fn mlp_critic_test_from_weights_wrong_weight_rows_returns_err() {
    let config = default_config(); // input=27, hidden=[36], output=1
    let mut weights = valid_weights_for(&config);
    // Layer 0 should be 36x27; corrupt rows to 20x27
    weights.layers[0].weights = Matrix::zeros(20, 27);
    weights.layers[0].bias = sv(&[0.0; 20]);
    let result = MlpCritic::<Cpu>::from_weights(cpu(), config, weights);
    assert!(result.is_err());
    let err = result.err().unwrap();
    assert!(
        matches!(err, PcError::DimensionMismatch { .. }),
        "Expected DimensionMismatch, got: {err:?}"
    );
}

#[test]
fn mlp_critic_test_from_weights_wrong_weight_cols_returns_err() {
    let config = default_config(); // layer 0 should be 36x27
    let mut weights = valid_weights_for(&config);
    weights.layers[0].weights = Matrix::zeros(36, 10); // wrong cols
    let result = MlpCritic::<Cpu>::from_weights(cpu(), config, weights);
    assert!(result.is_err());
    let err = result.err().unwrap();
    assert!(
        matches!(err, PcError::DimensionMismatch { .. }),
        "Expected DimensionMismatch, got: {err:?}"
    );
}

#[test]
fn mlp_critic_test_from_weights_wrong_bias_length_returns_err() {
    let config = default_config(); // layer 0 bias should be len 36
    let mut weights = valid_weights_for(&config);
    weights.layers[0].bias = sv(&[0.0; 5]);
    let result = MlpCritic::<Cpu>::from_weights(cpu(), config, weights);
    assert!(result.is_err());
    let err = result.err().unwrap();
    assert!(
        matches!(err, PcError::DimensionMismatch { .. }),
        "Expected DimensionMismatch, got: {err:?}"
    );
}

#[test]
fn mlp_critic_test_from_weights_wrong_output_layer_dims_returns_err() {
    let config = default_config(); // output layer should be 1x36
    let mut weights = valid_weights_for(&config);
    let last = weights.layers.len() - 1;
    weights.layers[last].weights = Matrix::zeros(1, 10); // wrong cols
    let result = MlpCritic::<Cpu>::from_weights(cpu(), config, weights);
    assert!(result.is_err());
}

#[test]
fn test_qcritic_forward_finite_scalar() {
    let mut rng = StdRng::seed_from_u64(42);
    let cfg = QCriticConfig {
        state_dim: 3,
        action_dim: 1,
        hidden_layers: vec![LayerDef { size: 16, activation: Activation::Tanh }],
        lr: s(0.001),
    };
    let q: QCritic<Cpu> = QCritic::new(cpu(), cfg, &mut rng).unwrap();
    let v = q.forward(&sv(&[0.1, 0.2, 0.3]), &sv(&[0.5]));
    assert!(v.is_finite());
}

#[test]
fn test_qcritic_update_loss_decreases() {
    let mut rng = StdRng::seed_from_u64(42);
    let cfg = QCriticConfig {
        state_dim: 3,
        action_dim: 1,
        hidden_layers: vec![LayerDef { size: 16, activation: Activation::Tanh }],
        lr: s(0.01),
    };
    let mut q: QCritic<Cpu> = QCritic::new(cpu(), cfg, &mut rng).unwrap();
    let state = sv(&[0.1, 0.2, 0.3]);
    let a = sv(&[0.5]);
    let target = s(1.0);
    let l0 = q.update(&state, &a, target);
    let mut lf = l0;
    for _ in 0..29 {
        lf = q.update(&state, &a, target);
    }
    assert!(f(lf) < f(l0), "Q loss should decrease: {l0:?} -> {lf:?}");
}

#[test]
fn test_qcritic_zero_action_dim_rejected() {
    let mut rng = StdRng::seed_from_u64(42);
    let cfg = QCriticConfig {
        state_dim: 3,
        action_dim: 0,
        hidden_layers: vec![],
        lr: s(0.001),
    };
    assert!(QCritic::<Cpu>::new(cpu(), cfg, &mut rng).is_err());
}

#[test]
fn test_qcritic_weights_roundtrip() {
    let mut rng = StdRng::seed_from_u64(42);
    let cfg = QCriticConfig {
        state_dim: 3,
        action_dim: 1,
        hidden_layers: vec![LayerDef { size: 16, activation: Activation::Tanh }],
        lr: s(0.001),
    };
    let q: QCritic<Cpu> = QCritic::new(cpu(), cfg.clone(), &mut rng).unwrap();
    let before = q.forward(&sv(&[0.1, 0.2, 0.3]), &sv(&[0.5]));
    let w = q.to_weights();
    let q2: QCritic<Cpu> = QCritic::from_weights(cpu(), cfg, w).unwrap();
    let after = q2.forward(&sv(&[0.1, 0.2, 0.3]), &sv(&[0.5]));
    assert!((f(before) - f(after)).abs() < 1e-12);
}

#[test]
fn losses_are_not_negative_and_responses_have_the_size_of_their_layer() {
    let mut rng = make_rng();
    let config = MlpCriticConfig {
        input_size: 2,
        hidden_layers: vec![
            LayerDef { size: 5, activation: Activation::Tanh },
            LayerDef { size: 3, activation: Activation::Relu },
        ],
        output_activation: Activation::Linear,
        lr: s(0.01),
    };
    let mut critic: MlpCritic<Cpu> = MlpCritic::new(cpu(), config, &mut rng).unwrap();
    let input = sv(&[0.5, -0.5]);
    let (value, hidden) = critic.forward_with_hidden(&input);
    assert_eq!(hidden.iter().map(|h| h.len()).collect::<Vec<usize>>(), [5, 3]);
    for target in [-3.0, 0.0, 7.5] {
        assert!(f(critic.update(&input, s(target))) >= 0.0);
    }
    let mut same: MlpCritic<Cpu> =
        MlpCritic::from_weights(cpu(), critic.config.clone(), critic.to_weights()).unwrap();
    let (now, _) = same.forward_with_hidden(&input);
    assert_eq!(f(same.update(&input, now)), 0.0);
    assert_ne!(f(now), f(value));
}
