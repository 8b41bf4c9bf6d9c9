//! Inference, learning and copying of the actor.

use pc_rl_continuos::arith::Arith;
use pc_rl_continuos::layer::LayerDef;
use pc_rl_continuos::matrix::{Matrix, WEIGHT_CLIP};
use pc_rl_continuos::pc_actor::{PcActor, PcActorConfig};
use pc_rl_continuos::scalar::{lit, Scalar};
use pc_rl_continuos::serializer::PcActorWeights;
use pc_rl_continuos::{Activation, CpuLinAlg, LinAlg, PcError};
use rand::rngs::StdRng;
use rand::{Rng, SeedableRng};

/// Double-precision arithmetic.
#[derive(Clone, Copy, Debug)]
struct F64;

fn s(x: f64) -> Scalar {
    lit(x.to_bits())
}

fn f(x: Scalar) -> f64 {
    f64::from_bits(x.bits)
}

#[allow(dead_code)]
fn sv(xs: &[f64]) -> Vec<Scalar> {
    xs.iter().map(|x| s(*x)).collect()
}

#[allow(dead_code)]
fn fv(xs: &[Scalar]) -> Vec<f64> {
    xs.iter().map(|x| f(*x)).collect()
}

impl Arith for F64 {
    // Facts of double precision, with nothing to run.
    fn zero_is_neutral(_a: Scalar, _b: Scalar) {}

    fn zero_absorbs(_a: Scalar, _b: Scalar) {}

    fn square_is_not_negative(_a: Scalar) {}

    fn equals_cancel(_a: Scalar, _b: Scalar) {}

    fn infinities_spread(_a: Scalar, _b: Scalar) {}

    fn equals_agree(_a: Scalar, _b: Scalar, _other_a: Scalar, _other_b: Scalar) {}

    fn r_add(a: Scalar, b: Scalar) -> Scalar {
        s(f(a) + f(b))
    }

    fn r_sub(a: Scalar, b: Scalar) -> Scalar {
        s(f(a) - f(b))
    }

    fn r_mul(a: Scalar, b: Scalar) -> Scalar {
        s(f(a) * f(b))
    }

    fn r_div(a: Scalar, b: Scalar) -> Scalar {
        s(f(a) / f(b))
    }

    fn r_sqrt(a: Scalar) -> Scalar {
        s(f(a).sqrt())
    }

    fn r_exp(a: Scalar) -> Scalar {
        s(f(a).exp())
    }

    fn r_ln(a: Scalar) -> Scalar {
        s(f(a).ln())
    }

    fn r_tanh(a: Scalar) -> Scalar {
        s(f(a).tanh())
    }

    fn r_atanh(a: Scalar) -> Scalar {
        s(f(a).atanh())
    }

    fn r_cos(a: Scalar) -> Scalar {
        s(f(a).cos())
    }

    fn r_powi(a: Scalar, n: usize) -> Scalar {
        s(f(a).powi(i32::try_from(n).unwrap_or(i32::MAX)))
    }

    fn r_count(n: usize) -> Scalar {
        s(n as f64)
    }

    fn r_ceil(a: Scalar) -> u64 {
        f(a).ceil() as u64
    }

    fn r_uniform_closed(rng: &mut StdRng, low: Scalar, high: Scalar) -> Scalar {
        s(rng.gen_range(f(low)..=f(high)))
    }

    fn r_uniform_open(rng: &mut StdRng, low: Scalar, high: Scalar) -> Scalar {
        s(rng.gen_range(f(low)..f(high)))
    }
}

type Cpu = CpuLinAlg<F64>;

fn cpu() -> Cpu {
    CpuLinAlg::new(F64)
}

fn make_rng() -> StdRng {
    StdRng::seed_from_u64(42)
}

fn default_config() -> PcActorConfig {
    PcActorConfig {
        input_size: 9,
        hidden_layers: vec![LayerDef {
            size: 18,
            activation: Activation::Tanh,
        }],
        output_size: 9,
        output_activation: Activation::Tanh,
        alpha: s(0.1),
        tol: s(0.01),
        min_steps: 1,
        max_steps: 20,
        lr_weights: s(0.01),
        synchronous: true,
        temperature: s(1.0),
        local_lambda: s(1.0),
        residual: false,
        rezero_init: s(0.001),
    }
}

fn two_hidden_config() -> PcActorConfig {
    PcActorConfig {
        hidden_layers: vec![
            LayerDef {
                size: 18,
                activation: Activation::Tanh,
            },
            LayerDef {
                size: 12,
                activation: Activation::Tanh,
            },
        ],
        ..default_config()
    }
}

// Inference Tests

#[test]
fn test_infer_converges_on_zero_board() {
    let mut rng = make_rng();
    let actor: PcActor<Cpu> = PcActor::new(cpu(), default_config(), &mut rng).unwrap();
    let result = actor.infer(&sv(&[0.0; 9]));
    // Should complete without panic; all finite
    for &v in &result.y_conv {
        assert!(v.is_finite());
    }
}

#[test]
fn test_infer_steps_used_at_least_min_steps() {
    let mut rng = make_rng();
    let config = PcActorConfig {
        min_steps: 3,
        ..default_config()
    };
    let actor: PcActor<Cpu> = PcActor::new(cpu(), config, &mut rng).unwrap();
    let result = actor.infer(&sv(&[0.0; 9]));
    assert!(result.steps_used >= 3);
}

#[test]
fn test_infer_alpha_zero_does_not_converge() {
    let mut rng = make_rng();
    let config = PcActorConfig {
        alpha: s(0.0),
        ..default_config()
    };
    let actor: PcActor<Cpu> = PcActor::new(cpu(), config, &mut rng).unwrap();
    let result = actor.infer(&sv(&[0.0; 9]));
    assert!(!result.converged);
    assert_eq!(result.steps_used, 20);
}

#[test]
fn test_infer_does_not_modify_weights() {
    let mut rng = make_rng();
    let actor: PcActor<Cpu> = PcActor::new(cpu(), default_config(), &mut rng).unwrap();
    let weights_before: Vec<Vec<Vec<Scalar>>> = actor
        .layers
        .iter()
        .map(|l| l.weights.data.clone())
        .collect();
    let _ = actor.infer(&sv(&[0.0; 9]));
    for (i, layer) in actor.layers.iter().enumerate() {
        assert_eq!(layer.weights.data, weights_before[i]);
    }
}

#[test]
fn test_infer_latent_size_single_hidden() {
    let mut rng = make_rng();
    let actor: PcActor<Cpu> = PcActor::new(cpu(), default_config(), &mut rng).unwrap();
    let result = actor.infer(&sv(&[0.0; 9]));
    assert_eq!(result.latent_concat.len(), 18);
}

#[test]
fn test_infer_latent_size_two_hidden() {
    let mut rng = make_rng();
    let actor: PcActor<Cpu> = PcActor::new(cpu(), two_hidden_config(), &mut rng).unwrap();
    let result = actor.infer(&sv(&[0.0; 9]));
    assert_eq!(result.latent_concat.len(), 30);
}

#[test]
fn test_infer_latent_size_matches_latent_size_method() {
    let mut rng = make_rng();
    let actor: PcActor<Cpu> = PcActor::new(cpu(), two_hidden_config(), &mut rng).unwrap();
    let result = actor.infer(&sv(&[0.0; 9]));
    assert_eq!(result.latent_concat.len(), actor.latent_size());
}

#[test]
fn test_infer_y_conv_length_equals_output_size() {
    let mut rng = make_rng();
    let actor: PcActor<Cpu> = PcActor::new(cpu(), default_config(), &mut rng).unwrap();
    let result = actor.infer(&sv(&[0.0; 9]));
    assert_eq!(result.y_conv.len(), 9);
}

#[test]
fn test_infer_hidden_states_count_matches_hidden_layers() {
    let mut rng = make_rng();
    let actor: PcActor<Cpu> = PcActor::new(cpu(), two_hidden_config(), &mut rng).unwrap();
    let result = actor.infer(&sv(&[0.0; 9]));
    assert_eq!(result.hidden_states.len(), 2);
}

#[test]
fn test_infer_all_outputs_finite() {
    let mut rng = make_rng();
    let actor: PcActor<Cpu> = PcActor::new(cpu(), default_config(), &mut rng).unwrap();
    let result = actor.infer(&sv(&[1.0, -1.0, 0.5, -0.5, 0.0, 1.0, -1.0, 0.5, -0.5]));
    for &v in &result.y_conv {
        assert!(v.is_finite());
    }
    for &v in &result.latent_concat {
        assert!(v.is_finite());
    }
    assert!(result.surprise_score.is_finite());
}

#[test]
fn test_infer_surprise_score_nonnegative() {
    let mut rng = make_rng();
    let actor: PcActor<Cpu> = PcActor::new(cpu(), default_config(), &mut rng).unwrap();
    let result = actor.infer(&sv(&[0.0; 9]));
    assert!(f(result.surprise_score) >= 0.0);
}

#[test]
fn test_infer_synchronous_and_inplace_both_converge() {
    let mut rng = make_rng();
    let sync_actor: PcActor<Cpu> =
        PcActor::new(cpu(), default_config(), &mut rng).unwrap();
    let mut rng2 = make_rng();
    let inplace_config = PcActorConfig {
        synchronous: false,
        ..default_config()
    };
    let inplace_actor: PcActor<Cpu> =
        PcActor::new(cpu(), inplace_config, &mut rng2).unwrap();
    let sync_result = sync_actor.infer(&sv(&[0.0; 9]));
    let inplace_result = inplace_actor.infer(&sv(&[0.0; 9]));
    // Both should complete without panic; at least one should converge or use all steps
    assert!(sync_result.steps_used > 0);
    assert!(inplace_result.steps_used > 0);
}

#[test]
fn test_infer_synchronous_produces_different_result_than_inplace() {
    let mut rng = make_rng();
    let config = PcActorConfig {
        hidden_layers: vec![
            LayerDef {
                size: 18,
                activation: Activation::Tanh,
            },
            LayerDef {
                size: 12,
                activation: Activation::Tanh,
            },
        ],
        alpha: s(0.3),
        tol: s(1e-15),
        min_steps: 1,
        max_steps: 3,
        ..default_config()
    };
    let sync_actor: PcActor<Cpu> = PcActor::new(cpu(), config.clone(), &mut rng).unwrap();
    let mut rng2 = make_rng();
    let inplace_config = PcActorConfig {
        synchronous: false,
        ..config
    };
    let inplace_actor: PcActor<Cpu> =
        PcActor::new(cpu(), inplace_config, &mut rng2).unwrap();
    let input = sv(&[1.0, -1.0, 0.5, -0.5, 0.0, 1.0, -1.0, 0.5, -0.5]);
    let sync_result = sync_actor.infer(&input);
    let inplace_result = inplace_actor.infer(&input);
    // Different update orders should produce different hidden representations
    let differs = sync_result
        .latent_concat
        .iter()
        .zip(inplace_result.latent_concat.iter())
        .any(|(a, b)| (f(*a) - f(*b)).abs() > 1e-12);
    assert!(
        differs,
        "Synchronous and in-place should produce different results"
    );
}


// Weight Update Tests

#[test]
fn test_update_weights_changes_first_layer() {
    let mut rng = make_rng();
    let mut actor: PcActor<Cpu> =
        PcActor::new(cpu(), default_config(), &mut rng).unwrap();
    let input = sv(&[1.0, -1.0, 0.5, -0.5, 0.0, 1.0, -1.0, 0.5, -0.5]);
    let infer_result = actor.infer(&input);
    let weights_before = actor.layers[0].weights.data.clone();
    let delta = sv(&[0.1; 9]);
    actor.update_weights(&delta, &infer_result, &input, s(1.0), &[]);
    assert_ne!(actor.layers[0].weights.data, weights_before);
}

#[test]
fn test_update_weights_clips_all_layers() {
    let mut rng = make_rng();
    let mut actor: PcActor<Cpu> =
        PcActor::new(cpu(), default_config(), &mut rng).unwrap();
    let input = sv(&[1.0; 9]);
    let infer_result = actor.infer(&input);
    let delta = sv(&[1e6; 9]);
    actor.update_weights(&delta, &infer_result, &input, s(1.0), &[]);
    for layer in &actor.layers {
        for w in layer.weights.data.iter().flatten().map(|w| f(*w)) {
            assert!(
                w.abs() <= f(lit(WEIGHT_CLIP)) + 1e-12,
                "Weight {w} exceeds WEIGHT_CLIP"
            );
        }
    }
}

#[test]
fn test_update_weights_two_hidden_changes_both_layers() {
    let mut rng = make_rng();
    let mut actor: PcActor<Cpu> =
        PcActor::new(cpu(), two_hidden_config(), &mut rng).unwrap();
    let input = sv(&[0.5; 9]);
    let infer_result = actor.infer(&input);
    let w0_before = actor.layers[0].weights.data.clone();
    let w1_before = actor.layers[1].weights.data.clone();
    let delta = sv(&[0.1; 9]);
    actor.update_weights(&delta, &infer_result, &input, s(1.0), &[]);
    assert_ne!(
        actor.layers[0].weights.data, w0_before,
        "Layer 0 should change"
    );
    assert_ne!(
        actor.layers[1].weights.data, w1_before,
        "Layer 1 should change"
    );
}


// Zero Hidden Layers Test

#[test]
fn test_infer_zero_hidden_layers_produces_finite_output() {
    let mut rng = make_rng();
    let config = PcActorConfig {
        hidden_layers: vec![],
        ..default_config()
    };
    let actor: PcActor<Cpu> = PcActor::new(cpu(), config, &mut rng).unwrap();
    let result = actor.infer(&sv(&[0.5; 9]));
    assert_eq!(result.y_conv.len(), 9);
    assert!(result.y_conv.iter().all(|v| v.is_finite()));
    assert!(result.latent_concat.is_empty());
    assert!(result.hidden_states.is_empty());
}

// Config Validation Tests

#[test]
fn test_new_zero_input_size_returns_error() {
    let mut rng = make_rng();
    let config = PcActorConfig {
        input_size: 0,
        ..default_config()
    };
    let result: Result<PcActor<Cpu>, _> = PcActor::new(cpu(), config, &mut rng);
    assert!(result.is_err());
    let err = result.err().unwrap();
    assert!(matches!(err, PcError::ConfigValidation(_)));
}

#[test]
fn test_new_zero_output_size_returns_error() {
    let mut rng = make_rng();
    let config = PcActorConfig {
        output_size: 0,
        ..default_config()
    };
    let result: Result<PcActor<Cpu>, _> = PcActor::new(cpu(), config, &mut rng);
    assert!(result.is_err());
}

#[test]
fn test_new_zero_temperature_returns_error() {
    let mut rng = make_rng();
    let config = PcActorConfig {
        temperature: s(0.0),
        ..default_config()
    };
    let result: Result<PcActor<Cpu>, _> = PcActor::new(cpu(), config, &mut rng);
    assert!(result.is_err());
}

#[test]
fn test_new_negative_temperature_returns_error() {
    let mut rng = make_rng();
    let config = PcActorConfig {
        temperature: s(-1.0),
        ..default_config()
    };
    let result: Result<PcActor<Cpu>, _> = PcActor::new(cpu(), config, &mut rng);
    assert!(result.is_err());
}

// Residual / ReZero Config Tests

#[test]
fn test_default_config_residual_false() {
    let config = default_config();
    assert!(!config.residual);
}

#[test]
fn test_default_config_rezero_init() {
    let config = default_config();
    assert!((f(config.rezero_init) - 0.001).abs() < 1e-12);
}

#[test]
fn test_new_negative_rezero_init_returns_error() {
    let mut rng = make_rng();
    let config = PcActorConfig {
        residual: true,
        rezero_init: s(-0.1),
        ..default_config()
    };
    let result: Result<PcActor<Cpu>, _> = PcActor::new(cpu(), config, &mut rng);
    assert!(result.is_err());
}

#[test]
fn test_residual_mixed_sizes_accepted() {
    let mut rng = make_rng();
    let config = PcActorConfig {
        residual: true,
        hidden_layers: vec![
            LayerDef {
                size: 27,
                activation: Activation::Tanh,
            },
            LayerDef {
                size: 18,
                activation: Activation::Tanh,
            },
        ],
        ..default_config()
    };
    let result: Result<PcActor<Cpu>, _> = PcActor::new(cpu(), config, &mut rng);
    assert!(result.is_ok());
}

#[test]
fn test_residual_mixed_sizes_all_skip() {
    // [27, 27, 18]: ALL layers i>=1 get skip — identity for 27→27, projection for 27→18
    let mut rng = make_rng();
    let config = PcActorConfig {
        residual: true,
        hidden_layers: vec![
            LayerDef {
                size: 27,
                activation: Activation::Tanh,
            },
            LayerDef {
                size: 27,
                activation: Activation::Tanh,
            },
            LayerDef {
                size: 18,
                activation: Activation::Tanh,
            },
        ],
        ..default_config()
    };
    let actor: PcActor<Cpu> = PcActor::new(cpu(), config, &mut rng).unwrap();
    // 2 skips: layer 1 (identity) + layer 2 (projection)
    assert_eq!(actor.rezero_alpha.len(), 2);
}

#[test]
fn test_residual_heterogeneous_has_projection() {
    // [27, 18]: different sizes → projection matrix created
    let mut rng = make_rng();
    let config = PcActorConfig {
        residual: true,
        hidden_layers: vec![
            LayerDef {
                size: 27,
                activation: Activation::Tanh,
            },
            LayerDef {
                size: 18,
                activation: Activation::Tanh,
            },
        ],
        ..default_config()
    };
    let actor: PcActor<Cpu> = PcActor::new(cpu(), config, &mut rng).unwrap();
    assert_eq!(actor.rezero_alpha.len(), 1);
    assert_eq!(actor.skip_projections.len(), 1);
    assert!(actor.skip_projections[0].is_some());
    let proj = actor.skip_projections[0].as_ref().unwrap();
    assert_eq!(proj.rows, 18); // output dim
    assert_eq!(proj.cols, 27); // input dim
}

#[test]
fn test_residual_homogeneous_no_projection() {
    // [27, 27]: same sizes → no projection needed
    let mut rng = make_rng();
    let actor: PcActor<Cpu> =
        PcActor::new(cpu(), residual_two_hidden_config(), &mut rng).unwrap();
    assert_eq!(actor.skip_projections.len(), 1);
    assert!(actor.skip_projections[0].is_none());
}

#[test]
fn test_residual_mixed_sizes_infer_finite() {
    let mut rng = make_rng();
    let config = PcActorConfig {
        residual: true,
        hidden_layers: vec![
            LayerDef {
                size: 27,
                activation: Activation::Tanh,
            },
            LayerDef {
                size: 27,
                activation: Activation::Tanh,
            },
            LayerDef {
                size: 18,
                activation: Activation::Tanh,
            },
        ],
        ..default_config()
    };
    let actor: PcActor<Cpu> = PcActor::new(cpu(), config, &mut rng).unwrap();
    let result = actor.infer(&sv(&[0.5; 9]));
    for &v in &result.y_conv {
        assert!(v.is_finite());
    }
    assert_eq!(result.hidden_states.len(), 3);
    assert_eq!(result.latent_concat.len(), 27 + 27 + 18);
}

#[test]
fn test_residual_same_size_hidden_layers_accepted() {
    let mut rng = make_rng();
    let config = PcActorConfig {
        residual: true,
        hidden_layers: vec![
            LayerDef {
                size: 27,
                activation: Activation::Tanh,
            },
            LayerDef {
                size: 27,
                activation: Activation::Tanh,
            },
        ],
        ..default_config()
    };
    let result: Result<PcActor<Cpu>, _> = PcActor::new(cpu(), config, &mut rng);
    assert!(result.is_ok());
}

fn residual_two_hidden_config() -> PcActorConfig {
    PcActorConfig {
        residual: true,
        hidden_layers: vec![
            LayerDef {
                size: 27,
                activation: Activation::Tanh,
            },
            LayerDef {
                size: 27,
                activation: Activation::Tanh,
            },
        ],
        ..default_config()
    }
}

#[test]
fn test_non_residual_actor_empty_rezero_alpha() {
    let mut rng = make_rng();
    let actor: PcActor<Cpu> = PcActor::new(cpu(), default_config(), &mut rng).unwrap();
    assert!(actor.rezero_alpha.is_empty());
}

#[test]
fn test_residual_two_hidden_one_rezero_alpha() {
    let mut rng = make_rng();
    let actor: PcActor<Cpu> =
        PcActor::new(cpu(), residual_two_hidden_config(), &mut rng).unwrap();
    assert_eq!(actor.rezero_alpha.len(), 1);
}

#[test]
fn test_residual_three_hidden_two_rezero_alpha() {
    let mut rng = make_rng();
    let config = PcActorConfig {
        residual: true,
        hidden_layers: vec![
            LayerDef {
                size: 27,
                activation: Activation::Tanh,
            },
            LayerDef {
                size: 27,
                activation: Activation::Tanh,
            },
            LayerDef {
                size: 27,
                activation: Activation::Tanh,
            },
        ],
        ..default_config()
    };
    let actor: PcActor<Cpu> = PcActor::new(cpu(), config, &mut rng).unwrap();
    assert_eq!(actor.rezero_alpha.len(), 2);
}

#[test]
fn test_rezero_alpha_initialized_to_rezero_init() {
    let mut rng = make_rng();
    let config = PcActorConfig {
        rezero_init: s(0.005),
        ..residual_two_hidden_config()
    };
    let actor: PcActor<Cpu> = PcActor::new(cpu(), config, &mut rng).unwrap();
    assert!((f(actor.rezero_alpha[0]) - 0.005).abs() < 1e-12);
}

#[test]
fn test_residual_single_hidden_zero_rezero_alpha() {
    let mut rng = make_rng();
    let config = PcActorConfig {
        residual: true,
        ..default_config()
    };
    let actor: PcActor<Cpu> = PcActor::new(cpu(), config, &mut rng).unwrap();
    assert!(actor.rezero_alpha.is_empty());
}

#[test]
fn test_residual_single_hidden_accepted() {
    let mut rng = make_rng();
    let config = PcActorConfig {
        residual: true,
        ..default_config()
    };
    let result: Result<PcActor<Cpu>, _> = PcActor::new(cpu(), config, &mut rng);
    assert!(result.is_ok());
}

// Residual Inference Tests

#[test]
fn test_residual_false_identical_to_non_residual() {
    let input = sv(&[1.0, -1.0, 0.5, -0.5, 0.0, 1.0, -1.0, 0.5, -0.5]);
    let mut rng1 = make_rng();
    let actor1: PcActor<Cpu> =
        PcActor::new(cpu(), two_hidden_config(), &mut rng1).unwrap();
    let result1 = actor1.infer(&input);

    let mut rng2 = make_rng();
    let config2 = PcActorConfig {
        residual: false,
        ..two_hidden_config()
    };
    let actor2: PcActor<Cpu> = PcActor::new(cpu(), config2, &mut rng2).unwrap();
    let result2 = actor2.infer(&input);

    for (a, b) in result1.y_conv.iter().zip(result2.y_conv.iter()) {
        assert!((f(*a) - f(*b)).abs() < 1e-12);
    }
}

#[test]
fn test_residual_rezero_zero_second_hidden_near_identity() {
    let mut rng = make_rng();
    let config = PcActorConfig {
        rezero_init: s(0.0),
        alpha: s(0.0),
        ..residual_two_hidden_config()
    };
    let actor: PcActor<Cpu> = PcActor::new(cpu(), config, &mut rng).unwrap();
    let result = actor.infer(&sv(&[0.5; 9]));
    let h0 = &result.hidden_states[0];
    let h1 = &result.hidden_states[1];
    for (a, b) in h0.iter().zip(h1.iter()) {
        assert!(
            (f(*a) - f(*b)).abs() < 1e-12,
            "With rezero_init=0, h[1] should equal h[0]"
        );
    }
}

#[test]
fn test_residual_infer_all_outputs_finite() {
    let mut rng = make_rng();
    let actor: PcActor<Cpu> =
        PcActor::new(cpu(), residual_two_hidden_config(), &mut rng).unwrap();
    let result = actor.infer(&sv(&[0.5; 9]));
    for &v in &result.y_conv {
        assert!(v.is_finite());
    }
    for &v in &result.latent_concat {
        assert!(v.is_finite());
    }
    assert!(result.surprise_score.is_finite());
}

#[test]
fn test_residual_latent_concat_size() {
    let mut rng = make_rng();
    let actor: PcActor<Cpu> =
        PcActor::new(cpu(), residual_two_hidden_config(), &mut rng).unwrap();
    let result = actor.infer(&sv(&[0.5; 9]));
    assert_eq!(result.latent_concat.len(), 54); // 27 + 27
}

#[test]
fn test_residual_pc_loop_completes() {
    let mut rng = make_rng();
    let config = PcActorConfig {
        alpha: s(0.03),
        max_steps: 5,
        ..residual_two_hidden_config()
    };
    let actor: PcActor<Cpu> = PcActor::new(cpu(), config, &mut rng).unwrap();
    let result = actor.infer(&sv(&[0.5; 9]));
    assert!(result.steps_used > 0);
    assert!(result.steps_used <= 5);
}

#[test]
fn test_residual_hidden_states_count() {
    let mut rng = make_rng();
    let actor: PcActor<Cpu> =
        PcActor::new(cpu(), residual_two_hidden_config(), &mut rng).unwrap();
    let result = actor.infer(&sv(&[0.5; 9]));
    assert_eq!(result.hidden_states.len(), 2);
}

#[test]
fn test_residual_infer_does_not_modify_weights() {
    let mut rng = make_rng();
    let actor: PcActor<Cpu> =
        PcActor::new(cpu(), residual_two_hidden_config(), &mut rng).unwrap();
    let weights_before: Vec<Vec<Vec<Scalar>>> = actor
        .layers
        .iter()
        .map(|l| l.weights.data.clone())
        .collect();
    let alpha_before = actor.rezero_alpha.clone();
    let _ = actor.infer(&sv(&[0.5; 9]));
    for (i, layer) in actor.layers.iter().enumerate() {
        assert_eq!(layer.weights.data, weights_before[i]);
    }
    assert_eq!(actor.rezero_alpha, alpha_before);
}

#[test]
fn test_residual_three_hidden_infer_finite() {
    let mut rng = make_rng();
    let config = PcActorConfig {
        residual: true,
        hidden_layers: vec![
            LayerDef {
                size: 27,
                activation: Activation::Tanh,
            },
            LayerDef {
                size: 27,
                activation: Activation::Tanh,
            },
            LayerDef {
                size: 27,
                activation: Activation::Tanh,
            },
        ],
        ..default_config()
    };
    let actor: PcActor<Cpu> = PcActor::new(cpu(), config, &mut rng).unwrap();
    let result = actor.infer(&sv(&[0.5; 9]));
    for &v in &result.y_conv {
        assert!(v.is_finite());
    }
}

#[test]
fn test_residual_tanh_components_populated() {
    let mut rng = make_rng();
    let actor: PcActor<Cpu> =
        PcActor::new(cpu(), residual_two_hidden_config(), &mut rng).unwrap();
    let result = actor.infer(&sv(&[0.5; 9]));
    assert_eq!(result.tanh_components.len(), 2);
    assert!(result.tanh_components[0].is_none()); // layer 0: no skip
    assert!(result.tanh_components[1].is_some()); // layer 1: has skip
    assert_eq!(result.tanh_components[1].as_ref().unwrap().len(), 27);
}

#[test]
fn test_residual_pc_prediction_uses_tanh_component_not_full_state() {
    // With rezero_init=1.0, h[1] = tanh_out + h[0] (significantly different
    // from tanh_out alone). If PC prediction uses h[1] instead of tanh_out,
    // the surprise score and convergence will differ.
    // Two runs with same weights: one with alpha=0 (no PC), one with alpha>0.
    // The PC loop should converge meaningfully (surprise decreases).
    let mut rng = make_rng();
    let config = PcActorConfig {
        rezero_init: s(1.0),
        alpha: s(0.1),
        max_steps: 20,
        tol: s(0.001),
        min_steps: 1,
        ..residual_two_hidden_config()
    };
    let actor: PcActor<Cpu> = PcActor::new(cpu(), config, &mut rng).unwrap();
    let result = actor.infer(&sv(&[1.0, -1.0, 0.5, -0.5, 0.0, 1.0, -1.0, 0.5, -0.5]));
    // With proper PC predictions, surprise should be finite and non-negative
    assert!(result.surprise_score.is_finite());
    assert!(f(result.surprise_score) >= 0.0);
    // Prediction errors should all be finite
    for errors in &result.prediction_errors {
        for &e in errors {
            assert!(e.is_finite(), "PC prediction error not finite: {e:?}");
        }
    }
}

// Residual Backward Tests

#[test]
fn test_residual_false_update_identical_to_non_residual() {
    let input = sv(&[1.0, -1.0, 0.5, -0.5, 0.0, 1.0, -1.0, 0.5, -0.5]);
    let delta = sv(&[0.1; 9]);

    let mut rng1 = make_rng();
    let mut actor1: PcActor<Cpu> =
        PcActor::new(cpu(), two_hidden_config(), &mut rng1).unwrap();
    let infer1 = actor1.infer(&input);
    actor1.update_weights(&delta, &infer1, &input, s(1.0), &[]);

    let mut rng2 = make_rng();
    let config2 = PcActorConfig {
        residual: false,
        ..two_hidden_config()
    };
    let mut actor2: PcActor<Cpu> = PcActor::new(cpu(), config2, &mut rng2).unwrap();
    let infer2 = actor2.infer(&input);
    actor2.update_weights(&delta, &infer2, &input, s(1.0), &[]);

    for i in 0..actor1.layers.len() {
        assert_eq!(actor1.layers[i].weights.data, actor2.layers[i].weights.data);
    }
}

#[test]
fn test_residual_update_changes_all_layer_weights() {
    let mut rng = make_rng();
    let mut actor: PcActor<Cpu> =
        PcActor::new(cpu(), residual_two_hidden_config(), &mut rng).unwrap();
    let input = sv(&[0.5; 9]);
    let infer_result = actor.infer(&input);
    let w0 = actor.layers[0].weights.data.clone();
    let w1 = actor.layers[1].weights.data.clone();
    let w2 = actor.layers[2].weights.data.clone();
    actor.update_weights(&sv(&[0.1; 9]), &infer_result, &input, s(1.0), &[]);
    assert_ne!(actor.layers[0].weights.data, w0, "Layer 0 should change");
    assert_ne!(actor.layers[1].weights.data, w1, "Layer 1 should change");
    assert_ne!(
        actor.layers[2].weights.data, w2,
        "Output layer should change"
    );
}

#[test]
fn test_residual_update_changes_rezero_alpha() {
    let mut rng = make_rng();
    let mut actor: PcActor<Cpu> =
        PcActor::new(cpu(), residual_two_hidden_config(), &mut rng).unwrap();
    let input = sv(&[0.5; 9]);
    let infer_result = actor.infer(&input);
    let alpha_before = actor.rezero_alpha.clone();
    actor.update_weights(&sv(&[0.1; 9]), &infer_result, &input, s(1.0), &[]);
    assert_ne!(
        actor.rezero_alpha, alpha_before,
        "rezero_alpha should be updated by backprop"
    );
}

#[test]
fn test_residual_update_clips_weights() {
    let mut rng = make_rng();
    let mut actor: PcActor<Cpu> =
        PcActor::new(cpu(), residual_two_hidden_config(), &mut rng).unwrap();
    let input = sv(&[1.0; 9]);
    let infer_result = actor.infer(&input);
    actor.update_weights(&sv(&[1e6; 9]), &infer_result, &input, s(1.0), &[]);
    for layer in &actor.layers {
        for w in layer.weights.data.iter().flatten().map(|w| f(*w)) {
            assert!(
                w.abs() <= f(lit(WEIGHT_CLIP)) + 1e-12,
                "Weight {w} exceeds WEIGHT_CLIP"
            );
        }
    }
}

#[test]
fn test_residual_gradient_stronger_than_non_residual() {
    let input = sv(&[1.0, -1.0, 0.5, -0.5, 0.0, 1.0, -1.0, 0.5, -0.5]);
    let delta = sv(&[0.1; 9]);

    // Non-residual 2 hidden layers (27, 27)
    let mut rng1 = make_rng();
    let config1 = PcActorConfig {
        hidden_layers: vec![
            LayerDef {
                size: 27,
                activation: Activation::Tanh,
            },
            LayerDef {
                size: 27,
                activation: Activation::Tanh,
            },
        ],
        ..default_config()
    };
    let mut actor1: PcActor<Cpu> = PcActor::new(cpu(), config1, &mut rng1).unwrap();
    let w0_before1 = actor1.layers[0].weights.data.clone();
    let infer1 = actor1.infer(&input);
    actor1.update_weights(&delta, &infer1, &input, s(1.0), &[]);
    let change1: f64 = actor1.layers[0]
        .weights
        .data
        .iter()
        .flatten()
        .zip(w0_before1.iter().flatten())
        .map(|(a, b)| (f(*a) - f(*b)).abs())
        .sum();

    // Residual 2 hidden layers (27, 27) with rezero_init=1.0
    let mut rng2 = make_rng();
    let config2 = PcActorConfig {
        rezero_init: s(1.0),
        ..residual_two_hidden_config()
    };
    let mut actor2: PcActor<Cpu> = PcActor::new(cpu(), config2, &mut rng2).unwrap();
    let w0_before2 = actor2.layers[0].weights.data.clone();
    let infer2 = actor2.infer(&input);
    actor2.update_weights(&delta, &infer2, &input, s(1.0), &[]);
    let change2: f64 = actor2.layers[0]
        .weights
        .data
        .iter()
        .flatten()
        .zip(w0_before2.iter().flatten())
        .map(|(a, b)| (f(*a) - f(*b)).abs())
        .sum();

    assert!(
        change2 > change1,
        "Residual should propagate stronger gradient to layer 0: residual={change2:.6}, non-residual={change1:.6}"
    );
}

#[test]
fn test_residual_hybrid_lambda_works() {
    let mut rng = make_rng();
    let config = PcActorConfig {
        local_lambda: s(0.99),
        ..residual_two_hidden_config()
    };
    let mut actor: PcActor<Cpu> = PcActor::new(cpu(), config, &mut rng).unwrap();
    let input = sv(&[0.5; 9]);
    let infer_result = actor.infer(&input);
    let w0_before = actor.layers[0].weights.data.clone();
    actor.update_weights(&sv(&[0.1; 9]), &infer_result, &input, s(1.0), &[]);
    assert_ne!(actor.layers[0].weights.data, w0_before);
}

fn local_learning_config() -> PcActorConfig {
    PcActorConfig {
        local_lambda: s(0.0),
        ..default_config()
    }
}

#[test]
fn test_infer_prediction_errors_count_matches_hidden_layers() {
    let mut rng = make_rng();
    let actor: PcActor<Cpu> = PcActor::new(cpu(), default_config(), &mut rng).unwrap();
    let result = actor.infer(&sv(&[0.0; 9]));
    assert_eq!(result.prediction_errors.len(), 1);
}

#[test]
fn test_infer_prediction_errors_two_hidden() {
    let mut rng = make_rng();
    let actor: PcActor<Cpu> = PcActor::new(cpu(), two_hidden_config(), &mut rng).unwrap();
    let result = actor.infer(&sv(&[0.0; 9]));
    assert_eq!(result.prediction_errors.len(), 2);
}

#[test]
fn test_infer_prediction_errors_zero_hidden_is_empty() {
    let mut rng = make_rng();
    let config = PcActorConfig {
        hidden_layers: vec![],
        ..default_config()
    };
    let actor: PcActor<Cpu> = PcActor::new(cpu(), config, &mut rng).unwrap();
    let result = actor.infer(&sv(&[0.5; 9]));
    assert!(result.prediction_errors.is_empty());
}

#[test]
fn test_infer_prediction_errors_all_finite() {
    let mut rng = make_rng();
    let actor: PcActor<Cpu> = PcActor::new(cpu(), default_config(), &mut rng).unwrap();
    let result = actor.infer(&sv(&[1.0, -1.0, 0.5, -0.5, 0.0, 1.0, -1.0, 0.5, -0.5]));
    for errors in &result.prediction_errors {
        for &e in errors {
            assert!(e.is_finite(), "prediction error not finite: {e:?}");
        }
    }
}

#[test]
fn test_infer_prediction_errors_size_matches_hidden_layer_size() {
    let mut rng = make_rng();
    let actor: PcActor<Cpu> = PcActor::new(cpu(), default_config(), &mut rng).unwrap();
    let result = actor.infer(&sv(&[0.0; 9]));
    // default_config has one hidden layer of size 18
    assert_eq!(result.prediction_errors[0].len(), 18);
}

#[test]
fn test_local_learning_config_accepted() {
    let mut rng = make_rng();
    let config = local_learning_config();
    assert!(f(config.local_lambda).abs() < f64::EPSILON);
    let actor: Result<PcActor<Cpu>, _> = PcActor::new(cpu(), config, &mut rng);
    assert!(actor.is_ok());
}

#[test]
fn test_local_learning_update_changes_weights() {
    let mut rng = make_rng();
    let mut actor: PcActor<Cpu> =
        PcActor::new(cpu(), local_learning_config(), &mut rng).unwrap();
    let input = sv(&[1.0, -1.0, 0.5, -0.5, 0.0, 1.0, -1.0, 0.5, -0.5]);
    let infer_result = actor.infer(&input);
    let weights_before = actor.layers[0].weights.data.clone();
    let delta = sv(&[0.1; 9]);
    actor.update_weights(&delta, &infer_result, &input, s(1.0), &[]);
    assert_ne!(actor.layers[0].weights.data, weights_before);
}

#[test]
fn test_local_learning_clips_weights() {
    let mut rng = make_rng();
    let mut actor: PcActor<Cpu> =
        PcActor::new(cpu(), local_learning_config(), &mut rng).unwrap();
    let input = sv(&[1.0; 9]);
    let infer_result = actor.infer(&input);
    let delta = sv(&[1e6; 9]);
    actor.update_weights(&delta, &infer_result, &input, s(1.0), &[]);
    for layer in &actor.layers {
        for w in layer.weights.data.iter().flatten().map(|w| f(*w)) {
            assert!(
                w.abs() <= f(lit(WEIGHT_CLIP)) + 1e-12,
                "Weight {w} exceeds WEIGHT_CLIP"
            );
        }
    }
}

#[test]
fn test_local_learning_two_hidden_changes_both() {
    let mut rng = make_rng();
    let config = PcActorConfig {
        local_lambda: s(0.0),
        ..two_hidden_config()
    };
    let mut actor: PcActor<Cpu> = PcActor::new(cpu(), config, &mut rng).unwrap();
    let input = sv(&[0.5; 9]);
    let infer_result = actor.infer(&input);
    let w0_before = actor.layers[0].weights.data.clone();
    let w1_before = actor.layers[1].weights.data.clone();
    let delta = sv(&[0.1; 9]);
    actor.update_weights(&delta, &infer_result, &input, s(1.0), &[]);
    assert_ne!(
        actor.layers[0].weights.data, w0_before,
        "Layer 0 should change"
    );
    assert_ne!(
        actor.layers[1].weights.data, w1_before,
        "Layer 1 should change"
    );
}

#[test]
fn test_local_learning_differs_from_backprop() {
    let input = sv(&[1.0, -1.0, 0.5, -0.5, 0.0, 1.0, -1.0, 0.5, -0.5]);
    let delta = sv(&[0.1; 9]);

    // Backprop actor
    let mut rng1 = make_rng();
    let mut bp_actor: PcActor<Cpu> =
        PcActor::new(cpu(), default_config(), &mut rng1).unwrap();
    let bp_infer = bp_actor.infer(&input);
    bp_actor.update_weights(&delta, &bp_infer, &input, s(1.0), &[]);

    // Local learning actor (same initial weights)
    let mut rng2 = make_rng();
    let mut ll_actor: PcActor<Cpu> =
        PcActor::new(cpu(), local_learning_config(), &mut rng2).unwrap();
    let ll_infer = ll_actor.infer(&input);
    ll_actor.update_weights(&delta, &ll_infer, &input, s(1.0), &[]);

    // Hidden layer weights should differ between the two approaches
    assert_ne!(
        bp_actor.layers[0].weights.data, ll_actor.layers[0].weights.data,
        "Local learning should produce different weight updates than backprop"
    );
}

// Hybrid Learning (local_lambda) Tests

fn hybrid_config(lambda: f64) -> PcActorConfig {
    PcActorConfig {
        local_lambda: s(lambda),
        ..default_config()
    }
}

#[test]
fn test_local_lambda_one_equals_backprop() {
    let input = sv(&[1.0, -1.0, 0.5, -0.5, 0.0, 1.0, -1.0, 0.5, -0.5]);
    let delta = sv(&[0.1; 9]);

    // Pure backprop
    let mut rng1 = make_rng();
    let mut bp_actor: PcActor<Cpu> =
        PcActor::new(cpu(), default_config(), &mut rng1).unwrap();
    let bp_infer = bp_actor.infer(&input);
    bp_actor.update_weights(&delta, &bp_infer, &input, s(1.0), &[]);

    // lambda=1.0 should be identical to backprop
    let mut rng2 = make_rng();
    let mut lam_actor: PcActor<Cpu> =
        PcActor::new(cpu(), hybrid_config(1.0), &mut rng2).unwrap();
    let lam_infer = lam_actor.infer(&input);
    lam_actor.update_weights(&delta, &lam_infer, &input, s(1.0), &[]);

    assert_eq!(
        bp_actor.layers[0].weights.data, lam_actor.layers[0].weights.data,
        "lambda=1.0 should produce identical weights to pure backprop"
    );
}

#[test]
fn test_local_lambda_zero_equals_local_learning() {
    let input = sv(&[1.0, -1.0, 0.5, -0.5, 0.0, 1.0, -1.0, 0.5, -0.5]);
    let delta = sv(&[0.1; 9]);

    // Pure local
    let mut rng1 = make_rng();
    let mut ll_actor: PcActor<Cpu> =
        PcActor::new(cpu(), local_learning_config(), &mut rng1).unwrap();
    let ll_infer = ll_actor.infer(&input);
    ll_actor.update_weights(&delta, &ll_infer, &input, s(1.0), &[]);

    // lambda=0.0 should be identical to pure local
    let mut rng2 = make_rng();
    let mut lam_actor: PcActor<Cpu> =
        PcActor::new(cpu(), hybrid_config(0.0), &mut rng2).unwrap();
    let lam_infer = lam_actor.infer(&input);
    lam_actor.update_weights(&delta, &lam_infer, &input, s(1.0), &[]);

    assert_eq!(
        ll_actor.layers[0].weights.data, lam_actor.layers[0].weights.data,
        "lambda=0.0 should produce identical weights to pure local learning"
    );
}

#[test]
fn test_local_lambda_half_differs_from_both_pure_modes() {
    let input = sv(&[1.0, -1.0, 0.5, -0.5, 0.0, 1.0, -1.0, 0.5, -0.5]);
    let delta = sv(&[0.1; 9]);

    // Pure backprop
    let mut rng1 = make_rng();
    let mut bp_actor: PcActor<Cpu> =
        PcActor::new(cpu(), default_config(), &mut rng1).unwrap();
    let bp_infer = bp_actor.infer(&input);
    bp_actor.update_weights(&delta, &bp_infer, &input, s(1.0), &[]);

    // Pure local
    let mut rng2 = make_rng();
    let mut ll_actor: PcActor<Cpu> =
        PcActor::new(cpu(), local_learning_config(), &mut rng2).unwrap();
    let ll_infer = ll_actor.infer(&input);
    ll_actor.update_weights(&delta, &ll_infer, &input, s(1.0), &[]);

    // Hybrid lambda=0.5
    let mut rng3 = make_rng();
    let mut hy_actor: PcActor<Cpu> =
        PcActor::new(cpu(), hybrid_config(0.5), &mut rng3).unwrap();
    let hy_infer = hy_actor.infer(&input);
    hy_actor.update_weights(&delta, &hy_infer, &input, s(1.0), &[]);

    assert_ne!(
        hy_actor.layers[0].weights.data, bp_actor.layers[0].weights.data,
        "lambda=0.5 should differ from pure backprop"
    );
    assert_ne!(
        hy_actor.layers[0].weights.data, ll_actor.layers[0].weights.data,
        "lambda=0.5 should differ from pure local"
    );
}

#[test]
fn test_local_lambda_changes_weights() {
    let mut rng = make_rng();
    let mut actor: PcActor<Cpu> =
        PcActor::new(cpu(), hybrid_config(0.5), &mut rng).unwrap();
    let input = sv(&[1.0, -1.0, 0.5, -0.5, 0.0, 1.0, -1.0, 0.5, -0.5]);
    let infer_result = actor.infer(&input);
    let weights_before = actor.layers[0].weights.data.clone();
    let delta = sv(&[0.1; 9]);
    actor.update_weights(&delta, &infer_result, &input, s(1.0), &[]);
    assert_ne!(actor.layers[0].weights.data, weights_before);
}

#[test]
fn test_local_lambda_clips_weights() {
    let mut rng = make_rng();
    let mut actor: PcActor<Cpu> =
        PcActor::new(cpu(), hybrid_config(0.5), &mut rng).unwrap();
    let input = sv(&[1.0; 9]);
    let infer_result = actor.infer(&input);
    let delta = sv(&[1e6; 9]);
    actor.update_weights(&delta, &infer_result, &input, s(1.0), &[]);
    for layer in &actor.layers {
        for w in layer.weights.data.iter().flatten().map(|w| f(*w)) {
            assert!(
                w.abs() <= f(lit(WEIGHT_CLIP)) + 1e-12,
                "Weight {w} exceeds WEIGHT_CLIP"
            );
        }
    }
}

#[test]
fn test_local_lambda_negative_returns_error() {
    let mut rng = make_rng();
    let config = hybrid_config(-0.1);
    let result: Result<PcActor<Cpu>, _> = PcActor::new(cpu(), config, &mut rng);
    assert!(result.is_err());
}

#[test]
fn test_local_lambda_above_one_returns_error() {
    let mut rng = make_rng();
    let config = hybrid_config(1.1);
    let result: Result<PcActor<Cpu>, _> = PcActor::new(cpu(), config, &mut rng);
    assert!(result.is_err());
}

// from_weights dimension validation tests

/// Helper: build valid PcActorWeights from a config by constructing
/// an actor and extracting its weights.
fn valid_weights_for(config: &PcActorConfig) -> PcActorWeights {
    let mut rng = make_rng();
    let actor = PcActor::<Cpu>::new(cpu(), config.clone(), &mut rng).unwrap();
    actor.to_weights()
}

#[test]
fn pc_actor_test_from_weights_valid_returns_ok() {
    let config = default_config();
    let weights = valid_weights_for(&config);
    let result = PcActor::<Cpu>::from_weights(cpu(), config, weights);
    assert!(result.is_ok());
}

#[test]
fn pc_actor_test_from_weights_wrong_weight_rows_returns_err() {
    let config = default_config(); // input=9, hidden=[18], output=9
    let mut weights = valid_weights_for(&config);
    // Layer 0 should be 18x9; corrupt rows to 10x9
    weights.layers[0].weights = Matrix::zeros(10, 9);
    weights.layers[0].bias = sv(&[0.0; 10]);
    let result = PcActor::<Cpu>::from_weights(cpu(), config, weights);
    assert!(result.is_err());
    let err = result.err().unwrap();
    assert!(
        matches!(err, PcError::DimensionMismatch { .. }),
        "Expected DimensionMismatch, got: {err:?}"
    );
}

#[test]
fn pc_actor_test_from_weights_wrong_weight_cols_returns_err() {
    let config = default_config(); // input=9, hidden=[18], output=9
    let mut weights = valid_weights_for(&config);
    // Layer 0 should be 18x9; corrupt cols to 18x5
    weights.layers[0].weights = Matrix::zeros(18, 5);
    let result = PcActor::<Cpu>::from_weights(cpu(), config, weights);
    assert!(result.is_err());
    let err = result.err().unwrap();
    assert!(
        matches!(err, PcError::DimensionMismatch { .. }),
        "Expected DimensionMismatch, got: {err:?}"
    );
}

#[test]
fn pc_actor_test_from_weights_wrong_bias_length_returns_err() {
    let config = default_config(); // hidden=[18], so layer 0 bias should be len 18
    let mut weights = valid_weights_for(&config);
    weights.layers[0].bias = sv(&[0.0; 5]); // wrong length
    let result = PcActor::<Cpu>::from_weights(cpu(), config, weights);
    assert!(result.is_err());
    let err = result.err().unwrap();
    assert!(
        matches!(err, PcError::DimensionMismatch { .. }),
        "Expected DimensionMismatch, got: {err:?}"
    );
}

#[test]
fn pc_actor_test_from_weights_wrong_output_layer_dims_returns_err() {
    let config = default_config(); // output layer should be 9x18
    let mut weights = valid_weights_for(&config);
    let last = weights.layers.len() - 1;
    weights.layers[last].weights = Matrix::zeros(9, 10); // wrong cols
    let result = PcActor::<Cpu>::from_weights(cpu(), config, weights);
    assert!(result.is_err());
}

#[test]
fn test_from_weights_wrong_rezero_alpha_count_returns_err() {
    let mut config = default_config();
    config.hidden_layers = vec![
        LayerDef {
            size: 18,
            activation: Activation::Tanh,
        },
        LayerDef {
            size: 18,
            activation: Activation::Tanh,
        },
    ];
    config.residual = true;
    let mut weights = valid_weights_for(&config);
    // residual with 2 hidden layers expects 1 rezero_alpha; give 0
    weights.rezero_alpha = vec![];
    let result = PcActor::<Cpu>::from_weights(cpu(), config, weights);
    assert!(result.is_err());
    let err = result.err().unwrap();
    assert!(
        matches!(err, PcError::DimensionMismatch { .. }),
        "Expected DimensionMismatch, got: {err:?}"
    );
}

#[test]
fn test_from_weights_wrong_skip_projection_dims_returns_err() {
    // Skip projection dimensions (rows/cols) should be validated
    let mut config = default_config();
    config.hidden_layers = vec![
        LayerDef {
            size: 27,
            activation: Activation::Softsign,
        },
        LayerDef {
            size: 18,
            activation: Activation::Softsign,
        },
    ];
    config.residual = true;
    let mut weights = valid_weights_for(&config);
    // Skip projection should be 18x27; corrupt to 10x5
    weights.skip_projections[0] = Some(Matrix::zeros(10, 5));
    let result = PcActor::<Cpu>::from_weights(cpu(), config, weights);
    assert!(result.is_err());
    let err = result.err().unwrap();
    assert!(
        matches!(err, PcError::DimensionMismatch { .. }),
        "Expected DimensionMismatch, got: {err:?}"
    );
}

#[test]
fn test_from_weights_wrong_skip_projections_count_returns_err() {
    let mut config = default_config();
    config.hidden_layers = vec![
        LayerDef {
            size: 18,
            activation: Activation::Tanh,
        },
        LayerDef {
            size: 18,
            activation: Activation::Tanh,
        },
    ];
    config.residual = true;
    let mut weights = valid_weights_for(&config);
    // Should have 1 skip_projection; give 3
    weights.skip_projections = vec![None, None, None];
    let result = PcActor::<Cpu>::from_weights(cpu(), config, weights);
    assert!(result.is_err());
    let err = result.err().unwrap();
    assert!(
        matches!(err, PcError::DimensionMismatch { .. }),
        "Expected DimensionMismatch, got: {err:?}"
    );
}

// Polyak Update Tests

/// Helper: creates two actors with the same config but different seeds.
fn make_two_actors(config: &PcActorConfig) -> (PcActor<Cpu>, PcActor<Cpu>) {
    let mut rng_a = StdRng::seed_from_u64(42);
    let mut rng_b = StdRng::seed_from_u64(99);
    let a = PcActor::new(cpu(), config.clone(), &mut rng_a).unwrap();
    let b = PcActor::new(cpu(), config.clone(), &mut rng_b).unwrap();
    (a, b)
}

/// Helper: collects all weight and bias values from an actor into a flat vector.
fn snapshot_weights(actor: &PcActor<Cpu>) -> Vec<f64> {
    let b = &actor.backend;
    let mut vals = Vec::new();
    for layer in &actor.layers {
        let rows = b.mat_rows(&layer.weights);
        let cols = b.mat_cols(&layer.weights);
        for r in 0..rows {
            for c in 0..cols {
                vals.push(f(b.mat_get(&layer.weights, r, c)));
            }
        }
        let len = b.vec_len(&layer.bias);
        for i in 0..len {
            vals.push(f(b.vec_get(&layer.bias, i)));
        }
    }
    for &alpha in &actor.rezero_alpha {
        vals.push(f(alpha));
    }
    for m in actor.skip_projections.iter().flatten() {
        let rows = b.mat_rows(m);
        let cols = b.mat_cols(m);
        for r in 0..rows {
            for c in 0..cols {
                vals.push(f(b.mat_get(m, r, c)));
            }
        }
    }
    vals
}

#[test]
fn test_polyak_update_tau_zero_no_change() {
    let (mut delayed, other) = make_two_actors(&default_config());
    let before = snapshot_weights(&delayed);
    delayed.polyak_update_from(&other, s(0.0)).unwrap();
    let after = snapshot_weights(&delayed);
    assert_eq!(before, after, "tau=0 must leave weights unchanged");
}

#[test]
fn test_polyak_update_tau_one_full_copy() {
    let (mut delayed, other) = make_two_actors(&default_config());
    delayed.polyak_update_from(&other, s(1.0)).unwrap();
    let delayed_snap = snapshot_weights(&delayed);
    let other_snap = snapshot_weights(&other);
    assert_eq!(
        delayed_snap, other_snap,
        "tau=1 must produce weights identical to other"
    );
}

#[test]
fn test_polyak_update_partial_interpolation() {
    let config = default_config();
    let (mut delayed, other) = make_two_actors(&config);
    let before = snapshot_weights(&delayed);
    let other_snap = snapshot_weights(&other);
    let tau = 0.5;
    delayed.polyak_update_from(&other, s(tau)).unwrap();
    let after = snapshot_weights(&delayed);
    for (i, (&a, (&b, &o))) in after
        .iter()
        .zip(before.iter().zip(other_snap.iter()))
        .enumerate()
    {
        let expected = tau * o + (1.0 - tau) * b;
        assert!(
            (a - expected).abs() < 1e-12,
            "tau=0.5 mismatch at index {i}: got {a}, expected {expected}"
        );
    }
}

#[test]
fn test_polyak_update_rejects_topology_mismatch() {
    let (mut actor_a, _) = make_two_actors(&default_config());
    let mut rng = StdRng::seed_from_u64(77);
    let actor_b = PcActor::new(cpu(), two_hidden_config(), &mut rng).unwrap();
    let result = actor_a.polyak_update_from(&actor_b, s(0.5));
    assert!(result.is_err());
    assert!(
        matches!(result.err().unwrap(), PcError::DimensionMismatch { .. }),
        "Expected DimensionMismatch for topology mismatch"
    );
}

#[test]
fn test_copy_weights_from_exact() {
    let (mut delayed, other) = make_two_actors(&default_config());
    delayed.copy_weights_from(&other).unwrap();
    let delayed_snap = snapshot_weights(&delayed);
    let other_snap = snapshot_weights(&other);
    assert_eq!(
        delayed_snap, other_snap,
        "copy_weights_from must produce byte-exact equality"
    );
}

#[test]
fn test_copy_weights_from_rejects_topology_mismatch() {
    let (mut actor_a, _) = make_two_actors(&default_config());
    let mut rng = StdRng::seed_from_u64(77);
    let actor_b = PcActor::new(cpu(), two_hidden_config(), &mut rng).unwrap();
    let result = actor_a.copy_weights_from(&actor_b);
    assert!(result.is_err());
    assert!(
        matches!(result.err().unwrap(), PcError::DimensionMismatch { .. }),
        "Expected DimensionMismatch for topology mismatch"
    );
}

fn residual_hetero_config() -> PcActorConfig {
    PcActorConfig {
        residual: true,
        hidden_layers: vec![
            LayerDef {
                size: 18,
                activation: Activation::Softsign,
            },
            LayerDef {
                size: 12,
                activation: Activation::Softsign,
            },
        ],
        ..default_config()
    }
}

/// Drifts all layer weights, biases, rezero alphas, and skip projections
/// by a fixed offset to create a measurable difference between actors.
fn drift_actor_weights(actor: &mut PcActor<Cpu>, offset: f64) {
    let b = cpu();
    for layer in &mut actor.layers {
        let rows = b.mat_rows(&layer.weights);
        let cols = b.mat_cols(&layer.weights);
        for r in 0..rows {
            for c in 0..cols {
                let v = b.mat_get(&layer.weights, r, c);
                b.mat_set(&mut layer.weights, r, c, s(f(v) + offset));
            }
        }
        let len = b.vec_len(&layer.bias);
        for i in 0..len {
            let v = b.vec_get(&layer.bias, i);
            b.vec_set(&mut layer.bias, i, s(f(v) + offset));
        }
    }
    for alpha in &mut actor.rezero_alpha {
        *alpha = s(f(*alpha) + offset);
    }
    for m in actor.skip_projections.iter_mut().flatten() {
        let rows = b.mat_rows(m);
        let cols = b.mat_cols(m);
        for r in 0..rows {
            for c in 0..cols {
                let v = b.mat_get(m, r, c);
                b.mat_set(m, r, c, s(f(v) + offset));
            }
        }
    }
}

#[test]
fn test_polyak_update_with_residual_actors() {
    let config = residual_hetero_config();
    let (mut target, mut source) = make_two_actors(&config);

    // Verify skip projections are allocated (heterogeneous sizes)
    assert_eq!(target.skip_projections.len(), 1);
    assert!(target.skip_projections[0].is_some());

    // Drift source weights so target and source differ measurably
    drift_actor_weights(&mut source, 1.0);

    let before = snapshot_weights(&target);
    let source_snap = snapshot_weights(&source);
    let tau = 0.5;

    target.polyak_update_from(&source, s(tau)).unwrap();

    let after = snapshot_weights(&target);
    // snapshot_weights includes layers, rezero_alpha, AND skip_projections
    assert_eq!(before.len(), after.len(), "snapshot length must not change");
    for (i, (&a, (&b, &o))) in after
        .iter()
        .zip(before.iter().zip(source_snap.iter()))
        .enumerate()
    {
        let expected = tau * o + (1.0 - tau) * b;
        assert!(
            (a - expected).abs() < 1e-12,
            "residual polyak mismatch at index {i}: got {a}, expected {expected}"
        );
    }
}

#[test]
fn test_copy_weights_from_with_residual_actors() {
    let config = residual_hetero_config();
    let (mut target, mut source) = make_two_actors(&config);

    // Verify skip projections are allocated (heterogeneous sizes)
    assert_eq!(target.skip_projections.len(), 1);
    assert!(target.skip_projections[0].is_some());

    // Drift source weights so target and source differ
    drift_actor_weights(&mut source, 1.0);

    target.copy_weights_from(&source).unwrap();

    let target_snap = snapshot_weights(&target);
    let source_snap = snapshot_weights(&source);
    assert_eq!(
        target_snap, source_snap,
        "copy_weights_from must produce byte-exact equality for residual actors"
    );
}

#[test]
fn actors_with_biases_of_different_length_exchange_nothing() {
    let build = || -> PcActor<Cpu> {
        PcActor::new(cpu(), default_config(), &mut make_rng()).unwrap()
    };
    let mut a = build();
    let mut b = build();
    b.layers[0].bias.push(s(0.0));
    assert!(matches!(
        a.polyak_update_from(&b, s(0.5)),
        Err(PcError::DimensionMismatch {
            expected: 18,
            got: 19,
            context: "polyak actor hidden layer bias"
        })
    ));
    let mut c = build();
    c.layers[1].bias.push(s(0.0));
    assert!(matches!(
        a.copy_weights_from(&c),
        Err(PcError::DimensionMismatch {
            expected: 9,
            got: 10,
            context: "polyak actor output layer bias"
        })
    ));
}

#[test]
fn without_alpha_the_actor_is_a_feed_forward_network() {
    let build = |max_steps: usize| -> PcActor<Cpu> {
        let config = PcActorConfig { alpha: s(0.0), max_steps, ..two_hidden_config() };
        PcActor::new(cpu(), config, &mut make_rng()).unwrap()
    };
    let input = sv(&[0.5, -0.25, 1.0, 0.75, -1.0, 0.125, 0.5, -0.5, 0.25]);
    let plain = build(0).infer(&input);
    let rested = build(20).infer(&input);
    assert_eq!(rested.steps_used, 20);
    assert_eq!(rested.y_conv, plain.y_conv);
    assert_eq!(rested.latent_concat, plain.latent_concat);
    assert_eq!(rested.hidden_states, plain.hidden_states);
}
