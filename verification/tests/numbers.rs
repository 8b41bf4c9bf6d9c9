//! Numbers, vectors, layers and the actor's learning rules.

use pc_rl_continuos::arith::Arith;
use pc_rl_continuos::layer::{Layer, LayerDef};
use pc_rl_continuos::matrix::Matrix;
use pc_rl_continuos::pc_actor::{PcActor, PcActorConfig};
use pc_rl_continuos::scalar::{lit, Scalar};
use pc_rl_continuos::{Activation, CpuLinAlg, LinAlg};
use rand::rngs::StdRng;
use rand::{Rng, SeedableRng};

/// Double-precision arithmetic.
#[derive(Clone, Copy, Debug)]
struct F64;

fn s(x: f64) -> Scalar {
    lit(x.to_bits())
}

fn f(x: Scalar) -> f64 {
    f64::from_bits(x.bits)
}

#[allow(dead_code)]
fn sv(xs: &[f64]) -> Vec<Scalar> {
    xs.iter().map(|x| s(*x)).collect()
}

#[allow(dead_code)]
fn fv(xs: &[Scalar]) -> Vec<f64> {
    xs.iter().map(|x| f(*x)).collect()
}

impl Arith for F64 {
    // Facts of double precision, with nothing to run.
    fn zero_is_neutral(_a: Scalar, _b: Scalar) {}

    fn zero_absorbs(_a: Scalar, _b: Scalar) {}

    fn square_is_not_negative(_a: Scalar) {}

    fn equals_cancel(_a: Scalar, _b: Scalar) {}

    fn infinities_spread(_a: Scalar, _b: Scalar) {}

    fn equals_agree(_a: Scalar, _b: Scalar, _other_a: Scalar, _other_b: Scalar) {}

    fn r_add(a: Scalar, b: Scalar) -> Scalar {
        s(f(a) + f(b))
    }

    fn r_sub(a: Scalar, b: Scalar) -> Scalar {
        s(f(a) - f(b))
    }

    fn r_mul(a: Scalar, b: Scalar) -> Scalar {
        s(f(a) * f(b))
    }

    fn r_div(a: Scalar, b: Scalar) -> Scalar {
        s(f(a) / f(b))
    }

    fn r_sqrt(a: Scalar) -> Scalar {
        s(f(a).sqrt())
    }

    fn r_exp(a: Scalar) -> Scalar {
        s(f(a).exp())
    }

    fn r_ln(a: Scalar) -> Scalar {
        s(f(a).ln())
    }

    fn r_tanh(a: Scalar) -> Scalar {
        s(f(a).tanh())
    }

    fn r_atanh(a: Scalar) -> Scalar {
        s(f(a).atanh())
    }

    fn r_cos(a: Scalar) -> Scalar {
        s(f(a).cos())
    }

    fn r_powi(a: Scalar, n: usize) -> Scalar {
        s(f(a).powi(i32::try_from(n).unwrap_or(i32::MAX)))
    }

    fn r_count(n: usize) -> Scalar {
        s(n as f64)
    }

    fn r_ceil(a: Scalar) -> u64 {
        f(a).ceil() as u64
    }

    fn r_uniform_closed(rng: &mut StdRng, low: Scalar, high: Scalar) -> Scalar {
        s(rng.gen_range(f(low)..=f(high)))
    }

    fn r_uniform_open(rng: &mut StdRng, low: Scalar, high: Scalar) -> Scalar {
        s(rng.gen_range(f(low)..f(high)))
    }
}

type Cpu = CpuLinAlg<F64>;

fn cpu() -> Cpu {
    CpuLinAlg::new(F64)
}

const SAMPLES: [f64; 11] = [
    0.0,
    -0.0,
    1.0,
    -1.0,
    0.5,
    -2.5,
    1e300,
    5e-324,
    f64::INFINITY,
    f64::NEG_INFINITY,
    f64::NAN,
];

fn close(a: f64, b: f64) -> bool {
    (a - b).abs() < 1e-12
}

#[test]
fn order_agrees_with_double_precision() {
    for a in SAMPLES {
        for b in SAMPLES {
            assert_eq!(s(a).lt(s(b)), a < b, "{a} < {b}");
            assert_eq!(s(a).le(s(b)), a <= b, "{a} <= {b}");
            assert_eq!(s(a).num_eq(s(b)), a == b, "{a} == {b}");
        }
        assert_eq!(s(a).is_nan(), a.is_nan());
        assert_eq!(s(a).is_finite(), a.is_finite());
        assert_eq!(s(a).abs().bits, a.abs().to_bits());
        assert_eq!(s(a).neg().bits, (-a).to_bits());
    }
}

#[test]
fn extremes_agree_with_double_precision() {
    for a in SAMPLES {
        for b in SAMPLES {
            let (x, y) = (f(s(a).max(s(b))), a.max(b));
            assert!(x == y || (x.is_nan() && y.is_nan()));
            let (x, y) = (f(s(a).min(s(b))), a.min(b));
            assert!(x == y || (x.is_nan() && y.is_nan()));
        }
        let (x, y) = (f(s(a).clamp(s(-1.0), s(1.0))), a.clamp(-1.0, 1.0));
        assert!(x == y || (x.is_nan() && y.is_nan()));
        assert_eq!(s(a).within(s(-1.0), s(1.0)), (-1.0..=1.0).contains(&a));
    }
}

#[test]
fn activations_and_their_slopes() {
    let value = |a: Activation, x: f64| f(a.apply::<F64>(s(x)));
    let slope = |a: Activation, y: f64| f(a.derivative::<F64>(s(y)));
    assert_eq!(value(Activation::Tanh, 0.5), 0.5f64.tanh());
    assert_eq!(value(Activation::Relu, -1.0), 0.0);
    assert_eq!(value(Activation::Relu, 2.0), 2.0);
    assert_eq!(value(Activation::Sigmoid, 0.0), 0.5);
    assert!(close(value(Activation::Elu, -1.0), (-1.0f64).exp() - 1.0));
    assert_eq!(value(Activation::Softsign, -1.0), -0.5);
    assert_eq!(value(Activation::Linear, 7.0), 7.0);
    assert_eq!(slope(Activation::Tanh, 0.5), 0.75);
    assert_eq!(slope(Activation::Relu, 0.0), 0.0);
    assert_eq!(slope(Activation::Sigmoid, 0.5), 0.25);
    assert_eq!(slope(Activation::Elu, -0.5), 0.5);
    assert_eq!(slope(Activation::Softsign, -0.5), 0.25);
    assert_eq!(slope(Activation::Linear, 7.0), 1.0);
}

fn matrix(rows: usize, cols: usize, entries: &[f64]) -> Matrix {
    let mut m = Matrix::zeros(rows, cols);
    for r in 0..rows {
        for c in 0..cols {
            m.set(r, c, s(entries[r * cols + c]));
        }
    }
    m
}

fn entries(m: &Matrix) -> Vec<f64> {
    m.data.iter().flatten().map(|x| f(*x)).collect()
}

#[test]
fn vectors_in_host_memory() {
    let b = cpu();
    let x = sv(&[1.0, -2.0, 3.0]);
    let y = sv(&[0.5, 0.5, -1.0]);
    assert_eq!(fv(&b.vec_add(&x, &y)), vec![1.5, -1.5, 2.0]);
    assert_eq!(fv(&b.vec_sub(&x, &y)), vec![0.5, -2.5, 4.0]);
    assert_eq!(fv(&b.vec_scale(&x, s(2.0))), vec![2.0, -4.0, 6.0]);
    assert_eq!(fv(&b.vec_hadamard(&x, &y)), vec![0.5, -1.0, -3.0]);
    assert_eq!(f(b.vec_dot(&x, &y)), -3.5);
    let mut z = x.clone();
    b.clip_vec(&mut z, s(1.5));
    assert_eq!(fv(&z), vec![1.0, -1.5, 1.5]);
    assert_eq!(f(b.rms_error(&vec![sv(&[3.0]), sv(&[4.0])])), 12.5f64.sqrt());
    assert_eq!(f(b.rms_error(&vec![])), 0.0);
}

#[test]
fn matrices_in_host_memory() {
    let b = cpu();
    let m = matrix(2, 3, &[1.0, 2.0, 3.0, 4.0, 5.0, 6.0]);
    assert_eq!(fv(&b.mat_vec_mul(&m, &sv(&[1.0, 0.0, -1.0]))), vec![-2.0, -2.0]);
    assert_eq!(entries(&b.mat_transpose(&m)), vec![1.0, 4.0, 2.0, 5.0, 3.0, 6.0]);
    let o = b.outer_product(&sv(&[1.0, 2.0]), &sv(&[3.0, 4.0, 5.0]));
    assert_eq!(entries(&o), vec![3.0, 4.0, 5.0, 6.0, 8.0, 10.0]);
    let mut n = m.clone();
    b.mat_scale_add(&mut n, &o, s(0.5));
    assert_eq!(entries(&n), vec![2.5, 4.0, 5.5, 7.0, 9.0, 11.0]);
}

#[test]
fn fresh_weights_lie_within_the_bound() {
    let b = cpu();
    let m = b.xavier_mat(4, 2, &mut StdRng::seed_from_u64(3));
    let again = b.xavier_mat(4, 2, &mut StdRng::seed_from_u64(3));
    assert_eq!(entries(&m), entries(&again));
    assert!(entries(&m).iter().all(|w| w.abs() <= 1.0));
    assert!(entries(&m).iter().any(|w| *w != entries(&m)[0]));
}

#[test]
fn a_layer_responds_and_descends() {
    let mut layer = Layer {
        weights: matrix(1, 2, &[0.5, -1.0]),
        bias: sv(&[0.25]),
        activation: Activation::Linear,
        backend: cpu(),
    };
    let x = sv(&[2.0, 1.0]);
    let y = layer.forward(&x);
    assert_eq!(fv(&y), vec![0.25]);
    assert_eq!(fv(&layer.transpose_forward(&sv(&[2.0]), Activation::Linear)), vec![1.0, -2.0]);
    assert_eq!(fv(&layer.input_gradient(&y, &sv(&[9.0]))), vec![4.5, -9.0]);
    let below = layer.backward(&x, &y, &sv(&[9.0]), s(0.1), s(2.0));
    // The gradient is clipped to five, and flows through the old weights.
    assert_eq!(fv(&below), vec![2.5, -5.0]);
    assert!(close(f(layer.weights.get(0, 0)), 0.5 - 0.2 * 10.0));
    assert!(close(f(layer.weights.get(0, 1)), -1.0 - 0.2 * 5.0));
    assert!(close(f(layer.bias[0]), 0.25 - 0.2 * 5.0));
    layer.backward(&x, &y, &sv(&[9.0]), s(10.0), s(1.0));
    assert_eq!(f(layer.weights.get(0, 0)), -5.0);
}

fn small_actor(local_lambda: f64) -> PcActor<Cpu> {
    let config = PcActorConfig {
        input_size: 2,
        hidden_layers: vec![
            LayerDef { size: 3, activation: Activation::Tanh },
            LayerDef { size: 3, activation: Activation::Tanh },
        ],
        output_size: 1,
        output_activation: Activation::Linear,
        alpha: s(0.1),
        tol: s(1e-9),
        min_steps: 1,
        max_steps: 4,
        lr_weights: s(0.1),
        synchronous: true,
        temperature: s(1.0),
        local_lambda: s(local_lambda),
        residual: true,
        rezero_init: s(0.5),
    };
    PcActor::new(cpu(), config, &mut StdRng::seed_from_u64(8)).unwrap()
}

fn taught(local_lambda: f64, delta: f64, decay: &[f64], errors: Option<f64>) -> PcActor<Cpu> {
    let mut actor = small_actor(local_lambda);
    let x = sv(&[0.3, -0.6]);
    let mut infer = actor.infer(&x);
    if let Some(e) = errors {
        for v in infer.prediction_errors.iter_mut() {
            *v = sv(&[e; 3]);
        }
    }
    actor.update_weights(&sv(&[delta]), &infer, &x, s(1.0), &sv(decay));
    actor
}

#[test]
fn local_learning_ignores_the_output_signal() {
    let (a, b) = (taught(0.0, 0.5, &[], None), taught(0.0, -3.0, &[], None));
    for i in 0..2 {
        assert_eq!(entries(&a.layers[i].weights), entries(&b.layers[i].weights));
    }
    assert_eq!(a.rezero_alpha, b.rezero_alpha);
    assert_ne!(entries(&a.layers[2].weights), entries(&b.layers[2].weights));
}

#[test]
fn backprop_ignores_prediction_errors() {
    let (a, b) = (taught(1.0, 0.5, &[], None), taught(1.0, 0.5, &[], Some(9.0)));
    for i in 0..3 {
        assert_eq!(entries(&a.layers[i].weights), entries(&b.layers[i].weights));
    }
    let c = taught(0.5, 0.5, &[], Some(9.0));
    assert_ne!(entries(&a.layers[0].weights), entries(&c.layers[0].weights));
}

#[test]
fn the_output_layer_neither_decays_nor_blends() {
    let a = taught(1.0, 0.5, &[], None);
    let b = taught(0.25, 0.5, &[0.5, 0.5], Some(2.0));
    assert_eq!(entries(&a.layers[2].weights), entries(&b.layers[2].weights));
    assert_ne!(entries(&a.layers[1].weights), entries(&b.layers[1].weights));
}

#[test]
fn inference_takes_all_steps_unless_it_converges() {
    let actor = small_actor(1.0);
    let r = actor.infer(&sv(&[0.3, -0.6]));
    assert!(!r.converged);
    assert_eq!(r.steps_used, 4);
    let mut loose = small_actor(1.0);
    loose.config.tol = s(1e9);
    loose.config.min_steps = 2;
    let r = loose.infer(&sv(&[0.3, -0.6]));
    assert!(r.converged);
    assert_eq!(r.steps_used, 2);
}
