//! Laws of activations and dense layers.

use vstd::prelude::*;

use crate::activation::Activation;
use crate::laws::learning::lemma_zero_changes_no_number;
use crate::layer::LayerView;
use crate::linalg::{v_mul, v_slope, LinAlg, MatView};
use crate::matrix::{GRAD_CLIP, WEIGHT_CLIP};
use crate::scalar::{lit, Scalar, ONE, ZERO};

verus! {

/// What each activation makes of `x`.
pub proof fn law_activations<L: LinAlg>(act: Activation, x: Scalar)
    ensures
        ({
            let y = act.value::<L>(x);
            match act {
                Activation::Tanh => y == L::tanh(x) && (!x.is_nan() ==> y.within(
                    lit(ONE).neg(),
                    lit(ONE),
                )),
                Activation::Relu => {
                    &&& lit(ZERO).le(y)
                    &&& lit(ZERO).le(x) ==> y.num_eq(x)
                    &&& x.le(lit(ZERO)) || x.is_nan() ==> y == lit(ZERO)
                },
                Activation::Sigmoid => y == L::over(
                    lit(ONE),
                    L::plus(lit(ONE), L::exp(x.neg())),
                ),
                Activation::Elu => {
                    &&& lit(ZERO).lt(x) ==> y == x
                    &&& !lit(ZERO).lt(x) ==> y == L::minus(L::exp(x), lit(ONE))
                },
                Activation::Softsign => y == L::over(x, L::plus(lit(ONE), x.abs())),
                Activation::Linear => y == x,
            }
        }),
{
    L::equals_agree(x, x, x, x);
}

/// The slope of each activation at the point whose activation is `y`.
pub proof fn law_slopes<L: LinAlg>(act: Activation, y: Scalar)
    ensures
        ({
            let slope = act.slope::<L>(y);
            match act {
                Activation::Tanh => slope == L::minus(lit(ONE), L::times(y, y)) && slope.not_above(
                    lit(ONE),
                ),
                Activation::Relu => slope == if lit(ZERO).lt(y) {
                    lit(ONE)
                } else {
                    lit(ZERO)
                },
                Activation::Sigmoid => {
                    &&& slope == L::times(y, L::minus(lit(ONE), y))
                    &&& y.within(lit(ZERO), lit(ONE)) ==> slope.not_below(lit(ZERO))
                },
                Activation::Elu => slope == if lit(ZERO).lt(y) {
                    lit(ONE)
                } else {
                    L::plus(y, lit(ONE))
                },
                Activation::Softsign => {
                    let gap = L::minus(lit(ONE), y.abs());
                    slope == L::times(gap, gap) && slope.not_below(lit(ZERO))
                },
                Activation::Linear => slope == lit(ONE),
            }
        }),
{
    let square = L::times(y, y);
    L::square_is_not_negative(y);
    L::equals_agree(lit(ONE), square, lit(ONE), square);
    let rest = L::minus(lit(ONE), y);
    L::equals_agree(lit(ONE), y, lit(ONE), y);
    L::equals_agree(y, rest, y, rest);
    L::square_is_not_negative(L::minus(lit(ONE), y.abs()));
}

/// Transposing swaps rows and columns, and twice it changes nothing.
pub proof fn law_transposing(m: MatView, r: int, c: int)
    requires
        0 <= r < m.rows,
        0 <= c < m.cols,
    ensures
        m.transpose().rows == m.cols,
        m.transpose().cols == m.rows,
        m.transpose().wf(),
        m.transpose().at(c, r) == m.at(r, c),
        m.transpose().transpose().at(r, c) == m.at(r, c),
{
}

/// A layer's response, forwards and read backwards: one component per weighted sum.
/// The bias counts forwards only, and backwards the activation is the one of the layer
/// that is expected of.
pub proof fn law_response_of_a_layer<L: LinAlg>(
    layer: LayerView,
    x: Seq<Scalar>,
    above: Seq<Scalar>,
    act: Activation,
    j: int,
)
    ensures
        layer.forward::<L>(x).len() == L::product(layer.weights, x).len(),
        0 <= j < L::product(layer.weights, x).len() ==> layer.forward::<L>(x)[j]
            == layer.activation.value::<L>(
            L::plus(L::product(layer.weights, x)[j], layer.bias[j]),
        ),
        layer.transpose_forward::<L>(above, act).len() == L::product(
            layer.weights.transpose(),
            above,
        ).len(),
        0 <= j < L::product(layer.weights.transpose(), above).len()
            ==> layer.transpose_forward::<L>(above, act)[j] == act.value::<L>(
            L::product(layer.weights.transpose(), above)[j],
        ),
{
}

/// The gradients of a layer. At the pre-activation it is the error signal times the
/// slope, held within the gradient bound. What is handed to the layer below is that,
/// read back through the weights; the gradient at the input is the same without the
/// bound. No error signal, no gradient.
pub proof fn law_gradients_of_a_layer<L: LinAlg>(
    layer: LayerView,
    output: Seq<Scalar>,
    delta: Seq<Scalar>,
    j: int,
) -> (unclipped: Seq<Scalar>)
    requires
        0 <= j < delta.len(),
        delta.len() == output.len(),
    ensures
        ({
            let grad = layer.local_gradient::<L>(output, delta);
            let slope = layer.activation.slope::<L>(output[j]);
            &&& grad.len() == delta.len()
            &&& unclipped.len() == delta.len()
            &&& forall|i: int|
                #![trigger unclipped[i]]
                0 <= i < delta.len() ==> unclipped[i] == L::times(
                    delta[i],
                    layer.activation.slope::<L>(output[i]),
                )
            &&& grad[j] == unclipped[j].clamp(lit(GRAD_CLIP).neg(), lit(GRAD_CLIP))
            &&& grad[j].is_nan() || grad[j].within(lit(GRAD_CLIP).neg(), lit(GRAD_CLIP))
            &&& delta[j].num_eq(lit(ZERO)) && slope.is_finite() ==> grad[j].num_eq(lit(ZERO))
            &&& lit(ZERO).le(delta[j]) && lit(ZERO).le(slope) ==> grad[j].not_below(lit(ZERO))
            &&& delta[j].le(lit(ZERO)) && lit(ZERO).le(slope) ==> grad[j].not_above(lit(ZERO))
            &&& layer.propagated::<L>(output, delta) == L::product(
                layer.weights.transpose(),
                grad,
            )
            &&& layer.input_gradient::<L>(output, delta) == L::product(
                layer.weights.transpose(),
                unclipped,
            )
        }),
{
    let slope = layer.activation.slope::<L>(output[j]);
    L::equals_agree(delta[j], slope, delta[j], slope);
    if delta[j].num_eq(lit(ZERO)) && slope.is_finite() {
        L::zero_absorbs(slope, delta[j]);
    }
    v_mul::<L>(delta, v_slope::<L>(output, layer.activation))
}

/// One descent step of a layer. Each weight moves against the product of its gradient
/// and its input, each bias against its gradient, by `rate`; then both are held within
/// the weight bound.
pub proof fn law_descent_of_a_layer<L: LinAlg>(
    layer: LayerView,
    input: Seq<Scalar>,
    output: Seq<Scalar>,
    delta: Seq<Scalar>,
    rate: Scalar,
    r: int,
    c: int,
)
    requires
        layer.wf(),
        input.len() == layer.inputs(),
        output.len() == layer.outputs(),
        delta.len() == layer.outputs(),
        0 <= r < layer.outputs(),
        0 <= c < layer.inputs(),
    ensures
        ({
            let grad = layer.local_gradient::<L>(output, delta);
            let after = layer.descended::<L>(input, output, delta, rate);
            &&& after.wf()
            &&& after.inputs() == layer.inputs()
            &&& after.outputs() == layer.outputs()
            &&& after.activation == layer.activation
            &&& after.weights.at(r, c) == L::plus(
                layer.weights.at(r, c),
                L::times(L::times(grad[r], input[c]), rate.neg()),
            ).clamp(lit(WEIGHT_CLIP).neg(), lit(WEIGHT_CLIP))
            &&& after.bias[r] == L::plus(
                layer.bias[r],
                L::times(grad[r], rate.neg()),
            ).clamp(lit(WEIGHT_CLIP).neg(), lit(WEIGHT_CLIP))
        }),
{
}

/// Descent goes downhill: at a rate that is not negative a weight within the bound
/// does not grow where its gradient times its input is not negative, and does not
/// shrink where that is not positive. Where it is zero the weight stays. The same holds
/// of a bias and its gradient.
pub proof fn law_descent_goes_downhill<L: LinAlg>(
    layer: LayerView,
    input: Seq<Scalar>,
    output: Seq<Scalar>,
    delta: Seq<Scalar>,
    rate: Scalar,
    r: int,
    c: int,
)
    requires
        layer.wf(),
        input.len() == layer.inputs(),
        output.len() == layer.outputs(),
        delta.len() == layer.outputs(),
        0 <= r < layer.outputs(),
        0 <= c < layer.inputs(),
        lit(ZERO).le(rate),
        rate.is_finite(),
        layer.weights.at(r, c).within(lit(WEIGHT_CLIP).neg(), lit(WEIGHT_CLIP)),
        layer.bias[r].within(lit(WEIGHT_CLIP).neg(), lit(WEIGHT_CLIP)),
    ensures
        ({
            let grad = layer.local_gradient::<L>(output, delta)[r];
            let push = L::times(grad, input[c]);
            let after = layer.descended::<L>(input, output, delta, rate);
            &&& lit(ZERO).le(push) ==> after.weights.at(r, c).not_above(layer.weights.at(r, c))
            &&& push.le(lit(ZERO)) ==> after.weights.at(r, c).not_below(layer.weights.at(r, c))
            &&& push.num_eq(lit(ZERO)) ==> after.weights.at(r, c).num_eq(layer.weights.at(r, c))
            &&& lit(ZERO).le(grad) ==> after.bias[r].not_above(layer.bias[r])
            &&& grad.le(lit(ZERO)) ==> after.bias[r].not_below(layer.bias[r])
            &&& grad.num_eq(lit(ZERO)) ==> after.bias[r].num_eq(layer.bias[r])
        }),
{
    law_descent_of_a_layer::<L>(layer, input, output, delta, rate, r, c);
    let grad = layer.local_gradient::<L>(output, delta)[r];
    lemma_downhill::<L>(layer.weights.at(r, c), L::times(grad, input[c]), rate);
    lemma_downhill::<L>(layer.bias[r], grad, rate);
}

proof fn lemma_downhill<L: LinAlg>(w: Scalar, push: Scalar, rate: Scalar)
    requires
        lit(ZERO).le(rate),
        rate.is_finite(),
        w.within(lit(WEIGHT_CLIP).neg(), lit(WEIGHT_CLIP)),
    ensures
        ({
            let after = L::plus(w, L::times(push, rate.neg())).clamp(
                lit(WEIGHT_CLIP).neg(),
                lit(WEIGHT_CLIP),
            );
            &&& lit(ZERO).le(push) ==> after.not_above(w)
            &&& push.le(lit(ZERO)) ==> after.not_below(w)
            &&& push.num_eq(lit(ZERO)) ==> after.num_eq(w)
        }),
{
    let step = L::times(push, rate.neg());
    L::equals_agree(push, rate.neg(), push, rate.neg());
    L::equals_agree(rate.neg(), push, rate.neg(), push);
    L::equals_agree(w, step, w, step);
    if push.num_eq(lit(ZERO)) {
        L::zero_absorbs(rate.neg(), push);
        lemma_zero_changes_no_number::<L>(w, step);
    }
}

/// A fresh layer has no bias and the activation that was asked for, and its weights
/// are one fresh matrix.
pub proof fn law_fresh_layer<L: LinAlg>(
    rng: rand::rngs::StdRng,
    inputs: nat,
    outputs: nat,
    act: Activation,
    j: int,
)
    requires
        0 <= j < outputs,
    ensures
        ({
            let (layer, left) = LayerView::initial::<L>(rng, inputs, outputs, act);
            &&& (layer.weights, left) == L::xavier(rng, outputs, inputs)
            &&& layer.bias.len() == outputs
            &&& layer.bias[j] == lit(ZERO)
            &&& layer.activation == act
        }),
{
}

} // verus!
