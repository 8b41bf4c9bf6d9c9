//! Laws of the critics.

use rand::rngs::StdRng;
use vstd::prelude::*;

use crate::layer::LayerView;
use crate::linalg::LinAlg;
use crate::mlp_critic::{critic_trained, critic_value, squared_error};
use crate::q_critic::action_gradient_of;
use crate::scalar::{lit, Scalar, ONE, TWO, ZERO};
use crate::stack::{
    descend_upto, gradient_upto, initial_layers, initial_stack, response, StackShape,
};

verus! {

/// A stack responds layer by layer, and a critic's value is the one output of its last
/// layer.
pub proof fn law_value_of_a_critic<L: LinAlg>(layers: Seq<LayerView>, x: Seq<Scalar>, k: nat)
    requires
        k < layers.len(),
    ensures
        response::<L>(layers, x, 0) == x,
        response::<L>(layers, x, k + 1) == layers[k as int].forward::<L>(
            response::<L>(layers, x, k),
        ),
        critic_value::<L>(layers, x) == layers.last().forward::<L>(
            response::<L>(layers, x, (layers.len() - 1) as nat),
        )[0],
{
}

/// The loss is the square of the distance to the target: never negative, and zero
/// where the target was met.
pub proof fn law_squared_error<L: LinAlg>(target: Scalar, predicted: Scalar)
    ensures
        ({
            let loss = squared_error::<L>(target, predicted);
            let gap = L::minus(target, predicted);
            &&& loss == L::times(gap, gap)
            &&& loss.not_below(lit(ZERO))
            &&& target.is_finite() && target.num_eq(predicted) ==> loss.num_eq(lit(ZERO))
        }),
{
    let gap = L::minus(target, predicted);
    L::square_is_not_negative(gap);
    if target.is_finite() && target.num_eq(predicted) {
        L::equals_cancel(target, predicted);
        L::zero_absorbs(gap, gap);
    }
}

/// One descent step of a critic. The signal at the output is minus twice the distance
/// to the target: not positive below the target, not negative above it. Layer `i`
/// descends on what the layers above handed down, fed by the response below it, at
/// `lr` times `scale`, times its decay factor where there are any and it is not the
/// output layer. All signals go through weights as they were. Returns the signal at
/// layer `i`, and the signal that it hands down.
pub proof fn law_training_of_a_critic<L: LinAlg>(
    layers: Seq<LayerView>,
    x: Seq<Scalar>,
    target: Scalar,
    lr: Scalar,
    scale: Scalar,
    decay: Seq<Scalar>,
    i: int,
) -> (r: (Seq<Scalar>, Seq<Scalar>))
    requires
        0 <= i < layers.len(),
    ensures
        ({
            let (delta, handed) = r;
            let top = layers.len() - 1;
            let gap = L::minus(target, critic_value::<L>(layers, x));
            let after = critic_trained::<L>(layers, x, target, lr, scale, decay);
            let rate = L::times(
                lr,
                if i < top && decay.len() > 0 {
                    L::times(scale, decay[i])
                } else {
                    scale
                },
            );
            &&& after.len() == layers.len()
            &&& after[i] == layers[i].descended::<L>(
                response::<L>(layers, x, i as nat),
                response::<L>(layers, x, (i + 1) as nat),
                delta,
                rate,
            )
            &&& handed == layers[i].propagated::<L>(response::<L>(layers, x, (i + 1) as nat), delta)
            &&& i == top ==> delta.len() == 1 && delta[0] == L::times(lit(TWO).neg(), gap)
            &&& i == top && critic_value::<L>(layers, x).le(target) ==> delta[0].not_above(
                lit(ZERO),
            )
            &&& i == top && target.le(critic_value::<L>(layers, x)) ==> delta[0].not_below(
                lit(ZERO),
            )
            &&& delta == signal_at::<L>(layers, x, target, i)
        }),
{
    let value = critic_value::<L>(layers, x);
    let gap = L::minus(target, value);
    let delta = seq![L::times(lit(TWO).neg(), gap)];
    L::equals_agree(target, value, target, value);
    L::equals_agree(lit(TWO).neg(), gap, lit(TWO).neg(), gap);
    L::equals_agree(gap, lit(TWO).neg(), gap, lit(TWO).neg());
    let k = (layers.len() - 1 - i) as nat;
    lemma_descent::<L>(layers, x, delta, lr, scale, decay, k);
    lemma_descent::<L>(layers, x, delta, lr, scale, decay, k + 1);
    lemma_descended_stays::<L>(layers, x, delta, lr, scale, decay, k + 1, layers.len(), i);
    lemma_signal::<L>(layers, x, target, lr, scale, decay, k);
    assert(layers.len() - (k + 1) == i);
    (
        descend_upto::<L>(layers, x, delta, lr, scale, decay, k).delta,
        descend_upto::<L>(layers, x, delta, lr, scale, decay, k + 1).delta,
    )
}

/// The signal that reaches layer `i` of a critic that is trained towards `target`.
pub open spec fn signal_at<L: LinAlg>(
    layers: Seq<LayerView>,
    x: Seq<Scalar>,
    target: Scalar,
    i: int,
) -> Seq<Scalar>
    decreases layers.len() - i,
{
    if i >= layers.len() - 1 {
        seq![L::times(lit(TWO).neg(), L::minus(target, critic_value::<L>(layers, x)))]
    } else {
        layers[i + 1].propagated::<L>(
            response::<L>(layers, x, (i + 2) as nat),
            signal_at::<L>(layers, x, target, i + 1),
        )
    }
}

proof fn lemma_signal<L: LinAlg>(
    layers: Seq<LayerView>,
    x: Seq<Scalar>,
    target: Scalar,
    lr: Scalar,
    scale: Scalar,
    decay: Seq<Scalar>,
    k: nat,
)
    requires
        k < layers.len(),
    ensures
        descend_upto::<L>(
            layers,
            x,
            seq![L::times(lit(TWO).neg(), L::minus(target, critic_value::<L>(layers, x)))],
            lr,
            scale,
            decay,
            k,
        ).delta == signal_at::<L>(layers, x, target, layers.len() - 1 - k),
    decreases k,
{
    if k > 0 {
        lemma_signal::<L>(layers, x, target, lr, scale, decay, (k - 1) as nat);
    }
}

proof fn lemma_descent<L: LinAlg>(
    layers: Seq<LayerView>,
    x: Seq<Scalar>,
    delta: Seq<Scalar>,
    lr: Scalar,
    scale: Scalar,
    decay: Seq<Scalar>,
    k: nat,
)
    requires
        k <= layers.len(),
    ensures
        descend_upto::<L>(layers, x, delta, lr, scale, decay, k).layers.len() == layers.len(),
    decreases k,
{
    if k > 0 {
        lemma_descent::<L>(layers, x, delta, lr, scale, decay, (k - 1) as nat);
    }
}

proof fn lemma_descended_stays<L: LinAlg>(
    layers: Seq<LayerView>,
    x: Seq<Scalar>,
    delta: Seq<Scalar>,
    lr: Scalar,
    scale: Scalar,
    decay: Seq<Scalar>,
    k: nat,
    n: nat,
    i: int,
)
    requires
        k <= n <= layers.len(),
        layers.len() - k <= i < layers.len(),
    ensures
        descend_upto::<L>(layers, x, delta, lr, scale, decay, n).layers[i] == descend_upto::<L>(
            layers,
            x,
            delta,
            lr,
            scale,
            decay,
            k,
        ).layers[i],
        descend_upto::<L>(layers, x, delta, lr, scale, decay, n).layers.len() == layers.len(),
    decreases n,
{
    lemma_descent::<L>(layers, x, delta, lr, scale, decay, n);
    if n > k {
        lemma_descended_stays::<L>(layers, x, delta, lr, scale, decay, k, (n - 1) as nat, i);
    }
}

/// The gradient of a critic's value with respect to the action: one goes in at the
/// output, each layer hands the unclipped gradient at its input down, and of what
/// arrives at the input the part behind the state is the action's.
pub proof fn law_action_gradient<L: LinAlg>(
    layers: Seq<LayerView>,
    state: Seq<Scalar>,
    action: Seq<Scalar>,
    i: int,
    j: int,
)
    requires
        0 <= i < layers.len(),
    ensures
        ({
            let x = state + action;
            let n = layers.len();
            let at_input = gradient_upto::<L>(layers, x, seq![lit(ONE)], n);
            let slope = action_gradient_of::<L>(layers, state, action);
            &&& gradient_upto::<L>(layers, x, seq![lit(ONE)], 0) == seq![lit(ONE)]
            &&& gradient_upto::<L>(layers, x, seq![lit(ONE)], (n - i) as nat)
                == layers[i].input_gradient::<L>(
                response::<L>(layers, x, (i + 1) as nat),
                gradient_upto::<L>(layers, x, seq![lit(ONE)], (n - 1 - i) as nat),
            )
            &&& at_input.len() == state.len() + action.len() ==> slope.len() == action.len()
            &&& at_input.len() == state.len() + action.len() && 0 <= j < action.len() ==> slope[j]
                == at_input[state.len() + j]
        }),
{
}

/// A fresh stack is drawn from the input upwards, each layer as wide as its neighbours
/// ask, the hidden ones with their own activations and the last with the output's.
pub proof fn law_fresh_stack<L: LinAlg>(rng: StdRng, shape: StackShape, k: nat)
    requires
        k <= shape.hidden.len(),
    ensures
        initial_layers::<L>(rng, shape, 0) == (Seq::<LayerView>::empty(), rng),
        ({
            let (below, left) = initial_layers::<L>(rng, shape, k);
            let inputs = if k == 0 {
                shape.inputs
            } else {
                shape.hidden[k - 1].size as nat
            };
            let (layer, rest) = if k < shape.hidden.len() {
                LayerView::initial::<L>(
                    left,
                    inputs,
                    shape.hidden[k as int].size as nat,
                    shape.hidden[k as int].activation,
                )
            } else {
                LayerView::initial::<L>(left, inputs, shape.outputs, shape.top)
            };
            initial_layers::<L>(rng, shape, k + 1) == (below.push(layer), rest)
        }),
        initial_stack::<L>(rng, shape) == initial_layers::<L>(
            rng,
            shape,
            shape.hidden.len() + 1,
        ),
{
}

} // verus!
