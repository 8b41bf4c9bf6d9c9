//! Laws of the actor's weight update.

use vstd::prelude::*;

use crate::linalg::LinAlg;
use crate::pc_model::{
    layer_gradient, learn_upto, learned, signal_below, teaching_signal, ActorView, Evidence,
    PcActorConfigView,
};
use crate::scalar::{lit, Scalar, EPSILON, NEG_ZERO, ONE, ZERO};

verus! {

/// `signal` is what a hidden layer learns from, given the back-propagated `delta`
/// and the layer's own prediction `error`: within `EPSILON` of `lambda` one the
/// back-propagated part alone, within `EPSILON` of zero the error alone, and in
/// between `lambda` parts of the first and `1 - lambda` parts of the second.
pub open spec fn teaches<L: LinAlg>(
    signal: Seq<Scalar>,
    lambda: Scalar,
    delta: Seq<Scalar>,
    error: Seq<Scalar>,
) -> bool {
    &&& L::minus(lambda, lit(ONE)).abs().lt(lit(EPSILON)) ==> signal == delta
    &&& !L::minus(lambda, lit(ONE)).abs().lt(lit(EPSILON)) && lambda.abs().lt(lit(EPSILON))
        ==> signal == error
    &&& !L::minus(lambda, lit(ONE)).abs().lt(lit(EPSILON)) && !lambda.abs().lt(lit(EPSILON)) ==> {
        &&& signal.len() == delta.len()
        &&& forall|j: int|
            #![trigger signal[j]]
            0 <= j < delta.len() && j < error.len() ==> signal[j] == L::plus(
                L::times(delta[j], lambda),
                L::times(error[j], L::minus(lit(ONE), lambda)),
            )
    }
}

/// The signal that a hidden layer is taught, in terms of what it is blended from.
pub proof fn law_teaching_signal<L: LinAlg>(
    lambda: Scalar,
    delta: Seq<Scalar>,
    error: Seq<Scalar>,
)
    ensures
        teaches::<L>(teaching_signal::<L>(lambda, delta, error), lambda, delta, error),
{
}

/// With `lambda` strictly between zero and one a component whose prediction error
/// is zero is taught `lambda` times its back-propagated part, and one whose
/// back-propagated part is zero is taught `1 - lambda` times its prediction error.
/// Where both parts have one sign, so has the signal.
pub proof fn law_blend_of_one_part<L: LinAlg>(
    lambda: Scalar,
    delta: Seq<Scalar>,
    error: Seq<Scalar>,
    j: int,
)
    requires
        lit(ZERO).lt(lambda),
        lambda.lt(lit(ONE)),
        !lambda.abs().lt(lit(EPSILON)),
        !L::minus(lambda, lit(ONE)).abs().lt(lit(EPSILON)),
        0 <= j < delta.len(),
        j < error.len(),
    ensures
        ({
            let signal = teaching_signal::<L>(lambda, delta, error)[j];
            let rest = L::minus(lit(ONE), lambda);
            &&& error[j].num_eq(lit(ZERO)) && rest.is_finite() && !L::times(
                delta[j],
                lambda,
            ).is_nan() ==> signal.num_eq(L::times(delta[j], lambda))
            &&& delta[j].num_eq(lit(ZERO)) && !L::times(error[j], rest).is_nan()
                ==> signal.num_eq(L::times(error[j], rest))
            &&& lit(ZERO).le(delta[j]) && lit(ZERO).le(error[j]) ==> signal.not_below(lit(ZERO))
            &&& delta[j].le(lit(ZERO)) && error[j].le(lit(ZERO)) ==> signal.not_above(lit(ZERO))
        }),
{
    let rest = L::minus(lit(ONE), lambda);
    let from_above = L::times(delta[j], lambda);
    let from_below = L::times(error[j], rest);
    L::equals_agree(lit(ONE), lambda, lit(ONE), lambda);
    L::equals_agree(delta[j], lambda, delta[j], lambda);
    L::equals_agree(error[j], rest, error[j], rest);
    L::equals_agree(from_above, from_below, from_above, from_below);
    L::equals_agree(lambda, delta[j], lambda, delta[j]);
    L::equals_agree(rest, error[j], rest, error[j]);
    if error[j].num_eq(lit(ZERO)) && rest.is_finite() && !from_above.is_nan() {
        L::zero_absorbs(rest, error[j]);
        lemma_zero_changes_no_number::<L>(from_above, from_below);
    }
    if delta[j].num_eq(lit(ZERO)) && !from_below.is_nan() {
        L::zero_absorbs(lambda, delta[j]);
        lemma_zero_changes_no_number::<L>(from_below, from_above);
        L::equals_agree(from_below, from_above, from_below, from_above);
    }
}

/// Adding a zero changes no number.
pub(crate) proof fn lemma_zero_changes_no_number<L: LinAlg>(a: Scalar, b: Scalar)
    requires
        !a.is_nan(),
        b.num_eq(lit(ZERO)),
    ensures
        L::plus(a, b).num_eq(a),
{
    let from = if a == lit(NEG_ZERO) {
        lit(ZERO)
    } else {
        a
    };
    L::equals_agree(a, b, from, b);
    L::zero_is_neutral(from, b);
}

/// The state that feeds hidden layer `i`.
pub open spec fn fed_by(e: Evidence, i: int) -> Seq<Scalar> {
    if i == 0 {
        e.input
    } else {
        e.inferred.hidden.states[i - 1]
    }
}

/// The rate at which hidden layer `i` learns: the configured rate times the scale
/// of the update, times the layer's decay factor where there are any.
pub open spec fn rate_of<L: LinAlg>(cfg: PcActorConfigView, e: Evidence, i: int) -> Scalar {
    L::times(
        cfg.lr_weights,
        if e.decay_factors.len() == 0 {
            e.surprise_scale
        } else {
            L::times(e.surprise_scale, e.decay_factors[i])
        },
    )
}

/// What the skip connection into hidden layer `i` lets through of its signal.
pub open spec fn rezeroed<L: LinAlg>(
    used: Seq<Scalar>,
    a: ActorView,
    cfg: PcActorConfigView,
    signal: Seq<Scalar>,
    i: int,
) -> bool {
    if cfg.residual && i >= 1 {
        &&& used.len() == signal.len()
        &&& forall|j: int|
            #![trigger used[j]]
            0 <= j < signal.len() ==> used[j] == L::times(signal[j], a.rezero_alpha[i - 1])
    } else {
        used == signal
    }
}

/// The weight update of hidden layer `i`. The layer descends on the blend of the
/// signal from above and its own prediction error, with weights as they were before
/// the update. In a residual network its scale descends on the inner product of that
/// signal with the layer's response, and its projection on their outer product.
/// Returns the signal, and the part of it that goes through the layer itself.
pub proof fn law_hidden_layer_learns_from_the_blend<L: LinAlg>(
    a: ActorView,
    cfg: PcActorConfigView,
    e: Evidence,
    i: int,
) -> (r: (Seq<Scalar>, Seq<Scalar>))
    requires
        a.wf(cfg),
        0 <= i < cfg.depth(),
    ensures
        ({
            let (signal, used) = r;
            let after = learned::<L>(a, cfg, e);
            let rate = rate_of::<L>(cfg, e, i);
            let own = e.inferred.hidden.own(i);
            &&& teaches::<L>(
                signal,
                e.lambda,
                signal_below::<L>(a, cfg, e, (cfg.depth() - 1 - i) as nat),
                e.inferred.prediction_errors[cfg.depth() - 1 - i],
            )
            &&& rezeroed::<L>(used, a, cfg, signal, i)
            &&& after.layers[i] == a.layers[i].descended::<L>(fed_by(e, i), own, used, rate)
            &&& layer_gradient::<L>(a, cfg, e, i) == a.layers[i].local_gradient::<L>(own, used)
            &&& cfg.residual && i >= 1 ==> {
                &&& after.rezero_alpha[i - 1] == L::minus(
                    a.rezero_alpha[i - 1],
                    L::times(rate, L::inner(signal, own)),
                )
                &&& match (a.skip_projections[i - 1], after.skip_projections[i - 1]) {
                    (Some(p), Some(q)) => {
                        &&& q.same_shape(p)
                        &&& forall|y: int, x: int|
                            #![trigger q.at(y, x)]
                            0 <= y < p.rows && 0 <= x < p.cols && y < signal.len() && x < fed_by(
                                e,
                                i,
                            ).len() ==> q.at(y, x) == L::plus(
                                p.at(y, x),
                                L::times(L::times(signal[y], fed_by(e, i)[x]), rate.neg()),
                            )
                    },
                    (None, None) => true,
                    _ => false,
                }
            }
        }),
{
    let k = (cfg.depth() - 1 - i) as nat;
    lemma_layers_below_wait::<L>(a, cfg, e, k);
    lemma_layers_above_stay::<L>(a, cfg, e, (k + 1) as nat, cfg.depth(), i);
    let s = learn_upto::<L>(a, cfg, e, k);
    let signal = teaching_signal::<L>(
        e.lambda,
        s.delta,
        e.inferred.prediction_errors[cfg.depth() - 1 - i],
    );
    let used = if cfg.residual && i >= 1 {
        crate::linalg::v_scale::<L>(signal, a.rezero_alpha[i - 1])
    } else {
        signal
    };
    let next = learn_upto::<L>(a, cfg, e, (k + 1) as nat);
    assert(cfg.depth() - (k + 1) == i);
    (signal, used)
}

/// The layers below the `k` topmost hidden ones wait with their weights, their
/// scales and their projections. The signal that reaches them went through weights
/// as they were before the update.
proof fn lemma_layers_below_wait<L: LinAlg>(
    a: ActorView,
    cfg: PcActorConfigView,
    e: Evidence,
    k: nat,
)
    requires
        a.wf(cfg),
        k <= cfg.depth(),
    ensures
        ({
            let s = learn_upto::<L>(a, cfg, e, k);
            &&& s.delta == signal_below::<L>(a, cfg, e, k)
            &&& s.actor.layers.len() == a.layers.len()
            &&& s.actor.rezero_alpha.len() == a.rezero_alpha.len()
            &&& s.actor.skip_projections.len() == a.skip_projections.len()
            &&& forall|i: int|
                #![trigger s.actor.layers[i]]
                0 <= i < cfg.depth() - k ==> s.actor.layers[i] == a.layers[i]
            &&& forall|i: int|
                #![trigger s.actor.rezero_alpha[i]]
                0 <= i < cfg.depth() - k - 1 ==> s.actor.rezero_alpha[i] == a.rezero_alpha[i]
            &&& forall|i: int|
                #![trigger s.actor.skip_projections[i]]
                0 <= i < cfg.depth() - k - 1 ==> s.actor.skip_projections[i]
                    == a.skip_projections[i]
        }),
    decreases k,
{
    if k > 0 {
        lemma_layers_below_wait::<L>(a, cfg, e, (k - 1) as nat);
        let s = learn_upto::<L>(a, cfg, e, (k - 1) as nat);
        let i = cfg.depth() - k;
        assert(s.actor.layers[i] == a.layers[i]);
        if cfg.residual && i >= 1 {
            assert(s.actor.rezero_alpha[i - 1] == a.rezero_alpha[i - 1]);
            assert(s.actor.skip_projections[i - 1] == a.skip_projections[i - 1]);
        }
    }
}

/// A hidden layer that was updated is not touched again.
proof fn lemma_layers_above_stay<L: LinAlg>(
    a: ActorView,
    cfg: PcActorConfigView,
    e: Evidence,
    k: nat,
    n: nat,
    i: int,
)
    requires
        a.wf(cfg),
        k <= n <= cfg.depth(),
        cfg.depth() - k <= i < cfg.depth(),
    ensures
        ({
            let s = learn_upto::<L>(a, cfg, e, k).actor;
            let t = learn_upto::<L>(a, cfg, e, n).actor;
            &&& t.layers[i] == s.layers[i]
            &&& cfg.residual && i >= 1 ==> t.rezero_alpha[i - 1] == s.rezero_alpha[i - 1]
                && t.skip_projections[i - 1] == s.skip_projections[i - 1]
        }),
    decreases n,
{
    if n > k {
        lemma_layers_above_stay::<L>(a, cfg, e, k, (n - 1) as nat, i);
        lemma_layers_below_wait::<L>(a, cfg, e, (n - 1) as nat);
    }
}

/// The signal handed down. Below the output layer it is the output signal
/// propagated through that layer. Below a hidden layer it is the layer's own signal
/// propagated through the layer and, in a residual network, the signal itself, read
/// back through the projection where there is one.
pub proof fn law_signal_handed_down<L: LinAlg>(
    a: ActorView,
    cfg: PcActorConfigView,
    e: Evidence,
    i: int,
) -> (r: (Seq<Scalar>, Seq<Scalar>))
    requires
        a.wf(cfg),
        0 <= i < cfg.depth(),
    ensures
        signal_below::<L>(a, cfg, e, 0) == a.layers[cfg.depth() as int].propagated::<L>(
            e.inferred.y_conv,
            e.output_delta,
        ),
        ({
            let (signal, used) = r;
            let handed = signal_below::<L>(a, cfg, e, (cfg.depth() - i) as nat);
            let through = a.layers[i].propagated::<L>(e.inferred.hidden.own(i), used);
            &&& teaches::<L>(
                signal,
                e.lambda,
                signal_below::<L>(a, cfg, e, (cfg.depth() - 1 - i) as nat),
                e.inferred.prediction_errors[cfg.depth() - 1 - i],
            )
            &&& rezeroed::<L>(used, a, cfg, signal, i)
            &&& if cfg.residual && i >= 1 {
                let around = match a.skip_projections[i - 1] {
                    Some(p) => L::product(p.transpose(), signal),
                    None => signal,
                };
                &&& handed.len() == through.len()
                &&& forall|j: int|
                    #![trigger handed[j]]
                    0 <= j < through.len() && j < around.len() ==> handed[j] == L::plus(
                        through[j],
                        around[j],
                    )
            } else {
                handed == through
            }
        }),
{
    let signal = teaching_signal::<L>(
        e.lambda,
        signal_below::<L>(a, cfg, e, (cfg.depth() - 1 - i) as nat),
        e.inferred.prediction_errors[cfg.depth() - 1 - i],
    );
    let used = if cfg.residual && i >= 1 {
        crate::linalg::v_scale::<L>(signal, a.rezero_alpha[i - 1])
    } else {
        signal
    };
    (signal, used)
}

/// The output layer descends on the output signal alone, at the configured rate
/// times the scale of the update.
pub proof fn law_output_layer_descends<L: LinAlg>(
    a: ActorView,
    cfg: PcActorConfigView,
    e: Evidence,
)
    requires
        a.wf(cfg),
    ensures
        ({
            let n = cfg.depth() as int;
            &&& learned::<L>(a, cfg, e).layers[n] == a.layers[n].descended::<L>(
                fed_by(e, n),
                e.inferred.y_conv,
                e.output_delta,
                L::times(cfg.lr_weights, e.surprise_scale),
            )
            &&& layer_gradient::<L>(a, cfg, e, n) == a.layers[n].local_gradient::<L>(
                e.inferred.y_conv,
                e.output_delta,
            )
        }),
{
    crate::pc_model::law_output_layer_neither_decays_nor_blends::<L>(a, cfg, e);
}

} // verus!
