//! Laws of importance estimates, consolidation and distillation.

use vstd::prelude::*;

use crate::layer::LayerView;
use crate::linalg::LinAlg;
use crate::matrix::WEIGHT_CLIP;
use crate::pc_actor::PcActor;
use crate::pc_actor_critic::distillation::{
    all_finite, divergence_gradient, kl_gradient, log_softmax, logits, max_upto, scattered,
    sum_upto,
};
use crate::pc_actor_critic::fisher::{blank_states, FisherView};
use crate::pc_actor_critic::learning::{
    consolidated_actor, distilled, fisher_after, follower_after,
};
use crate::pc_model::{inference, layer_gradient, ActorView, Evidence, PcActorConfigView};
use crate::pc_topology::topology_gap;
use crate::scalar::{lit, Scalar, NEG_INFINITY, ONE, ZERO};

verus! {

/// The running importance of every parameter of layer `i` after an update is `beta`
/// parts of what it was and `1 - beta` parts of the square of the layer's clipped
/// gradient in the parameter's row. What was accumulated and the snapshots stay. With
/// `beta` between zero and one no importance turns negative.
pub proof fn law_running_importance<L: LinAlg>(
    fisher: Seq<FisherView>,
    a: ActorView,
    cfg: PcActorConfigView,
    e: Evidence,
    beta: Scalar,
    i: int,
    r: int,
    c: int,
)
    requires
        0 <= i < fisher.len(),
        0 <= r < fisher[i].f_ema_weights.rows,
        0 <= c < fisher[i].f_ema_weights.cols,
        r < fisher[i].f_ema_bias.len(),
    ensures
        ({
            let before = fisher[i];
            let after = fisher_after::<L>(fisher, a, cfg, e, beta)[i];
            let g = layer_gradient::<L>(a, cfg, e, i)[r];
            let fresh = L::times(L::minus(lit(ONE), beta), L::times(g, g));
            &&& fisher_after::<L>(fisher, a, cfg, e, beta).len() == fisher.len()
            &&& after.f_ema_weights.same_shape(before.f_ema_weights)
            &&& after.f_ema_bias.len() == before.f_ema_bias.len()
            &&& after.f_ema_weights.at(r, c) == L::plus(
                L::times(beta, before.f_ema_weights.at(r, c)),
                fresh,
            )
            &&& after.f_ema_bias[r] == L::plus(L::times(beta, before.f_ema_bias[r]), fresh)
            &&& after.f_total_weights == before.f_total_weights
            &&& after.f_total_bias == before.f_total_bias
            &&& after.theta_snapshot_weights == before.theta_snapshot_weights
            &&& after.theta_snapshot_bias == before.theta_snapshot_bias
            &&& beta.within(lit(ZERO), lit(ONE)) && lit(ZERO).le(before.f_ema_weights.at(r, c))
                ==> after.f_ema_weights.at(r, c).not_below(lit(ZERO))
        }),
{
    let g = layer_gradient::<L>(a, cfg, e, i)[r];
    let square = L::times(g, g);
    let rest = L::minus(lit(ONE), beta);
    let fresh = L::times(rest, square);
    let kept = L::times(beta, fisher[i].f_ema_weights.at(r, c));
    L::square_is_not_negative(g);
    L::equals_agree(lit(ONE), beta, lit(ONE), beta);
    L::equals_agree(rest, square, rest, square);
    L::equals_agree(
        beta,
        fisher[i].f_ema_weights.at(r, c),
        beta,
        fisher[i].f_ema_weights.at(r, c),
    );
    L::equals_agree(kept, fresh, kept, fresh);
}

/// Forgetting zeroes the running importance and keeps the rest, and a fresh agent has
/// one blank state per layer exactly where consolidation is on.
pub proof fn law_blank_importance(layers: Seq<LayerView>, ewc_lambda: Scalar, f: FisherView)
    ensures
        f.forgotten().f_ema_weights.same_shape(f.f_ema_weights),
        f.forgotten().f_ema_bias.len() == f.f_ema_bias.len(),
        forall|r: int, c: int|
            #![trigger f.forgotten().f_ema_weights.at(r, c)]
            0 <= r < f.f_ema_weights.rows && 0 <= c < f.f_ema_weights.cols
                ==> f.forgotten().f_ema_weights.at(r, c) == lit(ZERO),
        forall|j: int|
            #![trigger f.forgotten().f_ema_bias[j]]
            0 <= j < f.f_ema_bias.len() ==> f.forgotten().f_ema_bias[j] == lit(ZERO),
        f.forgotten() == (FisherView {
            f_ema_weights: f.forgotten().f_ema_weights,
            f_ema_bias: f.forgotten().f_ema_bias,
            ..f
        }),
        !lit(ZERO).lt(ewc_lambda) ==> blank_states(layers, ewc_lambda).len() == 0,
        lit(ZERO).lt(ewc_lambda) ==> blank_states(layers, ewc_lambda).len() == layers.len(),
        lit(ZERO).lt(ewc_lambda) ==> forall|k: int|
            #![trigger blank_states(layers, ewc_lambda)[k]]
            0 <= k < layers.len() ==> {
                let blank = blank_states(layers, ewc_lambda)[k];
                &&& blank.f_total_weights.same_shape(layers[k].weights)
                &&& blank.f_ema_weights.same_shape(layers[k].weights)
                &&& blank.f_total_bias.len() == layers[k].bias.len()
                &&& blank.f_ema_bias.len() == layers[k].bias.len()
                &&& blank.theta_snapshot_weights is None
                &&& blank.theta_snapshot_bias is None
                &&& forall|r: int, c: int|
                    #![trigger blank.f_total_weights.at(r, c)]
                    #![trigger blank.f_ema_weights.at(r, c)]
                    0 <= r < layers[k].weights.rows && 0 <= c < layers[k].weights.cols
                        ==> blank.f_total_weights.at(r, c) == lit(ZERO) && blank.f_ema_weights.at(
                        r,
                        c,
                    ) == lit(ZERO)
            },
{
}

/// `now` after the pull towards a snapshot, by how far the parameter was from it before
/// the weight update, in proportion to its importance.
pub open spec fn pulled_back<L: LinAlg>(
    rate: Scalar,
    ewc_lambda: Scalar,
    importance: Scalar,
    before: Scalar,
    snapshot: Scalar,
    now: Scalar,
) -> Scalar {
    L::minus(
        now,
        L::times(
            L::times(L::times(rate, ewc_lambda), importance),
            L::minus(before, snapshot),
        ),
    ).clamp(lit(WEIGHT_CLIP).neg(), lit(WEIGHT_CLIP))
}

/// Consolidation of layer `i`: where it has snapshots, every weight and bias is pulled
/// back towards its own, at the rate at which the layer learned; where it has none, the
/// layer stays. Scales and projections stay.
pub proof fn law_consolidation<L: LinAlg>(
    a: ActorView,
    before: ActorView,
    fisher: Seq<FisherView>,
    cfg: PcActorConfigView,
    scale: Scalar,
    decay: Seq<Scalar>,
    ewc_lambda: Scalar,
    i: int,
    r: int,
    c: int,
)
    requires
        0 <= i < a.layers.len(),
        0 <= r < a.layers[i].weights.rows,
        0 <= c < a.layers[i].weights.cols,
        r < a.layers[i].bias.len(),
    ensures
        ({
            let after = consolidated_actor::<L>(a, before, fisher, cfg, scale, decay, ewc_lambda);
            let rate = L::times(
                cfg.lr_weights,
                if i < cfg.depth() && decay.len() > 0 {
                    L::times(scale, decay[i])
                } else {
                    scale
                },
            );
            &&& after.layers.len() == a.layers.len()
            &&& after.rezero_alpha == a.rezero_alpha
            &&& after.skip_projections == a.skip_projections
            &&& match (fisher[i].theta_snapshot_weights, fisher[i].theta_snapshot_bias) {
                (Some(weights), Some(bias)) => {
                    &&& after.layers[i].activation == a.layers[i].activation
                    &&& after.layers[i].weights.same_shape(a.layers[i].weights)
                    &&& after.layers[i].bias.len() == a.layers[i].bias.len()
                    &&& after.layers[i].weights.at(r, c) == pulled_back::<L>(
                        rate,
                        ewc_lambda,
                        fisher[i].f_total_weights.at(r, c),
                        before.layers[i].weights.at(r, c),
                        weights.at(r, c),
                        a.layers[i].weights.at(r, c),
                    )
                    &&& after.layers[i].bias[r] == pulled_back::<L>(
                        rate,
                        ewc_lambda,
                        fisher[i].f_total_bias[r],
                        before.layers[i].bias[r],
                        bias[r],
                        a.layers[i].bias[r],
                    )
                },
                _ => after.layers[i] == a.layers[i],
            }
        }),
{
}

/// The pull goes towards the snapshot: a parameter that was above it does not rise, one
/// that was below it does not fall, and one that stood at it, or that is of no
/// importance, stays. So it is with a rate, a strength and an importance that are not
/// negative, for a parameter within the weight bound.
pub proof fn law_pull_goes_towards_the_snapshot<L: LinAlg>(
    rate: Scalar,
    ewc_lambda: Scalar,
    importance: Scalar,
    before: Scalar,
    snapshot: Scalar,
    now: Scalar,
)
    requires
        lit(ZERO).le(rate),
        lit(ZERO).le(ewc_lambda),
        lit(ZERO).le(importance),
        now.within(lit(WEIGHT_CLIP).neg(), lit(WEIGHT_CLIP)),
    ensures
        ({
            let after = pulled_back::<L>(rate, ewc_lambda, importance, before, snapshot, now);
            &&& snapshot.le(before) ==> after.not_above(now)
            &&& before.le(snapshot) ==> after.not_below(now)
            &&& before.is_finite() && before.num_eq(snapshot) && L::times(
                L::times(rate, ewc_lambda),
                importance,
            ).is_finite() ==> after.num_eq(now)
            &&& importance.num_eq(lit(ZERO)) && L::times(rate, ewc_lambda).is_finite() && L::minus(
                before,
                snapshot,
            ).is_finite() ==> after.num_eq(now)
        }),
{
    let strength = L::times(rate, ewc_lambda);
    let weight = L::times(strength, importance);
    let gap = L::minus(before, snapshot);
    let pull = L::times(weight, gap);
    L::equals_agree(rate, ewc_lambda, rate, ewc_lambda);
    L::equals_agree(strength, importance, strength, importance);
    L::equals_agree(before, snapshot, before, snapshot);
    L::equals_agree(weight, gap, weight, gap);
    L::equals_agree(gap, weight, gap, weight);
    L::equals_agree(now, pull, now, pull);
    if before.is_finite() && before.num_eq(snapshot) && weight.is_finite() {
        L::equals_cancel(before, snapshot);
        L::zero_absorbs(weight, gap);
    }
    if importance.num_eq(lit(ZERO)) && strength.is_finite() && gap.is_finite() {
        L::zero_absorbs(strength, importance);
        L::zero_absorbs(gap, weight);
    }
}

/// The logarithm of a softmax is each entry less the logarithm of the sum of all
/// exponentials, which is taken relative to the largest entry. Returns that logarithm.
pub proof fn law_log_softmax<L: LinAlg>(x: Seq<Scalar>) -> (lse: Scalar)
    ensures
        log_softmax::<L>(x).len() == x.len(),
        forall|i: int|
            #![trigger log_softmax::<L>(x)[i]]
            0 <= i < x.len() ==> log_softmax::<L>(x)[i] == L::minus(x[i], lse),
        exists|shifted: Seq<Scalar>|
            {
                &&& shifted.len() == x.len()
                &&& forall|i: int|
                    #![trigger shifted[i]]
                    0 <= i < x.len() ==> shifted[i] == L::exp(
                        L::minus(x[i], max_upto(x, x.len())),
                    )
                &&& lse == L::plus(
                    L::log(#[trigger] sum_upto::<L>(shifted, x.len())),
                    max_upto(x, x.len()),
                )
            },
{
    let max = max_upto(x, x.len());
    let shifted = Seq::new(x.len(), |i: int| L::exp(L::minus(x[i], max)));
    let lse = L::plus(L::log(sum_upto::<L>(shifted, x.len())), max);
    assert(sum_upto::<L>(shifted, x.len()) == sum_upto::<L>(shifted, x.len()));
    lse
}

/// The largest of a list is not below any of its numbers, and is one of them or, where
/// there are none, minus infinity.
pub proof fn law_largest_of_a_list(x: Seq<Scalar>, k: nat, i: int)
    requires
        0 <= i < k <= x.len(),
        !x[i].is_nan(),
    ensures
        x[i].le(max_upto(x, k)),
        exists|j: int| 0 <= j < k && max_upto(x, k) == #[trigger] x[j],
    decreases k,
{
    lemma_largest_is_known(x, (k - 1) as nat);
    lemma_largest_is_known(x, k);
    if i < k - 1 {
        law_largest_of_a_list(x, (k - 1) as nat, i);
    }
    if forall|j: int| 0 <= j < k ==> max_upto(x, k) != #[trigger] x[j] {
        assert(max_upto(x, k) != x[i]);
    }
}

proof fn lemma_largest_is_known(x: Seq<Scalar>, k: nat)
    requires
        k <= x.len(),
    ensures
        max_upto(x, k) == lit(NEG_INFINITY) || exists|j: int|
            0 <= j < k && max_upto(x, k) == #[trigger] x[j],
    decreases k,
{
    if k > 0 {
        lemma_largest_is_known(x, (k - 1) as nat);
        if max_upto(x, k) == x[k - 1] {
        } else if max_upto(x, (k - 1) as nat) != lit(NEG_INFINITY) {
            let j = choose|j: int|
                0 <= j < k - 1 && max_upto(x, (k - 1) as nat) == #[trigger] x[j];
            assert(max_upto(x, k) == x[j]);
        }
    }
}

/// The pull of a reference on the valid actions. With the log-probabilities of both
/// policies over the valid actions, at the given temperature, it is the probability of
/// the action times what its log-ratio exceeds the divergence by; the divergence is the
/// sum of the probabilities times their log-ratios. Where an entry is not finite there
/// is no pull at all. Returns the log-probabilities of both policies, the terms of the
/// divergence and the entries.
pub proof fn law_pull_of_a_reference<L: LinAlg>(
    y: Seq<Scalar>,
    target: Seq<Scalar>,
    valid: Seq<usize>,
    temp: Scalar,
    i: int,
) -> (r: (Seq<Scalar>, Seq<Scalar>, Seq<Scalar>, Seq<Scalar>))
    requires
        0 <= i < valid.len(),
        forall|j: int, k: int|
            0 <= j < k < valid.len() ==> #[trigger] valid[j] != #[trigger] valid[k],
        forall|j: int| 0 <= j < valid.len() ==> (#[trigger] valid[j] as int) < y.len(),
    ensures
        ({
            let (live, wanted, terms, entries) = r;
            let g = kl_gradient::<L>(y, target, valid, temp);
            let n = valid.len();
            &&& live == log_softmax::<L>(Seq::new(n, |j: int| L::over(y[valid[j] as int], temp)))
            &&& wanted == log_softmax::<L>(
                Seq::new(n, |j: int| L::over(target[valid[j] as int], temp)),
            )
            &&& terms.len() == n
            &&& forall|j: int|
                #![trigger terms[j]]
                0 <= j < n ==> terms[j] == L::times(
                    L::exp(live[j]),
                    L::minus(live[j], wanted[j]),
                )
            &&& entries.len() == n
            &&& forall|j: int|
                #![trigger entries[j]]
                0 <= j < n ==> entries[j] == L::times(
                    L::exp(live[j]),
                    L::minus(L::minus(live[j], wanted[j]), sum_upto::<L>(terms, n)),
                )
            &&& g.len() == y.len()
            &&& (forall|j: int| 0 <= j < n ==> (#[trigger] entries[j]).is_finite())
                ==> g[valid[i] as int] == entries[i]
            &&& !entries[i].is_finite() ==> forall|k: int|
                0 <= k < g.len() ==> #[trigger] g[k] == lit(ZERO)
        }),
{
    let live = log_softmax::<L>(logits::<L>(y, valid, temp));
    let wanted = log_softmax::<L>(logits::<L>(target, valid, temp));
    let terms = Seq::new(
        live.len(),
        |j: int| L::times(L::exp(live[j]), L::minus(live[j], wanted[j])),
    );
    let g = divergence_gradient::<L>(live, wanted);
    let full = scattered(g, valid, y.len(), valid.len());
    lemma_scattered(g, valid, y.len(), valid.len(), i);
    assert(!full[valid[i] as int].is_finite() ==> !all_finite(full));
    if forall|j: int| 0 <= j < g.len() ==> (#[trigger] g[j]).is_finite() {
        lemma_scattered_is_finite(g, valid, y.len(), valid.len());
    }
    assert(logits::<L>(y, valid, temp) =~= Seq::new(
        valid.len(),
        |j: int| L::over(y[valid[j] as int], temp),
    ));
    assert(logits::<L>(target, valid, temp) =~= Seq::new(
        valid.len(),
        |j: int| L::over(target[valid[j] as int], temp),
    ));
    (live, wanted, terms, g)
}

proof fn lemma_scattered_is_finite(g: Seq<Scalar>, valid: Seq<usize>, n: nat, k: nat)
    requires
        k <= valid.len(),
        k <= g.len(),
        forall|j: int| 0 <= j < g.len() ==> (#[trigger] g[j]).is_finite(),
        forall|j: int| 0 <= j < valid.len() ==> (#[trigger] valid[j] as int) < n,
    ensures
        scattered(g, valid, n, k).len() == n,
        all_finite(scattered(g, valid, n, k)),
    decreases k,
{
    if k > 0 {
        lemma_scattered_is_finite(g, valid, n, (k - 1) as nat);
        assert(g[k - 1].is_finite());
        assert((valid[k - 1] as int) < n);
    }
}

proof fn lemma_scattered(g: Seq<Scalar>, valid: Seq<usize>, n: nat, k: nat, i: int)
    requires
        0 <= i < k <= valid.len(),
        forall|j: int, l: int|
            0 <= j < l < valid.len() ==> #[trigger] valid[j] != #[trigger] valid[l],
        forall|j: int| 0 <= j < valid.len() ==> (#[trigger] valid[j] as int) < n,
    ensures
        scattered(g, valid, n, k).len() == n,
        scattered(g, valid, n, k)[valid[i] as int] == g[i],
    decreases k,
{
    lemma_scattered_len(g, valid, n, (k - 1) as nat);
    if i < k - 1 {
        lemma_scattered(g, valid, n, (k - 1) as nat, i);
        assert(valid[i] != valid[k - 1]);
    }
}

proof fn lemma_scattered_len(g: Seq<Scalar>, valid: Seq<usize>, n: nat, k: nat)
    requires
        k <= valid.len(),
        forall|j: int| 0 <= j < valid.len() ==> (#[trigger] valid[j] as int) < n,
    ensures
        scattered(g, valid, n, k).len() == n,
    decreases k,
{
    if k > 0 {
        lemma_scattered_len(g, valid, n, (k - 1) as nat);
    }
}

/// A reference that is there and counts adds `lambda` times its pull, read off its own
/// inference on the same input, to each entry of the signal. Without a reference, or
/// where `lambda` is not positive, the signal stays.
pub proof fn law_distillation<L: LinAlg>(
    delta: Seq<Scalar>,
    anchor: Option<PcActor<L>>,
    lambda: Scalar,
    input: Seq<Scalar>,
    y: Seq<Scalar>,
    valid: Seq<usize>,
    temp: Scalar,
    j: int,
)
    requires
        0 <= j < delta.len(),
    ensures
        ({
            let after = distilled::<L>(delta, anchor, lambda, input, y, valid, temp);
            &&& after.len() == delta.len()
            &&& anchor is None || !lit(ZERO).lt(lambda) ==> after == delta
            &&& anchor is Some && lit(ZERO).lt(lambda) ==> after[j] == L::plus(
                delta[j],
                L::times(
                    lambda,
                    kl_gradient::<L>(
                        y,
                        inference::<L>(anchor->0@, anchor->0.config@, input).y_conv,
                        valid,
                        temp,
                    )[j],
                ),
            )
        }),
{
}

/// A slow copy of the actor follows where the actor could move at all, the sizes agree
/// and `tau` is not zero. Then every weight, bias, scale and projection is `tau` parts of
/// the actor's and `1 - tau` parts of what it was.
pub proof fn law_follower<L: LinAlg>(
    follower: ActorView,
    actor: ActorView,
    tau: Scalar,
    scale: Scalar,
    i: int,
    r: int,
    c: int,
)
    requires
        0 <= i < follower.layers.len(),
        0 <= r < actor.layers[i].weights.rows,
        0 <= c < actor.layers[i].weights.cols,
        r < actor.layers[i].bias.len(),
    ensures
        ({
            let after = follower_after::<L>(follower, actor, tau, scale);
            let rest = L::minus(lit(ONE), tau);
            let moves = lit(ZERO).lt(scale) && topology_gap(follower, actor) is None
                && !tau.num_eq(lit(ZERO));
            &&& !moves ==> after == follower
            &&& moves ==> {
                &&& after.layers.len() == follower.layers.len()
                &&& after.layers[i].activation == follower.layers[i].activation
                &&& after.layers[i].weights.at(r, c) == L::plus(
                    L::times(tau, actor.layers[i].weights.at(r, c)),
                    L::times(rest, follower.layers[i].weights.at(r, c)),
                )
                &&& after.layers[i].bias[r] == L::plus(
                    L::times(tau, actor.layers[i].bias[r]),
                    L::times(rest, follower.layers[i].bias[r]),
                )
                &&& after.rezero_alpha.len() == actor.rezero_alpha.len()
                &&& forall|s: int|
                    #![trigger after.rezero_alpha[s]]
                    0 <= s < actor.rezero_alpha.len() ==> after.rezero_alpha[s] == L::plus(
                        L::times(tau, actor.rezero_alpha[s]),
                        L::times(rest, follower.rezero_alpha[s]),
                    )
                &&& after.skip_projections.len() == follower.skip_projections.len()
                &&& forall|s: int, y: int, x: int|
                    #![trigger after.skip_projections[s]->0.at(y, x)]
                    0 <= s < follower.skip_projections.len() && follower.skip_projections[s] is Some
                        && actor.skip_projections[s] is Some && 0 <= y
                        < actor.skip_projections[s]->0.rows && 0 <= x
                        < actor.skip_projections[s]->0.cols ==> after.skip_projections[s] is Some
                        && after.skip_projections[s]->0.at(y, x) == L::plus(
                        L::times(tau, actor.skip_projections[s]->0.at(y, x)),
                        L::times(rest, follower.skip_projections[s]->0.at(y, x)),
                    )
                &&& forall|s: int|
                    #![trigger after.skip_projections[s]]
                    0 <= s < follower.skip_projections.len() ==> (after.skip_projections[s] is Some
                        <==> follower.skip_projections[s] is Some)
            }
        }),
{
}

/// Overwriting takes every parameter of the other actor and keeps the activations.
pub proof fn law_overwriting(a: ActorView, other: ActorView, i: int)
    requires
        0 <= i < a.layers.len(),
    ensures
        a.overwritten(other).layers.len() == a.layers.len(),
        a.overwritten(other).layers[i].weights == other.layers[i].weights,
        a.overwritten(other).layers[i].bias == other.layers[i].bias,
        a.overwritten(other).layers[i].activation == a.layers[i].activation,
        a.overwritten(other).rezero_alpha == other.rezero_alpha,
        a.overwritten(other).skip_projections == other.skip_projections,
{
}

} // verus!
