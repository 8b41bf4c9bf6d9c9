//! Networks that do not relax.

use vstd::prelude::*;

use crate::activation::{lemma_activation_agrees, Activation};
use crate::layer::LayerView;
use crate::linalg::{same_list, v_activate, v_add, v_scale, v_sub, LinAlg};
use crate::pc_model::{
    concat_upto, deliberate, inference, readout, relax, rise, surprise_at, sweep, ActorView,
    HiddenView, PcActorConfigView,
};
use crate::scalar::{lit, Scalar, NEG_ZERO, ZERO};

verus! {

/// On input `x` the bottom-up pass leaves a finite prediction error wherever a
/// layer responds with a number.
pub open spec fn errors_finite<L: LinAlg>(
    a: ActorView,
    cfg: PcActorConfigView,
    x: Seq<Scalar>,
) -> bool {
    let h = rise::<L>(a, cfg, x, cfg.depth());
    let y = readout::<L>(a, cfg, x, h);
    forall|i: int, j: int|
        #![trigger h.own(i)[j]]
        0 <= i < cfg.depth() && 0 <= j < h.own(i).len() && !h.own(i)[j].is_nan()
            ==> surprise_at::<L>(a, cfg, y, h, i)[j].is_finite()
}

/// On input `x` no layer responds with a NaN or a negative zero in the bottom-up
/// pass.
pub open spec fn responds_plainly<L: LinAlg>(
    a: ActorView,
    cfg: PcActorConfigView,
    x: Seq<Scalar>,
) -> bool {
    let h = rise::<L>(a, cfg, x, cfg.depth());
    forall|i: int, j: int|
        #![trigger h.own(i)[j]]
        0 <= i < cfg.depth() && 0 <= j < h.own(i).len() ==> !h.own(i)[j].is_nan() && h.own(i)[j]
            != lit(NEG_ZERO)
}

/// Hidden states of the same numbers.
pub open spec fn same_hidden(h: HiddenView, g: HiddenView) -> bool {
    &&& h.states.len() == g.states.len()
    &&& h.responses.len() == g.responses.len()
    &&& forall|i: int|
        #![trigger h.states[i]]
        #![trigger g.states[i]]
        0 <= i < h.states.len() ==> same_list(h.states[i], g.states[i])
    &&& forall|i: int|
        #![trigger h.responses[i]]
        #![trigger g.responses[i]]
        0 <= i < h.responses.len() ==> match (h.responses[i], g.responses[i]) {
            (Some(u), Some(v)) => same_list(u, v),
            (None, None) => true,
            _ => false,
        }
}

/// A network that does not relax, because `alpha` is zero, is a feed-forward
/// network: inference ends with the numbers of the bottom-up pass in every state
/// and in the output. Left out are passes in which a number meets an error that is
/// not finite, which a factor of zero does not take away.
pub proof fn law_zero_alpha_is_feed_forward<L: LinAlg>(
    a: ActorView,
    cfg: PcActorConfigView,
    x: Seq<Scalar>,
)
    requires
        a.wf(cfg),
        x.len() == cfg.input_size,
        cfg.alpha.num_eq(lit(ZERO)),
        errors_finite::<L>(a, cfg, x),
    ensures
        ({
            let r = inference::<L>(a, cfg, x);
            let h = rise::<L>(a, cfg, x, cfg.depth());
            &&& same_hidden(r.hidden, h)
            &&& same_list(r.y_conv, readout::<L>(a, cfg, x, h))
            &&& same_list(r.latent_concat, concat_upto(h.states, cfg.depth()))
        }),
{
    let r = inference::<L>(a, cfg, x);
    let h = rise::<L>(a, cfg, x, cfg.depth());
    lemma_rise::<L>(a, cfg, x, cfg.depth());
    lemma_deliberation_agrees::<L>(a, cfg, x, cfg.max_steps as nat);
    lemma_concat_agrees(r.hidden, h, cfg.depth());
}

proof fn lemma_concat_agrees(h: HiddenView, g: HiddenView, k: nat)
    requires
        same_hidden(h, g),
        k <= h.states.len(),
    ensures
        same_list(concat_upto(h.states, k), concat_upto(g.states, k)),
    decreases k,
{
    if k > 0 {
        lemma_concat_agrees(h, g, (k - 1) as nat);
        assert(same_list(h.states[k - 1], g.states[k - 1]));
        let u = concat_upto(h.states, k);
        let v = concat_upto(g.states, k);
        let n = concat_upto(h.states, (k - 1) as nat).len();
        assert forall|i: int| 0 <= i < u.len() implies (#[trigger] u[i]).same_number(v[i]) by {
            if i < n {
                assert(u[i] == concat_upto(h.states, (k - 1) as nat)[i]);
                assert(v[i] == concat_upto(g.states, (k - 1) as nat)[i]);
            } else {
                assert(u[i] == h.states[k - 1][i - n]);
                assert(v[i] == g.states[k - 1][i - n]);
            }
        }
        assert forall|i: int| 0 <= i < u.len() implies u[i].same_number(#[trigger] v[i]) by {
            assert(u[i].same_number(v[i]));
        }
    }
}

proof fn lemma_add_agrees<L: LinAlg>(
    a: Seq<Scalar>,
    b: Seq<Scalar>,
    c: Seq<Scalar>,
    d: Seq<Scalar>,
)
    requires
        same_list(a, c),
        same_list(b, d),
        a.len() == b.len(),
    ensures
        same_list(v_add::<L>(a, b), v_add::<L>(c, d)),
        same_list(v_sub::<L>(a, b), v_sub::<L>(c, d)),
{
    assert forall|i: int| 0 <= i < a.len() implies #[trigger] L::plus(a[i], b[i]).same_number(
        L::plus(c[i], d[i]),
    ) by {
        assert(a[i].same_number(c[i]));
        assert(b[i].same_number(d[i]));
        L::equals_agree(a[i], b[i], c[i], d[i]);
    }
    assert forall|i: int| 0 <= i < a.len() implies #[trigger] L::minus(a[i], b[i]).same_number(
        L::minus(c[i], d[i]),
    ) by {
        assert(a[i].same_number(c[i]));
        assert(b[i].same_number(d[i]));
        L::equals_agree(a[i], b[i], c[i], d[i]);
    }
}

proof fn lemma_activate_agrees<L: LinAlg>(a: Seq<Scalar>, c: Seq<Scalar>, act: Activation)
    requires
        same_list(a, c),
    ensures
        same_list(v_activate::<L>(a, act), v_activate::<L>(c, act)),
{
    assert forall|i: int| 0 <= i < a.len() implies #[trigger] act.value::<L>(a[i]).same_number(
        act.value::<L>(c[i]),
    ) by {
        assert(a[i].same_number(c[i]));
        lemma_activation_agrees::<L>(act, a[i], c[i]);
    }
}

proof fn lemma_forward_agrees<L: LinAlg>(l: LayerView, x: Seq<Scalar>, z: Seq<Scalar>)
    requires
        l.wf(),
        x.len() == l.inputs(),
        same_list(x, z),
    ensures
        same_list(l.forward::<L>(x), l.forward::<L>(z)),
        l.forward::<L>(x).len() == l.outputs(),
{
    L::product_has_one_entry_per_row(l.weights, x);
    L::equal_vectors_agree(l.weights, x, z);
    lemma_add_agrees::<L>(L::product(l.weights, x), l.bias, L::product(l.weights, z), l.bias);
    lemma_activate_agrees::<L>(
        v_add::<L>(L::product(l.weights, x), l.bias),
        v_add::<L>(L::product(l.weights, z), l.bias),
        l.activation,
    );
}

proof fn lemma_expectation_agrees<L: LinAlg>(
    l: LayerView,
    x: Seq<Scalar>,
    z: Seq<Scalar>,
    act: Activation,
)
    requires
        l.wf(),
        x.len() == l.outputs(),
        same_list(x, z),
    ensures
        same_list(l.transpose_forward::<L>(x, act), l.transpose_forward::<L>(z, act)),
        l.transpose_forward::<L>(x, act).len() == l.inputs(),
{
    let w = l.weights.transpose();
    L::product_has_one_entry_per_row(w, x);
    L::equal_vectors_agree(w, x, z);
    lemma_activate_agrees::<L>(L::product(w, x), L::product(w, z), act);
}

proof fn lemma_below_agrees(h: HiddenView, g: HiddenView, x: Seq<Scalar>, i: int)
    requires
        same_hidden(h, g),
        0 <= i <= h.states.len(),
    ensures
        same_list(h.below(x, i), g.below(x, i)),
{
    if i > 0 {
        assert(same_list(h.states[i - 1], g.states[i - 1]));
    }
}

proof fn lemma_own_agrees(h: HiddenView, g: HiddenView, i: int)
    requires
        same_hidden(h, g),
        0 <= i < h.states.len(),
        h.responses.len() == h.states.len(),
    ensures
        same_list(h.own(i), g.own(i)),
{
    assert(same_list(h.states[i], g.states[i]));
    assert(h.responses[i] is Some <==> g.responses[i] is Some);
}

/// Prediction errors of the same states are the same.
proof fn lemma_surprise_agrees<L: LinAlg>(
    a: ActorView,
    cfg: PcActorConfigView,
    x: Seq<Scalar>,
    y: Seq<Scalar>,
    seen: HiddenView,
    i: int,
)
    requires
        a.wf(cfg),
        x.len() == cfg.input_size,
        0 <= i < cfg.depth(),
        same_hidden(seen, rise::<L>(a, cfg, x, cfg.depth())),
        same_list(y, readout::<L>(a, cfg, x, rise::<L>(a, cfg, x, cfg.depth()))),
    ensures
        ({
            let h = rise::<L>(a, cfg, x, cfg.depth());
            same_list(
                surprise_at::<L>(a, cfg, y, seen, i),
                surprise_at::<L>(a, cfg, readout::<L>(a, cfg, x, h), h, i),
            )
        }),
        surprise_at::<L>(a, cfg, y, seen, i).len() == cfg.hidden_layers[i].size,
        seen.own(i).len() == cfg.hidden_layers[i].size,
{
    let n = cfg.depth() as int;
    let h = rise::<L>(a, cfg, x, cfg.depth());
    let out = readout::<L>(a, cfg, x, h);
    lemma_rise::<L>(a, cfg, x, cfg.depth());
    lemma_errors_have_layer_size::<L>(a, cfg, x, i);
    lemma_own_agrees(seen, h, i);
    assert(a.layers[n].wf());
    assert(a.layers[i + 1].wf());
    assert(a.layers[i + 1].outputs() == cfg.fan_out(i + 1));
    assert(a.layers[i + 1].inputs() == cfg.fan_in(i + 1));
    let above = if i == n - 1 {
        y
    } else {
        seen.own(i + 1)
    };
    let above_h = if i == n - 1 {
        out
    } else {
        h.own(i + 1)
    };
    if i < n - 1 {
        lemma_own_agrees(seen, h, i + 1);
        lemma_errors_have_layer_size::<L>(a, cfg, x, i + 1);
    } else {
        assert(h.states[n - 1].len() == cfg.hidden_layers[n - 1].size);
        L::product_has_one_entry_per_row(a.layers[n].weights, h.below(x, n));
    }
    let act = cfg.hidden_layers[i].activation;
    lemma_expectation_agrees::<L>(a.layers[i + 1], above, above_h, act);
    lemma_add_agrees::<L>(
        a.layers[i + 1].transpose_forward::<L>(above, act),
        seen.own(i),
        a.layers[i + 1].transpose_forward::<L>(above_h, act),
        h.own(i),
    );
}

/// States that are the same as those of the bottom-up pass stay so.
proof fn lemma_relax_agrees<L: LinAlg>(
    a: ActorView,
    cfg: PcActorConfigView,
    x: Seq<Scalar>,
    y: Seq<Scalar>,
    seen: HiddenView,
    live: HiddenView,
    i: int,
)
    requires
        a.wf(cfg),
        x.len() == cfg.input_size,
        cfg.alpha.num_eq(lit(ZERO)),
        errors_finite::<L>(a, cfg, x),
        0 <= i < cfg.depth(),
        same_hidden(seen, rise::<L>(a, cfg, x, cfg.depth())),
        same_hidden(live, rise::<L>(a, cfg, x, cfg.depth())),
        same_list(y, readout::<L>(a, cfg, x, rise::<L>(a, cfg, x, cfg.depth()))),
    ensures
        same_hidden(
            relax::<L>(a, cfg, x, y, seen, live, i),
            rise::<L>(a, cfg, x, cfg.depth()),
        ),
{
    let h = rise::<L>(a, cfg, x, cfg.depth());
    let out = readout::<L>(a, cfg, x, h);
    lemma_rise::<L>(a, cfg, x, cfg.depth());
    lemma_surprise_agrees::<L>(a, cfg, x, y, seen, i);
    lemma_own_agrees(seen, h, i);
    lemma_errors_have_layer_size::<L>(a, cfg, x, i);
    let error = surprise_at::<L>(a, cfg, y, seen, i);
    let own = seen.own(i);
    let moved = v_add::<L>(own, v_scale::<L>(error, cfg.alpha));
    assert forall|j: int| 0 <= j < moved.len() implies (#[trigger] moved[j]).same_number(
        h.own(i)[j],
    ) by {
        let plain = surprise_at::<L>(a, cfg, out, h, i);
        assert(own[j].same_number(h.own(i)[j]));
        assert(error[j].same_number(plain[j]));
        if own[j].is_nan() {
            L::infinities_spread(own[j], L::times(error[j], cfg.alpha));
        } else {
            assert(plain[j].is_finite());
            L::zero_absorbs(error[j], cfg.alpha);
            lemma_adding_zero::<L>(own[j], L::times(error[j], cfg.alpha));
        }
    }
    assert(same_list(moved, h.own(i)));
    let next = relax::<L>(a, cfg, x, y, seen, live, i);
    lemma_below_agrees(live, h, x, i);
    lemma_blend_agrees::<L>(a, cfg, i, live.below(x, i), moved, h.below(x, i), h.own(i));
    assert(h.states[i] == a.blend::<L>(cfg, i, h.below(x, i), h.own(i)));
    assert forall|k: int| 0 <= k < next.states.len() implies same_list(
        #[trigger] next.states[k],
        h.states[k],
    ) by {
        if k != i {
            assert(next.states[k] == live.states[k]);
        }
    }
    assert forall|k: int| 0 <= k < next.responses.len() implies match (
        #[trigger] next.responses[k],
        h.responses[k],
    ) {
        (Some(u), Some(v)) => same_list(u, v),
        (None, None) => true,
        _ => false,
    } by {
        if k == i && cfg.skips(i) {
            assert(h.responses[i] is Some);
            assert(h.own(i) == h.responses[i]->0);
        } else {
            assert(next.responses[k] == live.responses[k]);
        }
    }
}

proof fn lemma_blend_agrees<L: LinAlg>(
    a: ActorView,
    cfg: PcActorConfigView,
    i: int,
    below: Seq<Scalar>,
    response: Seq<Scalar>,
    below_h: Seq<Scalar>,
    response_h: Seq<Scalar>,
)
    requires
        a.wf(cfg),
        0 <= i < cfg.depth(),
        same_list(below, below_h),
        same_list(response, response_h),
        i > 0 ==> below.len() == cfg.hidden_layers[i - 1].size,
        response.len() == cfg.hidden_layers[i].size,
    ensures
        same_list(
            a.blend::<L>(cfg, i, below, response),
            a.blend::<L>(cfg, i, below_h, response_h),
        ),
{
    if cfg.skips(i) {
        assert(a.slot_wf(cfg, i - 1));
        if a.skip_projections[i - 1] is Some {
            let p = a.skip_projections[i - 1]->0;
            L::product_has_one_entry_per_row(p, below);
            L::equal_vectors_agree(p, below, below_h);
        }
        let scale = a.rezero_alpha[i - 1];
        let u = v_scale::<L>(response, scale);
        let v = v_scale::<L>(response_h, scale);
        assert forall|j: int| 0 <= j < u.len() implies (#[trigger] u[j]).same_number(v[j]) by {
            assert(response[j].same_number(response_h[j]));
            L::equals_agree(response[j], scale, response_h[j], scale);
        }
        assert(same_list(u, v));
        lemma_add_agrees::<L>(
            a.bypass::<L>(i, below),
            u,
            a.bypass::<L>(i, below_h),
            v,
        );
    }
}

/// Adding a zero changes no number.
proof fn lemma_adding_zero<L: LinAlg>(a: Scalar, b: Scalar)
    requires
        !a.is_nan(),
        b.num_eq(lit(ZERO)),
    ensures
        L::plus(a, b).num_eq(a),
{
    if a == lit(NEG_ZERO) {
        L::equals_agree(a, b, lit(ZERO), b);
        L::zero_is_neutral(lit(ZERO), b);
    } else {
        L::zero_is_neutral(a, b);
    }
}

proof fn lemma_sweep_agrees<L: LinAlg>(
    a: ActorView,
    cfg: PcActorConfigView,
    x: Seq<Scalar>,
    y: Seq<Scalar>,
    before: HiddenView,
    k: nat,
)
    requires
        a.wf(cfg),
        x.len() == cfg.input_size,
        cfg.alpha.num_eq(lit(ZERO)),
        errors_finite::<L>(a, cfg, x),
        k <= cfg.depth(),
        same_hidden(before, rise::<L>(a, cfg, x, cfg.depth())),
        same_list(y, readout::<L>(a, cfg, x, rise::<L>(a, cfg, x, cfg.depth()))),
    ensures
        same_hidden(
            sweep::<L>(a, cfg, x, y, before, k).0,
            rise::<L>(a, cfg, x, cfg.depth()),
        ),
    decreases k,
{
    if k > 0 {
        lemma_sweep_agrees::<L>(a, cfg, x, y, before, (k - 1) as nat);
        let live = sweep::<L>(a, cfg, x, y, before, (k - 1) as nat).0;
        let seen = if cfg.synchronous {
            before
        } else {
            live
        };
        lemma_relax_agrees::<L>(a, cfg, x, y, seen, live, cfg.depth() - k);
    }
}

proof fn lemma_deliberation_agrees<L: LinAlg>(
    a: ActorView,
    cfg: PcActorConfigView,
    x: Seq<Scalar>,
    k: nat,
)
    requires
        a.wf(cfg),
        x.len() == cfg.input_size,
        cfg.alpha.num_eq(lit(ZERO)),
        errors_finite::<L>(a, cfg, x),
    ensures
        ({
            let d = deliberate::<L>(a, cfg, x, k);
            let h = rise::<L>(a, cfg, x, cfg.depth());
            same_hidden(d.hidden, h) && same_list(d.y, readout::<L>(a, cfg, x, h))
        }),
    decreases k,
{
    let h = rise::<L>(a, cfg, x, cfg.depth());
    if k > 0 {
        lemma_deliberation_agrees::<L>(a, cfg, x, (k - 1) as nat);
        let d = deliberate::<L>(a, cfg, x, (k - 1) as nat);
        if !d.converged {
            lemma_sweep_agrees::<L>(a, cfg, x, d.y, d.hidden, cfg.depth());
            let hidden = sweep::<L>(a, cfg, x, d.y, d.hidden, cfg.depth()).0;
            let n = cfg.depth() as int;
            lemma_rise::<L>(a, cfg, x, cfg.depth());
            lemma_below_agrees(hidden, h, x, n);
            assert(a.layers[n].wf());
            assert(a.layers[n].inputs() == cfg.fan_in(n));
            if n > 0 {
                assert(h.states[n - 1].len() == cfg.hidden_layers[n - 1].size);
            }
            lemma_forward_agrees::<L>(a.layers[n], hidden.below(x, n), h.below(x, n));
        }
    }
}

/// Where no response of the bottom-up pass is a NaN or a negative zero, which adding
/// a zero would make positive, a network with `alpha` zero ends with the very states and
/// output of that pass.
pub proof fn law_zero_alpha_keeps_every_sign<L: LinAlg>(
    a: ActorView,
    cfg: PcActorConfigView,
    x: Seq<Scalar>,
)
    requires
        a.wf(cfg),
        x.len() == cfg.input_size,
        cfg.alpha.num_eq(lit(ZERO)),
        errors_finite::<L>(a, cfg, x),
        responds_plainly::<L>(a, cfg, x),
    ensures
        ({
            let r = inference::<L>(a, cfg, x);
            let h = rise::<L>(a, cfg, x, cfg.depth());
            &&& r.hidden == h
            &&& r.y_conv == readout::<L>(a, cfg, x, h)
            &&& r.latent_concat == concat_upto(h.states, cfg.depth())
        }),
{
    lemma_deliberation_rests::<L>(a, cfg, x, cfg.max_steps as nat);
}

proof fn lemma_deliberation_rests<L: LinAlg>(
    a: ActorView,
    cfg: PcActorConfigView,
    x: Seq<Scalar>,
    k: nat,
)
    requires
        a.wf(cfg),
        x.len() == cfg.input_size,
        cfg.alpha.num_eq(lit(ZERO)),
        errors_finite::<L>(a, cfg, x),
        responds_plainly::<L>(a, cfg, x),
    ensures
        ({
            let d = deliberate::<L>(a, cfg, x, k);
            let h = rise::<L>(a, cfg, x, cfg.depth());
            d.hidden == h && d.y == readout::<L>(a, cfg, x, h)
        }),
    decreases k,
{
    if k > 0 {
        lemma_deliberation_rests::<L>(a, cfg, x, (k - 1) as nat);
        lemma_sweep_rests::<L>(a, cfg, x, cfg.depth());
    }
}

proof fn lemma_sweep_rests<L: LinAlg>(
    a: ActorView,
    cfg: PcActorConfigView,
    x: Seq<Scalar>,
    k: nat,
)
    requires
        a.wf(cfg),
        x.len() == cfg.input_size,
        cfg.alpha.num_eq(lit(ZERO)),
        errors_finite::<L>(a, cfg, x),
        responds_plainly::<L>(a, cfg, x),
        k <= cfg.depth(),
    ensures
        ({
            let h = rise::<L>(a, cfg, x, cfg.depth());
            let y = readout::<L>(a, cfg, x, h);
            sweep::<L>(a, cfg, x, y, h, k).0 == h
        }),
    decreases k,
{
    if k > 0 {
        lemma_sweep_rests::<L>(a, cfg, x, (k - 1) as nat);
        let h = rise::<L>(a, cfg, x, cfg.depth());
        let y = readout::<L>(a, cfg, x, h);
        let i = cfg.depth() - k;
        lemma_rise::<L>(a, cfg, x, cfg.depth());
        lemma_errors_have_layer_size::<L>(a, cfg, x, i);
        let error = surprise_at::<L>(a, cfg, y, h, i);
        let moved = v_add::<L>(h.own(i), v_scale::<L>(error, cfg.alpha));
        assert forall|j: int| 0 <= j < h.own(i).len() implies #[trigger] moved[j] == h.own(
            i,
        )[j] by {
            L::zero_absorbs(error[j], cfg.alpha);
            L::zero_is_neutral(h.own(i)[j], L::times(error[j], cfg.alpha));
        }
        assert(moved =~= h.own(i));
        let rested = relax::<L>(a, cfg, x, y, h, h, i);
        assert(h.states[i] == a.blend::<L>(cfg, i, h.below(x, i), h.own(i)));
        assert(rested.states =~= h.states);
        assert(rested.responses =~= h.responses);
    }
}

/// The bottom-up pass gives every layer its size and blends its own response.
proof fn lemma_rise<L: LinAlg>(a: ActorView, cfg: PcActorConfigView, x: Seq<Scalar>, k: nat)
    requires
        a.wf(cfg),
        x.len() == cfg.input_size,
        k <= cfg.depth(),
    ensures
        ({
            let h = rise::<L>(a, cfg, x, k);
            &&& h.wf(cfg, k)
            &&& forall|i: int|
                #![trigger h.states[i]]
                0 <= i < k ==> h.states[i] == a.blend::<L>(cfg, i, h.below(x, i), h.own(i))
        }),
    decreases k,
{
    if k > 0 {
        lemma_rise::<L>(a, cfg, x, (k - 1) as nat);
        let before = rise::<L>(a, cfg, x, (k - 1) as nat);
        let h = rise::<L>(a, cfg, x, k);
        let below = before.below(x, k - 1);
        assert(a.layers[k - 1].wf());
        assert(a.layers[k - 1].inputs() == cfg.fan_in(k - 1));
        assert(below.len() == cfg.fan_in(k - 1)) by {
            if k > 1 {
                assert(before.states[k - 2].len() == cfg.hidden_layers[k - 2].size);
            }
        }
        L::product_has_one_entry_per_row(a.layers[k - 1].weights, below);
        if cfg.skips(k - 1) {
            assert(a.slot_wf(cfg, k - 2));
            if a.skip_projections[k - 2] is Some {
                L::product_has_one_entry_per_row(a.skip_projections[k - 2]->0, below);
            }
        }
        assert forall|i: int| 0 <= i < k implies #[trigger] h.states[i] == a.blend::<L>(
            cfg,
            i,
            h.below(x, i),
            h.own(i),
        ) by {
            if i < k - 1 {
                assert(h.states[i] == before.states[i]);
                assert(h.responses[i] == before.responses[i]);
                assert(h.below(x, i) == before.below(x, i));
            }
        }
    }
}

proof fn lemma_errors_have_layer_size<L: LinAlg>(
    a: ActorView,
    cfg: PcActorConfigView,
    x: Seq<Scalar>,
    i: int,
)
    requires
        a.wf(cfg),
        x.len() == cfg.input_size,
        0 <= i < cfg.depth(),
    ensures
        ({
            let h = rise::<L>(a, cfg, x, cfg.depth());
            let y = readout::<L>(a, cfg, x, h);
            &&& surprise_at::<L>(a, cfg, y, h, i).len() == cfg.hidden_layers[i].size
            &&& h.own(i).len() == cfg.hidden_layers[i].size
        }),
{
    let h = rise::<L>(a, cfg, x, cfg.depth());
    let y = readout::<L>(a, cfg, x, h);
    let n = cfg.depth() as int;
    lemma_rise::<L>(a, cfg, x, cfg.depth());
    assert(h.states[i].len() == cfg.hidden_layers[i].size);
    assert(h.responses[i] is Some ==> h.responses[i]->0.len() == cfg.hidden_layers[i].size);
    assert(a.layers[n].wf());
    assert(h.states[n - 1].len() == cfg.hidden_layers[n - 1].size);
    L::product_has_one_entry_per_row(a.layers[n].weights, h.below(x, n));
    let above = if i == n - 1 {
        y
    } else {
        h.own(i + 1)
    };
    if i < n - 1 {
        assert(h.states[i + 1].len() == cfg.hidden_layers[i + 1].size);
        assert(h.responses[i + 1] is Some ==> h.responses[i + 1]->0.len()
            == cfg.hidden_layers[i + 1].size);
    }
    assert(a.layers[i + 1].wf());
    assert(a.layers[i + 1].outputs() == cfg.fan_out(i + 1));
    L::product_has_one_entry_per_row(a.layers[i + 1].weights.transpose(), above);
}

} // verus!
