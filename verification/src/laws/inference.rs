//! Laws of predictive-coding inference.

use vstd::prelude::*;

use crate::linalg::LinAlg;
use crate::pc_model::{
    concat_upto, deliberate, inference, lemma_deliberate_stable, relax, rise, sweep, ActorView,
    HiddenView, PcActorConfigView,
};
use crate::scalar::{lit, Scalar, NEG_ZERO, ONE, ZERO};

verus! {

/// The state of hidden layer `i`, given the state below it and its own response:
/// the response itself, or in a residual network, above the first layer, the
/// (projected) state below plus the scaled response.
pub open spec fn is_state_of<L: LinAlg>(
    state: Seq<Scalar>,
    a: ActorView,
    cfg: PcActorConfigView,
    i: int,
    below: Seq<Scalar>,
    response: Seq<Scalar>,
) -> bool {
    if cfg.residual && i >= 1 {
        let carried = match a.skip_projections[i - 1] {
            Some(p) => L::product(p, below),
            None => below,
        };
        &&& state.len() == carried.len()
        &&& forall|j: int|
            #![trigger state[j]]
            0 <= j < state.len() && j < response.len() ==> state[j] == L::plus(
                carried[j],
                L::times(response[j], a.rezero_alpha[i - 1]),
            )
    } else {
        state == response
    }
}

/// Hidden layer `i` keeps its own response apart exactly where it is a skip layer.
pub open spec fn keeps_responses(h: HiddenView, cfg: PcActorConfigView) -> bool {
    &&& h.states.len() == cfg.depth()
    &&& h.responses.len() == cfg.depth()
    &&& forall|i: int|
        #![trigger h.responses[i]]
        0 <= i < cfg.depth() ==> (h.responses[i] is Some <==> cfg.residual && i >= 1)
    &&& forall|i: int|
        #![trigger h.own(i)]
        0 <= i < cfg.depth() ==> h.own(i) == if cfg.residual && i >= 1 {
            h.responses[i]->0
        } else {
            h.states[i]
        }
}

/// The bottom-up pass feeds every layer the state below it, the first one the
/// input.
pub proof fn law_bottom_up_pass<L: LinAlg>(
    a: ActorView,
    cfg: PcActorConfigView,
    x: Seq<Scalar>,
    i: int,
)
    requires
        0 <= i < cfg.depth(),
    ensures
        ({
            let h = rise::<L>(a, cfg, x, cfg.depth());
            let below = if i == 0 {
                x
            } else {
                h.states[i - 1]
            };
            &&& keeps_responses(h, cfg)
            &&& h.own(i) == a.layers[i].forward::<L>(below)
            &&& is_state_of::<L>(h.states[i], a, cfg, i, below, h.own(i))
        }),
{
    lemma_rise::<L>(a, cfg, x, cfg.depth(), i);
    assert forall|k: int| 0 <= k < cfg.depth() implies (
    #[trigger] rise::<L>(a, cfg, x, cfg.depth()).responses[k] is Some <==> cfg.residual && k >= 1) by {
        lemma_rise::<L>(a, cfg, x, cfg.depth(), k);
    }
}

proof fn lemma_rise<L: LinAlg>(
    a: ActorView,
    cfg: PcActorConfigView,
    x: Seq<Scalar>,
    k: nat,
    i: int,
)
    requires
        0 <= i < k,
    ensures
        ({
            let h = rise::<L>(a, cfg, x, k);
            let below = if i == 0 {
                x
            } else {
                h.states[i - 1]
            };
            &&& h.states.len() == k
            &&& h.responses.len() == k
            &&& h.responses[i] is Some <==> cfg.residual && i >= 1
            &&& h.own(i) == a.layers[i].forward::<L>(below)
            &&& is_state_of::<L>(h.states[i], a, cfg, i, below, h.own(i))
        }),
    decreases k,
{
    let h = rise::<L>(a, cfg, x, k);
    let before = rise::<L>(a, cfg, x, (k - 1) as nat);
    if i < k - 1 {
        lemma_rise::<L>(a, cfg, x, (k - 1) as nat, i);
        assert(h.states[i] == before.states[i]);
        assert(h.responses[i] == before.responses[i]);
        if i > 0 {
            assert(h.states[i - 1] == before.states[i - 1]);
        }
    } else {
        if k > 1 {
            lemma_rise::<L>(a, cfg, x, (k - 1) as nat, k - 2);
            assert(h.states[k - 2] == before.states[k - 2]);
        }
    }
}

/// What the layer above, read backwards, expects of hidden layer `i`, when the
/// states were `before` with the output `y`. A synchronous network reads the layer
/// above as it was, an in-place network as it has become in `after`.
pub open spec fn expectation<L: LinAlg>(
    a: ActorView,
    cfg: PcActorConfigView,
    y: Seq<Scalar>,
    before: HiddenView,
    after: HiddenView,
    i: int,
) -> Seq<Scalar> {
    a.layers[i + 1].transpose_forward::<L>(
        if i == cfg.depth() - 1 {
            y
        } else if cfg.synchronous {
            before.own(i + 1)
        } else {
            after.own(i + 1)
        },
        cfg.hidden_layers[i].activation,
    )
}

/// One step of inference. Every hidden layer, not only the topmost one, moves by
/// `alpha` times its prediction error, which is the expectation of the layer above
/// less what the layer itself stood at. Its state is what it now responds with on
/// top of the state below from before the step. The output is read off the new
/// topmost state, and the loop ends where the root mean square of all errors is
/// below `tol` after at least `min_steps` steps of a positive `alpha`.
pub proof fn law_one_step_of_inference<L: LinAlg>(
    a: ActorView,
    cfg: PcActorConfigView,
    x: Seq<Scalar>,
    k: nat,
    i: int,
)
    requires
        !deliberate::<L>(a, cfg, x, k).converged,
        0 <= i < cfg.depth(),
    ensures
        ({
            let d = deliberate::<L>(a, cfg, x, k);
            let n = deliberate::<L>(a, cfg, x, k + 1);
            let own = d.hidden.own(i);
            let moved = n.hidden.own(i);
            let expected = expectation::<L>(a, cfg, d.y, d.hidden, n.hidden, i);
            let error = n.errors[cfg.depth() - 1 - i];
            let below = if i == 0 {
                x
            } else {
                d.hidden.states[i - 1]
            };
            &&& keeps_responses(n.hidden, cfg)
            &&& n.errors.len() == cfg.depth()
            &&& error.len() == expected.len()
            &&& moved.len() == own.len()
            &&& forall|j: int|
                #![trigger error[j]]
                0 <= j < expected.len() ==> error[j] == L::minus(expected[j], own[j])
            &&& forall|j: int|
                #![trigger moved[j]]
                0 <= j < own.len() && j < expected.len() ==> moved[j] == L::plus(
                    own[j],
                    L::times(L::minus(expected[j], own[j]), cfg.alpha),
                )
            &&& is_state_of::<L>(n.hidden.states[i], a, cfg, i, below, moved)
            &&& n.y == a.layers[cfg.depth() as int].forward::<L>(
                n.hidden.states[cfg.depth() - 1],
            )
            &&& n.surprise == L::rms(n.errors)
            &&& n.steps == k + 1
            &&& n.converged <==> lit(ZERO).lt(cfg.alpha) && k + 1 >= cfg.min_steps
                && n.surprise.lt(cfg.tol)
        }),
{
    lemma_deliberation_keeps_responses::<L>(a, cfg, x, k);
    let d = deliberate::<L>(a, cfg, x, k);
    lemma_sweep::<L>(a, cfg, x, d.y, d.hidden, cfg.depth());
    lemma_swept_layer::<L>(a, cfg, x, d.y, d.hidden, cfg.depth(), i);
}

proof fn lemma_deliberation_keeps_responses<L: LinAlg>(
    a: ActorView,
    cfg: PcActorConfigView,
    x: Seq<Scalar>,
    k: nat,
)
    ensures
        keeps_responses(deliberate::<L>(a, cfg, x, k).hidden, cfg),
    decreases k,
{
    if k == 0 {
        let h = rise::<L>(a, cfg, x, cfg.depth());
        if cfg.depth() > 0 {
            law_bottom_up_pass::<L>(a, cfg, x, 0);
        }
    } else {
        lemma_deliberation_keeps_responses::<L>(a, cfg, x, (k - 1) as nat);
        let d = deliberate::<L>(a, cfg, x, (k - 1) as nat);
        lemma_sweep::<L>(a, cfg, x, d.y, d.hidden, cfg.depth());
    }
}

proof fn lemma_sweep<L: LinAlg>(
    a: ActorView,
    cfg: PcActorConfigView,
    x: Seq<Scalar>,
    y: Seq<Scalar>,
    before: HiddenView,
    k: nat,
)
    requires
        keeps_responses(before, cfg),
        k <= cfg.depth(),
    ensures
        ({
            let (after, errors) = sweep::<L>(a, cfg, x, y, before, k);
            &&& keeps_responses(after, cfg)
            &&& errors.len() == k
            &&& forall|i: int|
                #![trigger after.states[i]]
                0 <= i < cfg.depth() - k ==> after.states[i] == before.states[i]
            &&& forall|i: int|
                #![trigger after.responses[i]]
                0 <= i < cfg.depth() - k ==> after.responses[i] == before.responses[i]
        }),
    decreases k,
{
    if k > 0 {
        lemma_sweep::<L>(a, cfg, x, y, before, (k - 1) as nat);
        let (live, errors) = sweep::<L>(a, cfg, x, y, before, (k - 1) as nat);
        let (after, _) = sweep::<L>(a, cfg, x, y, before, k);
        let p = cfg.depth() - k;
        assert(live.responses[p] is Some <==> cfg.residual && p >= 1);
        assert forall|i: int| 0 <= i < cfg.depth() implies (#[trigger] after.responses[i] is Some
            <==> cfg.residual && i >= 1) by {
            assert(live.responses[i] is Some <==> cfg.residual && i >= 1);
        }
        assert forall|i: int| 0 <= i < p implies #[trigger] after.states[i]
            == before.states[i] by {
            assert(after.states[i] == live.states[i]);
        }
        assert forall|i: int| 0 <= i < p implies #[trigger] after.responses[i]
            == before.responses[i] by {
            assert(after.responses[i] == live.responses[i]);
        }
    }
}

/// Layer `i` after the `k` topmost layers, itself among them, were relaxed.
proof fn lemma_swept_layer<L: LinAlg>(
    a: ActorView,
    cfg: PcActorConfigView,
    x: Seq<Scalar>,
    y: Seq<Scalar>,
    before: HiddenView,
    k: nat,
    i: int,
)
    requires
        keeps_responses(before, cfg),
        k <= cfg.depth(),
        cfg.depth() - k <= i < cfg.depth(),
    ensures
        ({
            let (after, errors) = sweep::<L>(a, cfg, x, y, before, k);
            let own = before.own(i);
            let moved = after.own(i);
            let expected = expectation::<L>(a, cfg, y, before, after, i);
            let error = errors[cfg.depth() - 1 - i];
            let below = if i == 0 {
                x
            } else {
                before.states[i - 1]
            };
            &&& error.len() == expected.len()
            &&& moved.len() == own.len()
            &&& forall|j: int|
                #![trigger error[j]]
                0 <= j < expected.len() ==> error[j] == L::minus(expected[j], own[j])
            &&& forall|j: int|
                #![trigger moved[j]]
                0 <= j < own.len() && j < expected.len() ==> moved[j] == L::plus(
                    own[j],
                    L::times(L::minus(expected[j], own[j]), cfg.alpha),
                )
            &&& is_state_of::<L>(after.states[i], a, cfg, i, below, moved)
        }),
    decreases k,
{
    lemma_sweep::<L>(a, cfg, x, y, before, (k - 1) as nat);
    lemma_sweep::<L>(a, cfg, x, y, before, k);
    let (live, errors) = sweep::<L>(a, cfg, x, y, before, (k - 1) as nat);
    let (after, all) = sweep::<L>(a, cfg, x, y, before, k);
    let p = cfg.depth() - k;
    assert(live.responses[p] is Some <==> cfg.residual && p >= 1);
    if i > p {
        lemma_swept_layer::<L>(a, cfg, x, y, before, (k - 1) as nat, i);
        assert(after.states[i] == live.states[i]);
        assert(after.responses[i] == live.responses[i]);
        assert(after.own(i) == live.own(i));
        assert(all[cfg.depth() - 1 - i] == errors[cfg.depth() - 1 - i]);
        if i < cfg.depth() - 1 {
            assert(after.states[i + 1] == live.states[i + 1]);
            assert(after.responses[i + 1] == live.responses[i + 1]);
            assert(after.own(i + 1) == live.own(i + 1));
        }
    } else {
        let seen = if cfg.synchronous {
            before
        } else {
            live
        };
        assert(after == relax::<L>(a, cfg, x, y, seen, live, p));
        assert(live.states[p] == before.states[p]);
        assert(live.responses[p] == before.responses[p]);
        assert(seen.own(p) == before.own(p));
        assert(all[cfg.depth() - 1 - p] == all[k - 1]);
        if p > 0 {
            assert(live.states[p - 1] == before.states[p - 1]);
        }
        if p < cfg.depth() - 1 {
            assert(after.states[p + 1] == live.states[p + 1]);
            assert(after.responses[p + 1] == live.responses[p + 1]);
            assert(after.own(p + 1) == live.own(p + 1));
        }
        assert(before.responses[p] is Some <==> cfg.residual && p >= 1);
    }
}

/// Relaxation moves every component of every hidden layer towards what the layer
/// above expects, never away from it: with `alpha` not negative a component below
/// its expectation does not fall and one above it does not rise. A component that
/// stands at its expectation stays. With `alpha` one it goes by the whole error.
pub proof fn law_states_move_towards_their_expectation<L: LinAlg>(
    a: ActorView,
    cfg: PcActorConfigView,
    x: Seq<Scalar>,
    k: nat,
    i: int,
    j: int,
)
    requires
        !deliberate::<L>(a, cfg, x, k).converged,
        0 <= i < cfg.depth(),
        0 <= j < deliberate::<L>(a, cfg, x, k).hidden.own(i).len(),
        ({
            let d = deliberate::<L>(a, cfg, x, k);
            let n = deliberate::<L>(a, cfg, x, k + 1);
            j < expectation::<L>(a, cfg, d.y, d.hidden, n.hidden, i).len()
        }),
        lit(ZERO).le(cfg.alpha),
    ensures
        ({
            let d = deliberate::<L>(a, cfg, x, k);
            let n = deliberate::<L>(a, cfg, x, k + 1);
            let own = d.hidden.own(i)[j];
            let moved = n.hidden.own(i)[j];
            let expected = expectation::<L>(a, cfg, d.y, d.hidden, n.hidden, i)[j];
            &&& own.le(expected) ==> moved.not_below(own)
            &&& expected.le(own) ==> moved.not_above(own)
            &&& expected.is_finite() && own.num_eq(expected) && cfg.alpha.is_finite()
                ==> moved.num_eq(own)
            &&& cfg.alpha == lit(ONE) ==> moved.same_number(
                L::plus(own, L::minus(expected, own)),
            )
        }),
{
    law_one_step_of_inference::<L>(a, cfg, x, k, i);
    let d = deliberate::<L>(a, cfg, x, k);
    let n = deliberate::<L>(a, cfg, x, k + 1);
    let own = d.hidden.own(i)[j];
    let moved = n.hidden.own(i)[j];
    let expected = expectation::<L>(a, cfg, d.y, d.hidden, n.hidden, i)[j];
    let error = L::minus(expected, own);
    let step = L::times(error, cfg.alpha);
    assert(moved == L::plus(own, step));
    L::equals_agree(expected, own, expected, own);
    L::equals_agree(error, cfg.alpha, error, cfg.alpha);
    L::equals_agree(own, step, own, step);
    if expected.is_finite() && own.num_eq(expected) && cfg.alpha.is_finite() {
        L::equals_cancel(expected, own);
        L::zero_absorbs(cfg.alpha, error);
        L::equals_agree(cfg.alpha, error, cfg.alpha, error);
        let from = if own == lit(NEG_ZERO) {
            lit(ZERO)
        } else {
            own
        };
        L::equals_agree(own, step, from, step);
        L::zero_is_neutral(from, step);
    }
    if cfg.alpha == lit(ONE) {
        L::equals_agree(own, step, own, error);
    }
}

/// Inference starts from the bottom-up pass: no step taken, no error known.
pub proof fn law_inference_starts_bottom_up<L: LinAlg>(
    a: ActorView,
    cfg: PcActorConfigView,
    x: Seq<Scalar>,
)
    ensures
        ({
            let d = deliberate::<L>(a, cfg, x, 0);
            &&& d.hidden == rise::<L>(a, cfg, x, cfg.depth())
            &&& d.y == a.layers[cfg.depth() as int].forward::<L>(
                if cfg.depth() == 0 {
                    x
                } else {
                    d.hidden.states[cfg.depth() - 1]
                },
            )
            &&& d.errors.len() == 0
            &&& d.surprise == lit(ZERO)
            &&& d.steps == 0
            &&& !d.converged
        }),
{
}

/// Inference ends at the first step that converged, and after `max_steps` steps at
/// the latest. Its result is where the loop then stands: the output, the states
/// one after the other from the input upwards, the errors of the last step and
/// their root mean square.
pub proof fn law_result_of_inference<L: LinAlg>(
    a: ActorView,
    cfg: PcActorConfigView,
    x: Seq<Scalar>,
    k: nat,
)
    requires
        k <= cfg.max_steps,
        k == cfg.max_steps || deliberate::<L>(a, cfg, x, k).converged,
    ensures
        ({
            let r = inference::<L>(a, cfg, x);
            let d = deliberate::<L>(a, cfg, x, k);
            &&& r.y_conv == d.y
            &&& r.hidden == d.hidden
            &&& r.prediction_errors == d.errors
            &&& r.surprise_score == d.surprise
            &&& r.steps_used == d.steps
            &&& r.converged == d.converged
            &&& forall|i: int|
                #![trigger d.hidden.states[i]]
                0 <= i < cfg.depth() ==> r.latent_concat.subrange(
                    concat_upto(d.hidden.states, i as nat).len() as int,
                    concat_upto(d.hidden.states, (i + 1) as nat).len() as int,
                ) == d.hidden.states[i]
        }),
{
    if k < cfg.max_steps {
        lemma_deliberate_stable::<L>(a, cfg, x, k, cfg.max_steps as nat);
    }
    let d = deliberate::<L>(a, cfg, x, k);
    assert forall|i: int|
        #![trigger d.hidden.states[i]]
        0 <= i < cfg.depth() implies concat_upto(d.hidden.states, cfg.depth()).subrange(
        concat_upto(d.hidden.states, i as nat).len() as int,
        concat_upto(d.hidden.states, (i + 1) as nat).len() as int,
    ) == d.hidden.states[i] by {
        lemma_concat_part(d.hidden.states, cfg.depth(), i);
    }
}

proof fn lemma_concat_part(states: Seq<Seq<Scalar>>, k: nat, i: int)
    requires
        0 <= i < k,
    ensures
        ({
            let from = concat_upto(states, i as nat).len() as int;
            let to = concat_upto(states, (i + 1) as nat).len() as int;
            &&& to == from + states[i].len()
            &&& to <= concat_upto(states, k).len()
            &&& concat_upto(states, k).subrange(from, to) == states[i]
        }),
    decreases k,
{
    let from = concat_upto(states, i as nat).len() as int;
    let to = concat_upto(states, (i + 1) as nat).len() as int;
    let whole = concat_upto(states, k);
    let part = concat_upto(states, (k - 1) as nat);
    assert(whole == part + states[k - 1]);
    if i < k - 1 {
        lemma_concat_part(states, (k - 1) as nat, i);
        assert(whole.subrange(from, to) =~= part.subrange(from, to));
    } else {
        assert(whole.subrange(from, to) =~= states[i]);
    }
}

} // verus!
