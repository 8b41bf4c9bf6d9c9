//! The predictive-coding network as mathematics: topology, inference and
//! learning, independent of how a backend stores vectors.

use rand::rngs::StdRng;
use vstd::prelude::*;

use crate::activation::Activation;
use crate::arith::Arith;
use crate::layer::{law_descent_keeps_weights_bounded, LayerDef, LayerView};
use crate::linalg::{m_add_scaled, m_outer, v_add, v_scale, v_sub, LinAlg, MatView};
use crate::scalar::{lit, Scalar, EPSILON, ONE, ZERO};
use crate::stack::{initial_stack, shape_of, StackShape};

verus! {

/// The content of an actor configuration.
#[verifier::ext_equal]
pub struct PcActorConfigView {
    pub input_size: usize,
    pub hidden_layers: Seq<LayerDef>,
    pub output_size: usize,
    pub output_activation: Activation,
    pub alpha: Scalar,
    pub tol: Scalar,
    pub min_steps: usize,
    pub max_steps: usize,
    pub lr_weights: Scalar,
    pub synchronous: bool,
    pub temperature: Scalar,
    pub local_lambda: Scalar,
    pub residual: bool,
    pub rezero_init: Scalar,
}

/// The sum of the sizes of the first `k` layers.
pub open spec fn sizes_upto(layers: Seq<LayerDef>, k: nat) -> nat
    decreases k,
{
    if k == 0 {
        0
    } else {
        sizes_upto(layers, (k - 1) as nat) + layers[k - 1].size as nat
    }
}

impl PcActorConfigView {
    /// The number of hidden layers.
    pub open spec fn depth(self) -> nat {
        self.hidden_layers.len()
    }

    /// The sizes and activations of the layers.
    pub open spec fn shape(self) -> StackShape {
        shape_of(
            self.input_size,
            self.hidden_layers,
            self.output_size,
            self.output_activation,
        )
    }

    /// How many values layer `k` reads.
    pub open spec fn fan_in(self, k: int) -> nat {
        self.shape().fan_in(k)
    }

    /// How many values layer `k` produces.
    pub open spec fn fan_out(self, k: int) -> nat {
        self.shape().fan_out(k)
    }

    /// Whether hidden layer `i` adds its input to its output.
    pub open spec fn skips(self, i: int) -> bool {
        self.residual && i >= 1
    }

    /// How many skip connections the network has.
    pub open spec fn skip_count(self) -> nat {
        if self.residual && self.depth() >= 1 {
            (self.depth() - 1) as nat
        } else {
            0
        }
    }

    /// The total width of all hidden layers.
    pub open spec fn latent_size(self) -> nat {
        sizes_upto(self.hidden_layers, self.depth())
    }
}

/// The trainable content of an actor.
#[verifier::ext_equal]
pub struct ActorView {
    pub layers: Seq<LayerView>,
    pub rezero_alpha: Seq<Scalar>,
    pub skip_projections: Seq<Option<MatView>>,
}

/// The first `k` skip projections of a fresh residual actor: a drawn matrix
/// where two neighbouring hidden layers differ in size.
pub open spec fn initial_projections<L: LinAlg>(
    rng: StdRng,
    cfg: PcActorConfigView,
    k: nat,
) -> (Seq<Option<MatView>>, StdRng)
    decreases k,
{
    if k == 0 {
        (Seq::empty(), rng)
    } else {
        let (slots, rng) = initial_projections::<L>(rng, cfg, (k - 1) as nat);
        let above = cfg.hidden_layers[k as int].size;
        let below = cfg.hidden_layers[k - 1].size;
        if above != below {
            let (m, rng) = L::xavier(rng, above as nat, below as nat);
            (slots.push(Some(m)), rng)
        } else {
            (slots.push(None), rng)
        }
    }
}

impl ActorView {
    /// A freshly initialised actor and the generator it leaves behind.
    pub open spec fn initial<L: LinAlg>(rng: StdRng, cfg: PcActorConfigView) -> (
        ActorView,
        StdRng,
    ) {
        let (layers, rng) = initial_stack::<L>(rng, cfg.shape());
        let (skip_projections, rng) = initial_projections::<L>(rng, cfg, cfg.skip_count());
        (
            ActorView {
                layers,
                rezero_alpha: Seq::new(cfg.skip_count(), |i: int| cfg.rezero_init),
                skip_projections,
            },
            rng,
        )
    }

    /// Every projection is a proper matrix.
    pub open spec fn projections_wf(self) -> bool {
        forall|s: int|
            #![trigger self.skip_projections[s]]
            0 <= s < self.skip_projections.len() ==> match self.skip_projections[s] {
                Some(m) => m.wf(),
                None => true,
            }
    }

    /// Slot `s` maps hidden layer `s` onto hidden layer `s + 1`.
    pub open spec fn slot_wf(self, cfg: PcActorConfigView, s: int) -> bool {
        match self.skip_projections[s] {
            Some(m) => m.rows == cfg.hidden_layers[s + 1].size && m.cols
                == cfg.hidden_layers[s].size,
            None => cfg.hidden_layers[s + 1].size == cfg.hidden_layers[s].size,
        }
    }

    /// A residual network has one scale and one slot per skip connection.
    pub open spec fn skips_wf(self, cfg: PcActorConfigView) -> bool {
        cfg.residual ==> {
            &&& self.rezero_alpha.len() == cfg.skip_count()
            &&& self.skip_projections.len() == cfg.skip_count()
            &&& forall|s: int|
                #![trigger self.skip_projections[s]]
                0 <= s < cfg.skip_count() ==> self.slot_wf(cfg, s)
        }
    }

    pub open spec fn wf(self, cfg: PcActorConfigView) -> bool {
        cfg.shape().fits(self.layers) && self.projections_wf() && self.skips_wf(cfg)
    }

    /// What the skip connection into hidden layer `i` contributes.
    pub open spec fn bypass<L: LinAlg>(self, i: int, below: Seq<Scalar>) -> Seq<Scalar> {
        match self.skip_projections[i - 1] {
            Some(p) => L::product(p, below),
            None => below,
        }
    }

    /// The state of hidden layer `i` given the state below and the layer's own
    /// response.
    pub open spec fn blend<L: LinAlg>(
        self,
        cfg: PcActorConfigView,
        i: int,
        below: Seq<Scalar>,
        response: Seq<Scalar>,
    ) -> Seq<Scalar> {
        if cfg.skips(i) {
            v_add::<L>(
                self.bypass::<L>(i, below),
                v_scale::<L>(response, self.rezero_alpha[i - 1]),
            )
        } else {
            response
        }
    }
}

/// States of the hidden layers. A skip layer also keeps its own response apart
/// from the sum with its input.
#[verifier::ext_equal]
pub struct HiddenView {
    pub states: Seq<Seq<Scalar>>,
    pub responses: Seq<Option<Seq<Scalar>>>,
}

impl HiddenView {
    /// What layer `i` itself produced.
    pub open spec fn own(self, i: int) -> Seq<Scalar> {
        match self.responses[i] {
            Some(v) => v,
            None => self.states[i],
        }
    }

    /// The state that feeds layer `i`.
    pub open spec fn below(self, x: Seq<Scalar>, i: int) -> Seq<Scalar> {
        if i == 0 {
            x
        } else {
            self.states[i - 1]
        }
    }

    /// The first `k` layers hold states of their size, and own responses
    /// exactly on skip layers.
    pub open spec fn wf(self, cfg: PcActorConfigView, k: nat) -> bool {
        &&& self.states.len() == k
        &&& self.responses.len() == k
        &&& forall|i: int|
            #![trigger self.states[i]]
            0 <= i < k ==> self.states[i].len() == cfg.hidden_layers[i].size
        &&& forall|i: int|
            #![trigger self.responses[i]]
            0 <= i < k ==> match self.responses[i] {
                Some(v) => cfg.skips(i) && v.len() == cfg.hidden_layers[i].size,
                None => !cfg.skips(i),
            }
    }
}

/// The bottom-up pass through the first `k` hidden layers.
pub open spec fn rise<L: LinAlg>(
    a: ActorView,
    cfg: PcActorConfigView,
    x: Seq<Scalar>,
    k: nat,
) -> HiddenView
    decreases k,
{
    if k == 0 {
        HiddenView { states: Seq::empty(), responses: Seq::empty() }
    } else {
        let h = rise::<L>(a, cfg, x, (k - 1) as nat);
        let below = h.below(x, k - 1);
        let response = a.layers[k - 1].forward::<L>(below);
        HiddenView {
            states: h.states.push(a.blend::<L>(cfg, k - 1, below, response)),
            responses: h.responses.push(
                if cfg.skips(k - 1) {
                    Some(response)
                } else {
                    None
                },
            ),
        }
    }
}

/// The output layer's response to the topmost state.
pub open spec fn readout<L: LinAlg>(
    a: ActorView,
    cfg: PcActorConfigView,
    x: Seq<Scalar>,
    h: HiddenView,
) -> Seq<Scalar> {
    a.layers[cfg.depth() as int].forward::<L>(h.below(x, cfg.depth() as int))
}

/// The prediction error of hidden layer `i`: the expectation of the layer above
/// less what layer `i` produced.
pub open spec fn surprise_at<L: LinAlg>(
    a: ActorView,
    cfg: PcActorConfigView,
    y: Seq<Scalar>,
    seen: HiddenView,
    i: int,
) -> Seq<Scalar> {
    let above = if i == cfg.depth() - 1 {
        y
    } else {
        seen.own(i + 1)
    };
    v_sub::<L>(
        a.layers[i + 1].transpose_forward::<L>(above, cfg.hidden_layers[i].activation),
        seen.own(i),
    )
}

/// Hidden layer `i` after moving towards its prediction.
pub open spec fn relax<L: LinAlg>(
    a: ActorView,
    cfg: PcActorConfigView,
    x: Seq<Scalar>,
    y: Seq<Scalar>,
    seen: HiddenView,
    live: HiddenView,
    i: int,
) -> HiddenView {
    let error = surprise_at::<L>(a, cfg, y, seen, i);
    let moved = v_add::<L>(seen.own(i), v_scale::<L>(error, cfg.alpha));
    HiddenView {
        states: live.states.update(i, a.blend::<L>(cfg, i, live.below(x, i), moved)),
        responses: if cfg.skips(i) {
            live.responses.update(i, Some(moved))
        } else {
            live.responses
        },
    }
}

/// Relaxes the `k` topmost hidden layers, from the top down. A synchronous
/// network reads the states from before the sweep, an in-place network reads
/// the states as they are being updated.
pub open spec fn sweep<L: LinAlg>(
    a: ActorView,
    cfg: PcActorConfigView,
    x: Seq<Scalar>,
    y: Seq<Scalar>,
    before: HiddenView,
    k: nat,
) -> (HiddenView, Seq<Seq<Scalar>>)
    decreases k,
{
    if k == 0 {
        (before, Seq::empty())
    } else {
        let (live, errors) = sweep::<L>(a, cfg, x, y, before, (k - 1) as nat);
        let i = cfg.depth() - k;
        let seen = if cfg.synchronous {
            before
        } else {
            live
        };
        (
            relax::<L>(a, cfg, x, y, seen, live, i),
            errors.push(surprise_at::<L>(a, cfg, y, seen, i)),
        )
    }
}

/// A point of the inference loop.
#[verifier::ext_equal]
pub struct Deliberation {
    pub hidden: HiddenView,
    pub y: Seq<Scalar>,
    pub errors: Seq<Seq<Scalar>>,
    pub surprise: Scalar,
    pub steps: nat,
    pub converged: bool,
}

/// Whether a network that relaxes at all may stop after `steps` steps.
pub open spec fn settled(cfg: PcActorConfigView, steps: nat, surprise: Scalar) -> bool {
    &&& lit(ZERO).lt(cfg.alpha)
    &&& steps >= cfg.min_steps
    &&& surprise.lt(cfg.tol)
}

/// The inference loop after at most `k` steps.
pub open spec fn deliberate<L: LinAlg>(
    a: ActorView,
    cfg: PcActorConfigView,
    x: Seq<Scalar>,
    k: nat,
) -> Deliberation
    decreases k,
{
    if k == 0 {
        let hidden = rise::<L>(a, cfg, x, cfg.depth());
        Deliberation {
            hidden,
            y: readout::<L>(a, cfg, x, hidden),
            errors: Seq::empty(),
            surprise: lit(ZERO),
            steps: 0,
            converged: false,
        }
    } else {
        let d = deliberate::<L>(a, cfg, x, (k - 1) as nat);
        if d.converged {
            d
        } else {
            let (hidden, errors) = sweep::<L>(a, cfg, x, d.y, d.hidden, cfg.depth());
            let surprise = L::rms(errors);
            Deliberation {
                hidden,
                y: readout::<L>(a, cfg, x, hidden),
                errors,
                surprise,
                steps: k,
                converged: settled(cfg, k, surprise),
            }
        }
    }
}

/// The first `k` states, one after the other.
pub open spec fn concat_upto(states: Seq<Seq<Scalar>>, k: nat) -> Seq<Scalar>
    decreases k,
{
    if k == 0 {
        Seq::empty()
    } else {
        concat_upto(states, (k - 1) as nat) + states[k - 1]
    }
}

/// The outcome of inference.
#[verifier::ext_equal]
pub struct InferView {
    pub y_conv: Seq<Scalar>,
    pub latent_concat: Seq<Scalar>,
    pub hidden: HiddenView,
    pub prediction_errors: Seq<Seq<Scalar>>,
    pub surprise_score: Scalar,
    pub steps_used: nat,
    pub converged: bool,
}

impl InferView {
    /// The states have the configured sizes; the errors, if any step was taken,
    /// come one per hidden layer from the top down.
    pub open spec fn fits(self, cfg: PcActorConfigView) -> bool {
        &&& self.y_conv.len() == cfg.output_size
        &&& self.hidden.wf(cfg, cfg.depth())
        &&& self.latent_concat.len() == cfg.latent_size()
        &&& cfg.max_steps > 0 ==> self.prediction_errors.len() == cfg.depth()
        &&& errors_fit(self.prediction_errors, cfg)
    }
}

/// Error `k` belongs to the `k`-th hidden layer from the top.
pub open spec fn errors_fit(errors: Seq<Seq<Scalar>>, cfg: PcActorConfigView) -> bool {
    &&& errors.len() <= cfg.depth()
    &&& forall|k: int|
        #![trigger errors[k]]
        0 <= k < errors.len() ==> errors[k].len() == cfg.hidden_layers[cfg.depth() - 1 - k].size
}

/// States of the configured sizes concatenate to the sum of these sizes.
pub proof fn lemma_concat_len(states: Seq<Seq<Scalar>>, cfg: PcActorConfigView, k: nat)
    requires
        k <= states.len(),
        states.len() == cfg.depth(),
        forall|i: int|
            #![trigger states[i]]
            0 <= i < states.len() ==> states[i].len() == cfg.hidden_layers[i].size,
    ensures
        concat_upto(states, k).len() == sizes_upto(cfg.hidden_layers, k),
    decreases k,
{
    if k > 0 {
        lemma_concat_len(states, cfg, (k - 1) as nat);
    }
}

/// Predictive-coding inference on input `x`.
pub open spec fn inference<L: LinAlg>(
    a: ActorView,
    cfg: PcActorConfigView,
    x: Seq<Scalar>,
) -> InferView {
    let d = deliberate::<L>(a, cfg, x, cfg.max_steps as nat);
    InferView {
        y_conv: d.y,
        latent_concat: concat_upto(d.hidden.states, cfg.depth()),
        hidden: d.hidden,
        prediction_errors: d.errors,
        surprise_score: d.surprise,
        steps_used: d.steps,
        converged: d.converged,
    }
}

/// A loop that has converged stays where it is.
pub proof fn lemma_deliberate_stable<L: LinAlg>(
    a: ActorView,
    cfg: PcActorConfigView,
    x: Seq<Scalar>,
    k: nat,
    m: nat,
)
    requires
        k <= m,
        deliberate::<L>(a, cfg, x, k).converged,
    ensures
        deliberate::<L>(a, cfg, x, m) == deliberate::<L>(a, cfg, x, k),
    decreases m - k,
{
    if k < m {
        lemma_deliberate_stable::<L>(a, cfg, x, k, (m - 1) as nat);
    }
}

/// The loop stops early only because it converged: it takes at least
/// `min_steps` steps with a surprise below `tol`, or exactly `max_steps` steps.
/// With `alpha` zero, negative or NaN it never converges.
pub proof fn law_inference_stops_on_convergence_only<L: LinAlg>(
    a: ActorView,
    cfg: PcActorConfigView,
    x: Seq<Scalar>,
)
    ensures
        ({
            let r = inference::<L>(a, cfg, x);
            &&& r.steps_used <= cfg.max_steps
            &&& !r.converged ==> r.steps_used == cfg.max_steps
            &&& r.converged ==> r.steps_used >= cfg.min_steps && r.surprise_score.lt(cfg.tol)
            &&& cfg.min_steps <= cfg.max_steps ==> r.steps_used >= cfg.min_steps
            &&& !lit(ZERO).lt(cfg.alpha) ==> !r.converged
        }),
{
    lemma_deliberation_steps::<L>(a, cfg, x, cfg.max_steps as nat);
}

proof fn lemma_deliberation_steps<L: LinAlg>(
    a: ActorView,
    cfg: PcActorConfigView,
    x: Seq<Scalar>,
    k: nat,
)
    ensures
        ({
            let d = deliberate::<L>(a, cfg, x, k);
            &&& d.steps <= k
            &&& !d.converged ==> d.steps == k
            &&& d.converged ==> settled(cfg, d.steps, d.surprise)
        }),
    decreases k,
{
    if k > 0 {
        lemma_deliberation_steps::<L>(a, cfg, x, (k - 1) as nat);
    }
}

/// What a hidden layer learns from: the back-propagated signal `delta`, the
/// layer's own prediction error, or a blend of both in the ratio `lambda`.
pub open spec fn teaching_signal<A: Arith>(
    lambda: Scalar,
    delta: Seq<Scalar>,
    error: Seq<Scalar>,
) -> Seq<Scalar> {
    if pure_backprop::<A>(lambda) {
        delta
    } else if lambda.abs().lt(lit(EPSILON)) {
        error
    } else {
        v_add::<A>(
            v_scale::<A>(delta, lambda),
            v_scale::<A>(error, A::minus(lit(ONE), lambda)),
        )
    }
}

/// Whether prediction errors play no part in learning.
pub open spec fn pure_backprop<A: Arith>(lambda: Scalar) -> bool {
    A::minus(lambda, lit(ONE)).abs().lt(lit(EPSILON))
}

/// A network part-way through a weight update, with the error signal that is
/// handed to the next layer below.
#[verifier::ext_equal]
pub struct Lesson {
    pub actor: ActorView,
    pub delta: Seq<Scalar>,
}

/// Everything a weight update is computed from besides the network.
#[verifier::ext_equal]
pub struct Evidence {
    pub input: Seq<Scalar>,
    pub inferred: InferView,
    pub output_delta: Seq<Scalar>,
    pub surprise_scale: Scalar,
    pub lambda: Scalar,
    /// Per-layer decay of the update, or nothing.
    pub decay_factors: Seq<Scalar>,
}

impl Evidence {
    /// All signals have the configured sizes.
    pub open spec fn wf<A: Arith>(self, cfg: PcActorConfigView) -> bool {
        &&& self.input.len() == cfg.input_size
        &&& self.output_delta.len() == cfg.output_size
        &&& self.inferred.y_conv.len() == cfg.output_size
        &&& self.inferred.hidden.wf(cfg, cfg.depth())
        &&& !pure_backprop::<A>(self.lambda) ==> {
            &&& self.inferred.prediction_errors.len() == cfg.depth()
            &&& errors_fit(self.inferred.prediction_errors, cfg)
        }
        &&& self.decay_factors.len() == 0 || self.decay_factors.len() >= cfg.depth()
    }

    /// The factor on the learning rate of hidden layer `i`.
    pub open spec fn layer_scale<A: Arith>(self, i: int) -> Scalar {
        if self.decay_factors.len() == 0 {
            self.surprise_scale
        } else {
            A::times(self.surprise_scale, self.decay_factors[i])
        }
    }
}

/// The network after the update of its output layer, which neither decays nor
/// blends.
pub open spec fn learn_output<L: LinAlg>(
    a: ActorView,
    cfg: PcActorConfigView,
    e: Evidence,
) -> Lesson {
    let n = cfg.depth() as int;
    let top = a.layers[n];
    Lesson {
        actor: ActorView {
            layers: a.layers.update(
                n,
                top.descended::<L>(
                    e.inferred.hidden.below(e.input, n),
                    e.inferred.y_conv,
                    e.output_delta,
                    L::times(cfg.lr_weights, e.surprise_scale),
                ),
            ),
            ..a
        },
        delta: top.propagated::<L>(e.inferred.y_conv, e.output_delta),
    }
}

/// The network after the update of hidden layer `i`.
pub open spec fn learn_hidden<L: LinAlg>(
    s: Lesson,
    cfg: PcActorConfigView,
    e: Evidence,
    i: int,
) -> Lesson {
    let a = s.actor;
    let layer = a.layers[i];
    let below = e.inferred.hidden.below(e.input, i);
    let own = e.inferred.hidden.own(i);
    let signal = teaching_signal::<L>(
        e.lambda,
        s.delta,
        e.inferred.prediction_errors[cfg.depth() - 1 - i],
    );
    let rate = L::times(cfg.lr_weights, e.layer_scale::<L>(i));
    if cfg.skips(i) {
        let slot = i - 1;
        let scaled = v_scale::<L>(signal, a.rezero_alpha[slot]);
        let through = layer.propagated::<L>(own, scaled);
        Lesson {
            actor: ActorView {
                layers: a.layers.update(i, layer.descended::<L>(below, own, scaled, rate)),
                rezero_alpha: a.rezero_alpha.update(
                    slot,
                    L::minus(a.rezero_alpha[slot], L::times(rate, L::inner(signal, own))),
                ),
                skip_projections: match a.skip_projections[slot] {
                    Some(p) => a.skip_projections.update(
                        slot,
                        Some(m_add_scaled::<L>(p, m_outer::<L>(signal, below), rate.neg())),
                    ),
                    None => a.skip_projections,
                },
            },
            delta: match a.skip_projections[slot] {
                Some(p) => v_add::<L>(through, L::product(p.transpose(), signal)),
                None => v_add::<L>(through, signal),
            },
        }
    } else {
        Lesson {
            actor: ActorView {
                layers: a.layers.update(i, layer.descended::<L>(below, own, signal, rate)),
                ..a
            },
            delta: layer.propagated::<L>(own, signal),
        }
    }
}

/// The network after the update of its output layer and of the `k` topmost
/// hidden layers.
pub open spec fn learn_upto<L: LinAlg>(
    a: ActorView,
    cfg: PcActorConfigView,
    e: Evidence,
    k: nat,
) -> Lesson
    decreases k,
{
    if k == 0 {
        learn_output::<L>(a, cfg, e)
    } else {
        learn_hidden::<L>(
            learn_upto::<L>(a, cfg, e, (k - 1) as nat),
            cfg,
            e,
            cfg.depth() - k,
        )
    }
}

/// The network after a full weight update.
pub open spec fn learned<L: LinAlg>(
    a: ActorView,
    cfg: PcActorConfigView,
    e: Evidence,
) -> ActorView {
    learn_upto::<L>(a, cfg, e, cfg.depth()).actor
}

/// After a weight update every weight and bias of every layer lies within the
/// weight bound.
pub proof fn law_update_keeps_weights_bounded<L: LinAlg>(
    a: ActorView,
    cfg: PcActorConfigView,
    e: Evidence,
    i: int,
)
    requires
        a.layers.len() == cfg.depth() + 1,
        0 <= i <= cfg.depth(),
    ensures
        learned::<L>(a, cfg, e).layers[i].clipped(),
{
    lemma_learned_layers_bounded::<L>(a, cfg, e, cfg.depth());
}

proof fn lemma_learned_layers_bounded<L: LinAlg>(
    a: ActorView,
    cfg: PcActorConfigView,
    e: Evidence,
    k: nat,
)
    requires
        a.layers.len() == cfg.depth() + 1,
        k <= cfg.depth(),
    ensures
        learn_upto::<L>(a, cfg, e, k).actor.layers.len() == cfg.depth() + 1,
        forall|i: int|
            cfg.depth() - k <= i <= cfg.depth() ==> (#[trigger] learn_upto::<L>(
                a,
                cfg,
                e,
                k,
            ).actor.layers[i]).clipped(),
    decreases k,
{
    let n = cfg.depth() as int;
    if k == 0 {
        law_descent_keeps_weights_bounded::<L>(
            a.layers[n],
            e.inferred.hidden.below(e.input, n),
            e.inferred.y_conv,
            e.output_delta,
            L::times(cfg.lr_weights, e.surprise_scale),
        );
    } else {
        lemma_learned_layers_bounded::<L>(a, cfg, e, (k - 1) as nat);
        let s = learn_upto::<L>(a, cfg, e, (k - 1) as nat);
        let i = n - k;
        let signal = teaching_signal::<L>(
            e.lambda,
            s.delta,
            e.inferred.prediction_errors[cfg.depth() - 1 - i],
        );
        let rate = L::times(cfg.lr_weights, e.layer_scale::<L>(i));
        let used = if cfg.skips(i) {
            v_scale::<L>(signal, s.actor.rezero_alpha[i - 1])
        } else {
            signal
        };
        law_descent_keeps_weights_bounded::<L>(
            s.actor.layers[i],
            e.inferred.hidden.below(e.input, i),
            e.inferred.hidden.own(i),
            used,
            rate,
        );
    }
}

/// With `local_lambda` at one the prediction errors of inference have no
/// influence on a weight update.
pub proof fn law_pure_backprop_ignores_prediction_errors<L: LinAlg>(
    a: ActorView,
    cfg: PcActorConfigView,
    e: Evidence,
    errors: Seq<Seq<Scalar>>,
)
    requires
        pure_backprop::<L>(e.lambda),
    ensures
        learned::<L>(a, cfg, e) == learned::<L>(
            a,
            cfg,
            Evidence { inferred: InferView { prediction_errors: errors, ..e.inferred }, ..e },
        ),
{
    lemma_errors_ignored::<L>(a, cfg, e, errors, cfg.depth());
}

proof fn lemma_errors_ignored<L: LinAlg>(
    a: ActorView,
    cfg: PcActorConfigView,
    e: Evidence,
    errors: Seq<Seq<Scalar>>,
    k: nat,
)
    requires
        pure_backprop::<L>(e.lambda),
    ensures
        learn_upto::<L>(a, cfg, e, k) == learn_upto::<L>(
            a,
            cfg,
            Evidence { inferred: InferView { prediction_errors: errors, ..e.inferred }, ..e },
            k,
        ),
    decreases k,
{
    if k > 0 {
        lemma_errors_ignored::<L>(a, cfg, e, errors, (k - 1) as nat);
    }
}

/// The output layer learns from the output signal alone, at the undecayed rate,
/// whatever `local_lambda`, the decay factors and the prediction errors are.
pub proof fn law_output_layer_neither_decays_nor_blends<L: LinAlg>(
    a: ActorView,
    cfg: PcActorConfigView,
    e: Evidence,
)
    requires
        a.layers.len() == cfg.depth() + 1,
    ensures
        learned::<L>(a, cfg, e).layers[cfg.depth() as int] == a.layers[cfg.depth() as int].descended::<
            L,
        >(
            e.inferred.hidden.below(e.input, cfg.depth() as int),
            e.inferred.y_conv,
            e.output_delta,
            L::times(cfg.lr_weights, e.surprise_scale),
        ),
{
    lemma_output_layer_stays::<L>(a, cfg, e, cfg.depth());
}

proof fn lemma_output_layer_stays<L: LinAlg>(
    a: ActorView,
    cfg: PcActorConfigView,
    e: Evidence,
    k: nat,
)
    requires
        a.layers.len() == cfg.depth() + 1,
        k <= cfg.depth(),
    ensures
        learn_upto::<L>(a, cfg, e, k).actor.layers.len() == cfg.depth() + 1,
        learn_upto::<L>(a, cfg, e, k).actor.layers[cfg.depth() as int] == learn_output::<L>(
            a,
            cfg,
            e,
        ).actor.layers[cfg.depth() as int],
    decreases k,
{
    if k > 0 {
        lemma_output_layer_stays::<L>(a, cfg, e, (k - 1) as nat);
    }
}

/// With `local_lambda` at zero no output signal reaches the hidden layers: they
/// learn the same from every one.
pub proof fn law_local_learning_ignores_the_output_signal<L: LinAlg>(
    a: ActorView,
    cfg: PcActorConfigView,
    e: Evidence,
    other_delta: Seq<Scalar>,
    i: int,
)
    requires
        !pure_backprop::<L>(e.lambda),
        e.lambda.abs().lt(lit(EPSILON)),
        a.layers.len() == cfg.depth() + 1,
        0 <= i < cfg.depth(),
    ensures
        ({
            let x = learned::<L>(a, cfg, e);
            let y = learned::<L>(a, cfg, Evidence { output_delta: other_delta, ..e });
            &&& x.layers[i] == y.layers[i]
            &&& x.rezero_alpha == y.rezero_alpha
            &&& x.skip_projections == y.skip_projections
        }),
{
    lemma_output_signal_ignored::<L>(a, cfg, e, other_delta, cfg.depth());
}

proof fn lemma_output_signal_ignored<L: LinAlg>(
    a: ActorView,
    cfg: PcActorConfigView,
    e: Evidence,
    other_delta: Seq<Scalar>,
    k: nat,
)
    requires
        !pure_backprop::<L>(e.lambda),
        e.lambda.abs().lt(lit(EPSILON)),
        a.layers.len() == cfg.depth() + 1,
        k <= cfg.depth(),
    ensures
        ({
            let x = learn_upto::<L>(a, cfg, e, k).actor;
            let y = learn_upto::<L>(
                a,
                cfg,
                Evidence { output_delta: other_delta, ..e },
                k,
            ).actor;
            &&& x.layers.len() == cfg.depth() + 1
            &&& y.layers.len() == cfg.depth() + 1
            &&& forall|i: int|
                #![trigger x.layers[i]]
                #![trigger y.layers[i]]
                0 <= i < cfg.depth() ==> x.layers[i] == y.layers[i]
            &&& x.rezero_alpha == y.rezero_alpha
            &&& x.skip_projections == y.skip_projections
        }),
    decreases k,
{
    if k > 0 {
        lemma_output_signal_ignored::<L>(a, cfg, e, other_delta, (k - 1) as nat);
        let f = Evidence { output_delta: other_delta, ..e };
        let x = learn_upto::<L>(a, cfg, e, (k - 1) as nat);
        let y = learn_upto::<L>(a, cfg, f, (k - 1) as nat);
        let i = cfg.depth() - k;
        assert(x.actor.layers[i] == y.actor.layers[i]);
        assert(e.layer_scale::<L>(i) == f.layer_scale::<L>(i));
    }
}

/// What hidden layer `i` is taught when the signal from above is `delta`.
pub open spec fn lesson_for<A: Arith>(
    cfg: PcActorConfigView,
    e: Evidence,
    delta: Seq<Scalar>,
    i: int,
) -> Seq<Scalar> {
    teaching_signal::<A>(
        e.lambda,
        delta,
        e.inferred.prediction_errors[cfg.depth() - 1 - i],
    )
}

/// The part of a signal that goes through the layer itself.
pub open spec fn through_layer<A: Arith>(
    a: ActorView,
    cfg: PcActorConfigView,
    signal: Seq<Scalar>,
    i: int,
) -> Seq<Scalar> {
    if cfg.skips(i) {
        v_scale::<A>(signal, a.rezero_alpha[i - 1])
    } else {
        signal
    }
}

/// The error signal below the `k` topmost hidden layers, with all weights as
/// they are.
pub open spec fn signal_below<L: LinAlg>(
    a: ActorView,
    cfg: PcActorConfigView,
    e: Evidence,
    k: nat,
) -> Seq<Scalar>
    decreases k,
{
    let n = cfg.depth() as int;
    if k == 0 {
        a.layers[n].propagated::<L>(e.inferred.y_conv, e.output_delta)
    } else {
        let i = n - k;
        let signal = lesson_for::<L>(cfg, e, signal_below::<L>(a, cfg, e, (k - 1) as nat), i);
        let through = a.layers[i].propagated::<L>(
            e.inferred.hidden.own(i),
            through_layer::<L>(a, cfg, signal, i),
        );
        if cfg.skips(i) {
            match a.skip_projections[i - 1] {
                Some(p) => v_add::<L>(through, L::product(p.transpose(), signal)),
                None => v_add::<L>(through, signal),
            }
        } else {
            through
        }
    }
}

/// The clipped gradient of layer `i`, with all weights as they are.
pub open spec fn layer_gradient<L: LinAlg>(
    a: ActorView,
    cfg: PcActorConfigView,
    e: Evidence,
    i: int,
) -> Seq<Scalar> {
    if i == cfg.depth() {
        a.layers[i].local_gradient::<L>(e.inferred.y_conv, e.output_delta)
    } else {
        let signal = lesson_for::<L>(
            cfg,
            e,
            signal_below::<L>(a, cfg, e, (cfg.depth() - 1 - i) as nat),
            i,
        );
        a.layers[i].local_gradient::<L>(
            e.inferred.hidden.own(i),
            through_layer::<L>(a, cfg, signal, i),
        )
    }
}

} // verus!
