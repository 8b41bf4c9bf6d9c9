//! The predictive-coding actor network.

use rand::rngs::StdRng;
use vstd::prelude::*;

use crate::activation::Activation;
use crate::error::{ConfigRule, PcError};
use crate::layer::{layer_views, mat_from_host, mat_to_host, vec_views, Layer, LayerDef};
use crate::linalg::{LinAlg, MatView};
use crate::matrix::{copy_of, Matrix};
use crate::mixing::{m_first_alone, v_first_alone, weigh_list, weigh_mat, weigh_vec};
use crate::pc_model::{
    concat_upto, deliberate, errors_fit, inference, initial_projections, layer_gradient,
    learn_hidden, learn_upto, learned, lemma_concat_len, lemma_deliberate_stable, lesson_for,
    pure_backprop, readout, relax, rise, settled, signal_below, sizes_upto, surprise_at, sweep,
    teaching_signal, ActorView, Deliberation, Evidence, HiddenView, InferView, Lesson,
    PcActorConfigView,
};
use crate::pc_topology::{
    actor_misfit, actor_names, bridged, copies_at_one, law_fitting_bridged_weights_work,
    law_no_gap_iff_same_topology, layer_gap, layers_gap, lemma_layers_gap_stays,
    lemma_projection_misfit_stays, lemma_slots_gap_stays, projection_misfit, same_topology,
    slot_gap, slots_agree, slots_gap, topology_gap,
};
use crate::scalar::{lit, Scalar, EPSILON, ONE, ZERO};
use crate::serializer::{opt_host, PcActorWeights};
use crate::stack::{
    build_stack, check_stack, duplicate_stack, proper_matrices, stack_from_host, stack_misfit,
    stack_to_host, StackNames,
};

verus! {

/// `0.1`, the default rate at which hidden states move.
pub const DEFAULT_ALPHA: u64 = 0x3FB9_9999_9999_999A;

/// `0.01`, the default bound on the surprise.
pub const DEFAULT_TOL: u64 = 0x3F84_7AE1_47AE_147B;

/// `0.01`, the default base learning rate.
pub const DEFAULT_LR_WEIGHTS: u64 = 0x3F84_7AE1_47AE_147B;

/// `0.001`, the default initial scale of residual layers.
pub const DEFAULT_REZERO_INIT: u64 = 0x3F50_624D_D2F1_A9FC;

/// Topology and hyper-parameters of an actor.
#[derive(Debug)]
pub struct PcActorConfig {
    /// Number of input features.
    pub input_size: usize,
    /// Hidden layers, from the input upwards.
    pub hidden_layers: Vec<LayerDef>,
    /// Number of outputs.
    pub output_size: usize,
    /// Activation of the output layer.
    pub output_activation: Activation,
    /// Rate at which hidden states move towards their predictions. Zero turns
    /// the network into a feed-forward one.
    pub alpha: Scalar,
    /// The inference loop stops once the surprise falls below this.
    pub tol: Scalar,
    /// Inference steps before the loop may stop.
    pub min_steps: usize,
    /// Inference steps after which the loop stops in any case.
    pub max_steps: usize,
    /// Base learning rate.
    pub lr_weights: Scalar,
    /// Whether a sweep reads the states from before the sweep.
    pub synchronous: bool,
    /// Softmax temperature of distillation.
    pub temperature: Scalar,
    /// Share of the back-propagated signal in the update of hidden layers; the
    /// rest is the local prediction error.
    pub local_lambda: Scalar,
    /// Whether hidden layers after the first add their input to their output.
    pub residual: bool,
    /// Initial scale of the non-linear part of a residual layer.
    pub rezero_init: Scalar,
}

/// Default rate at which hidden states move towards their predictions.
pub fn default_alpha() -> (r: Scalar)
    ensures
        r == lit(DEFAULT_ALPHA),
{
    lit(DEFAULT_ALPHA)
}

/// Default bound on the surprise below which the inference loop stops.
pub fn default_tol() -> (r: Scalar)
    ensures
        r == lit(DEFAULT_TOL),
{
    lit(DEFAULT_TOL)
}

/// Default base learning rate.
pub fn default_lr_weights() -> (r: Scalar)
    ensures
        r == lit(DEFAULT_LR_WEIGHTS),
{
    lit(DEFAULT_LR_WEIGHTS)
}

/// Default initial scale of the non-linear part of a residual layer.
pub fn default_rezero_init() -> (r: Scalar)
    ensures
        r == lit(DEFAULT_REZERO_INIT),
{
    lit(DEFAULT_REZERO_INIT)
}

/// Default softmax temperature of distillation: one.
pub fn default_temperature() -> (r: Scalar)
    ensures
        r == lit(ONE),
{
    lit(ONE)
}

/// By default hidden layers learn from the back-propagated signal alone.
pub fn default_local_lambda() -> (r: Scalar)
    ensures
        r == lit(ONE),
{
    lit(ONE)
}

/// Default number of inference steps before the loop may stop.
pub fn default_min_steps() -> (r: usize)
    ensures
        r == 1,
{
    1
}

/// Default bound on the number of inference steps.
pub fn default_max_steps() -> (r: usize)
    ensures
        r == 20,
{
    20
}

/// By default a sweep reads the states from before the sweep.
pub fn default_synchronous() -> (r: bool)
    ensures
        r,
{
    true
}

/// A copy of a list of layer definitions.
pub fn copy_defs(defs: &Vec<LayerDef>) -> (r: Vec<LayerDef>)
    ensures
        r@ == defs@,
{
    let mut out: Vec<LayerDef> = Vec::new();
    let mut i: usize = 0;
    while i < defs.len()
        invariant
            i <= defs.len(),
            out@ == defs@.take(i as int),
        decreases defs.len() - i,
    {
        out.push(defs[i]);
        i = i + 1;
        assert(out@ =~= defs@.take(i as int));
    }
    assert(defs@.take(defs@.len() as int) =~= defs@);
    out
}

/// The sum of the sizes of a list of layers.
pub fn total_size(defs: &Vec<LayerDef>) -> (r: usize)
    requires
        sizes_upto(defs@, defs@.len()) <= usize::MAX,
    ensures
        r == sizes_upto(defs@, defs@.len()),
{
    let mut sum: usize = 0;
    let mut i: usize = 0;
    while i < defs.len()
        invariant
            i <= defs.len(),
            sum == sizes_upto(defs@, i as nat),
            sizes_upto(defs@, defs@.len()) <= usize::MAX,
        decreases defs.len() - i,
    {
        proof {
            lemma_sizes_monotone(defs@, (i + 1) as nat, defs@.len());
        }
        sum = sum + defs[i].size;
        i = i + 1;
    }
    sum
}

pub proof fn lemma_sizes_monotone(defs: Seq<LayerDef>, i: nat, j: nat)
    requires
        i <= j,
    ensures
        sizes_upto(defs, i) <= sizes_upto(defs, j),
    decreases j,
{
    if i < j {
        lemma_sizes_monotone(defs, i, (j - 1) as nat);
    }
}

impl View for PcActorConfig {
    type V = PcActorConfigView;

    open spec fn view(&self) -> PcActorConfigView {
        PcActorConfigView {
            input_size: self.input_size,
            hidden_layers: self.hidden_layers@,
            output_size: self.output_size,
            output_activation: self.output_activation,
            alpha: self.alpha,
            tol: self.tol,
            min_steps: self.min_steps,
            max_steps: self.max_steps,
            lr_weights: self.lr_weights,
            synchronous: self.synchronous,
            temperature: self.temperature,
            local_lambda: self.local_lambda,
            residual: self.residual,
            rezero_init: self.rezero_init,
        }
    }
}

impl Clone for PcActorConfig {
    fn clone(&self) -> (r: Self)
        ensures
            r@ == self@,
    {
        PcActorConfig {
            input_size: self.input_size,
            hidden_layers: copy_defs(&self.hidden_layers),
            output_size: self.output_size,
            output_activation: self.output_activation,
            alpha: self.alpha,
            tol: self.tol,
            min_steps: self.min_steps,
            max_steps: self.max_steps,
            lr_weights: self.lr_weights,
            synchronous: self.synchronous,
            temperature: self.temperature,
            local_lambda: self.local_lambda,
            residual: self.residual,
            rezero_init: self.rezero_init,
        }
    }
}

/// The first rule that an actor configuration breaks.
pub open spec fn actor_fault(cfg: PcActorConfigView) -> Option<ConfigRule> {
    if cfg.input_size == 0 {
        Some(ConfigRule::ActorInputSizeZero)
    } else if cfg.output_size == 0 {
        Some(ConfigRule::ActorOutputSizeZero)
    } else if cfg.temperature.le(lit(ZERO)) {
        Some(ConfigRule::TemperatureNotPositive(cfg.temperature))
    } else if !cfg.local_lambda.within(lit(ZERO), lit(ONE)) {
        Some(ConfigRule::LocalLambdaOutOfRange(cfg.local_lambda))
    } else if cfg.residual && cfg.rezero_init.lt(lit(ZERO)) {
        Some(ConfigRule::RezeroInitNegative(cfg.rezero_init))
    } else {
        None
    }
}

/// How an action is selected.
#[derive(Clone, Copy, Debug, PartialEq, Eq, Structural)]
pub enum SelectionMode {
    /// Sample from the policy.
    Training,
    /// Take the policy's mean.
    Play,
}

/// The outcome of inference.
#[derive(Debug)]
pub struct InferResult<L: LinAlg> {
    /// Output of the settled network.
    pub y_conv: L::Vector,
    /// All hidden states, one after the other.
    pub latent_concat: L::Vector,
    /// Hidden states, from the input upwards.
    pub hidden_states: Vec<L::Vector>,
    /// Prediction errors of the last step, from the topmost hidden layer down.
    pub prediction_errors: Vec<L::Vector>,
    /// Root mean square of the prediction errors.
    pub surprise_score: Scalar,
    /// Inference steps taken.
    pub steps_used: usize,
    /// Whether the loop stopped because it converged.
    pub converged: bool,
    /// Own responses of skip layers.
    pub tanh_components: Vec<Option<L::Vector>>,
}

/// The content of an optional vector.
pub open spec fn opt_vec<L: LinAlg>(o: Option<L::Vector>) -> Option<Seq<Scalar>> {
    match o {
        Some(v) => Some(L::vec_view(v)),
        None => None,
    }
}

/// The content of an optional matrix.
pub open spec fn opt_mat<L: LinAlg>(o: Option<L::Matrix>) -> Option<MatView> {
    match o {
        Some(m) => Some(L::mat_view(m)),
        None => None,
    }
}

/// The contents of lists of states and of own responses.
pub open spec fn hidden_view<L: LinAlg>(
    states: Seq<L::Vector>,
    responses: Seq<Option<L::Vector>>,
) -> HiddenView {
    HiddenView {
        states: vec_views::<L>(states),
        responses: responses.map_values(|o: Option<L::Vector>| opt_vec::<L>(o)),
    }
}

impl<L: LinAlg> InferResult<L> {
    pub open spec fn view(&self) -> InferView {
        InferView {
            y_conv: L::vec_view(self.y_conv),
            latent_concat: L::vec_view(self.latent_concat),
            hidden: hidden_view::<L>(self.hidden_states@, self.tanh_components@),
            prediction_errors: vec_views::<L>(self.prediction_errors@),
            surprise_score: self.surprise_score,
            steps_used: self.steps_used as nat,
            converged: self.converged,
        }
    }
}

/// A predictive-coding network.
pub struct PcActor<L: LinAlg> {
    /// Hidden layers followed by the output layer.
    pub layers: Vec<Layer<L>>,
    pub config: PcActorConfig,
    /// Scales of the skip connections.
    pub rezero_alpha: Vec<Scalar>,
    /// Projections of the skip connections; `None` is the identity.
    pub skip_projections: Vec<Option<L::Matrix>>,
    pub backend: L,
}

/// Copies of a list of vectors.
fn copy_vecs<L: LinAlg>(backend: &L, vs: &Vec<L::Vector>) -> (r: Vec<L::Vector>)
    ensures
        vec_views::<L>(r@) == vec_views::<L>(vs@),
{
    let mut out: Vec<L::Vector> = Vec::new();
    let mut i: usize = 0;
    while i < vs.len()
        invariant
            i <= vs.len(),
            out@.len() == i,
            forall|k: int| 0 <= k < i ==> L::vec_view(#[trigger] out@[k]) == L::vec_view(vs@[k]),
        decreases vs.len() - i,
    {
        out.push(backend.vec_clone(&vs[i]));
        i = i + 1;
    }
    assert(vec_views::<L>(out@) =~= vec_views::<L>(vs@));
    out
}

/// Copies of a list of optional vectors.
fn copy_opt_vecs<L: LinAlg>(backend: &L, vs: &Vec<Option<L::Vector>>) -> (r: Vec<
    Option<L::Vector>,
>)
    ensures
        r@.len() == vs@.len(),
        forall|k: int|
            0 <= k < vs@.len() ==> opt_vec::<L>(#[trigger] r@[k]) == opt_vec::<L>(vs@[k]),
{
    let mut out: Vec<Option<L::Vector>> = Vec::new();
    let mut i: usize = 0;
    while i < vs.len()
        invariant
            i <= vs.len(),
            out@.len() == i,
            forall|k: int|
                0 <= k < i ==> opt_vec::<L>(#[trigger] out@[k]) == opt_vec::<L>(vs@[k]),
        decreases vs.len() - i,
    {
        let copy = match &vs[i] {
            Some(v) => Some(backend.vec_clone(v)),
            None => None,
        };
        out.push(copy);
        i = i + 1;
    }
    out
}

/// What layer `i` itself produced.
fn own<'a, L: LinAlg>(
    states: &'a Vec<L::Vector>,
    responses: &'a Vec<Option<L::Vector>>,
    i: usize,
) -> (r: &'a L::Vector)
    requires
        i < states@.len(),
        i < responses@.len(),
    ensures
        L::vec_view(*r) == hidden_view::<L>(states@, responses@).own(i as int),
{
    match &responses[i] {
        Some(v) => v,
        None => &states[i],
    }
}

impl<L: LinAlg> PcActor<L> {
    /// The trainable content.
    pub open spec fn view(&self) -> ActorView {
        ActorView {
            layers: layer_views(self.layers@),
            rezero_alpha: self.rezero_alpha@,
            skip_projections: self.skip_projections@.map_values(
                |o: Option<L::Matrix>| opt_mat::<L>(o),
            ),
        }
    }

    /// The content fits the configuration.
    pub open spec fn wf(&self) -> bool {
        self@.wf(self.config@)
    }

    /// An actor with freshly drawn weights.
    pub fn new(backend: L, config: PcActorConfig, rng: &mut StdRng) -> (r: Result<Self, PcError>)
        ensures
            match actor_fault(config@) {
                Some(rule) => r == Err::<Self, PcError>(PcError::ConfigValidation(rule)),
                None => r is Ok,
            },
            r is Err ==> *final(rng) == *old(rng),
            r matches Ok(actor) ==> {
                &&& actor.config == config
                &&& actor.backend == backend
                &&& actor.wf()
                &&& (actor@, *final(rng)) == ActorView::initial::<L>(*old(rng), config@)
            },
    {
        if config.input_size == 0 {
            return Err(PcError::ConfigValidation(ConfigRule::ActorInputSizeZero));
        }
        if config.output_size == 0 {
            return Err(PcError::ConfigValidation(ConfigRule::ActorOutputSizeZero));
        }
        if config.temperature.le(lit(ZERO)) {
            return Err(
                PcError::ConfigValidation(ConfigRule::TemperatureNotPositive(config.temperature)),
            );
        }
        if !config.local_lambda.within(lit(ZERO), lit(ONE)) {
            return Err(
                PcError::ConfigValidation(ConfigRule::LocalLambdaOutOfRange(config.local_lambda)),
            );
        }
        if config.residual && config.rezero_init.lt(lit(ZERO)) {
            return Err(
                PcError::ConfigValidation(ConfigRule::RezeroInitNegative(config.rezero_init)),
            );
        }
        let ghost cfg = config@;
        let ghost start = *rng;
        let n_hidden: usize = config.hidden_layers.len();
        let layers = build_stack(
            &backend,
            config.input_size,
            &config.hidden_layers,
            config.output_size,
            config.output_activation,
            rng,
        );
        let ghost after_layers = *rng;

        let mut rezero_alpha: Vec<Scalar> = Vec::new();
        let mut skip_projections: Vec<Option<L::Matrix>> = Vec::new();
        if config.residual && n_hidden >= 1 {
            let mut i: usize = 1;
            while i < n_hidden
                invariant
                    1 <= i <= n_hidden,
                    cfg == config@,
                    n_hidden == cfg.depth(),
                    rezero_alpha@ == Seq::new((i - 1) as nat, |k: int| cfg.rezero_init),
                    skip_projections@.len() == i - 1,
                    (
                        skip_projections@.map_values(|o: Option<L::Matrix>| opt_mat::<L>(o)),
                        *rng,
                    ) == initial_projections::<L>(after_layers, cfg, (i - 1) as nat),
                    forall|s: int|
                        #![trigger skip_projections@[s]]
                        0 <= s < i - 1 ==> match skip_projections@[s] {
                            Some(m) => {
                                &&& L::mat_view(m).wf()
                                &&& L::mat_view(m).rows == cfg.hidden_layers[s + 1].size
                                &&& L::mat_view(m).cols == cfg.hidden_layers[s].size
                            },
                            None => cfg.hidden_layers[s + 1].size == cfg.hidden_layers[s].size,
                        },
                decreases n_hidden - i,
            {
                let ghost slots = skip_projections@;
                rezero_alpha.push(config.rezero_init);
                let above: usize = config.hidden_layers[i].size;
                let below: usize = config.hidden_layers[i - 1].size;
                if above != below {
                    let m = backend.xavier_mat(above, below, rng);
                    skip_projections.push(Some(m));
                } else {
                    skip_projections.push(None);
                }
                assert(rezero_alpha@ =~= Seq::new(i as nat, |k: int| cfg.rezero_init));
                assert(skip_projections@.map_values(|o: Option<L::Matrix>| opt_mat::<L>(o))
                    =~= slots.map_values(|o: Option<L::Matrix>| opt_mat::<L>(o)).push(
                    opt_mat::<L>(skip_projections@[i - 1]),
                ));
                i = i + 1;
            }
        }
        let actor = PcActor { layers, config, rezero_alpha, skip_projections, backend };
        assert(actor@ =~= ActorView::initial::<L>(start, cfg).0);
        Ok(actor)
    }

    /// The total width of all hidden layers.
    pub fn latent_size(&self) -> (r: usize)
        requires
            self.config@.latent_size() <= usize::MAX,
        ensures
            r == self.config@.latent_size(),
    {
        total_size(&self.config.hidden_layers)
    }

    /// Whether hidden layer `i` has a skip connection.
    fn is_skip_layer(&self, i: usize) -> (r: bool)
        ensures
            r == self.config@.skips(i as int),
    {
        self.config.residual && i >= 1
    }

    /// The slot of the skip connection into hidden layer `i`.
    pub fn skip_alpha_index(&self, i: usize) -> (r: Option<usize>)
        ensures
            r == if self.config@.skips(i as int) {
                Some((i - 1) as usize)
            } else {
                None
            },
    {
        if !self.is_skip_layer(i) {
            return None;
        }
        Some(i - 1)
    }

    /// The state of hidden layer `i` from the state below and its own response.
    fn blend(&self, i: usize, below: &L::Vector, response: &L::Vector) -> (r: L::Vector)
        requires
            self.wf(),
            i < self.config@.depth(),
            L::vec_view(*below).len() == self.config@.fan_in(i as int),
            L::vec_view(*response).len() == self.config@.fan_out(i as int),
        ensures
            L::vec_view(r) == self@.blend::<L>(
                self.config@,
                i as int,
                L::vec_view(*below),
                L::vec_view(*response),
            ),
            L::vec_view(r).len() == self.config@.fan_out(i as int),
    {
        match self.skip_alpha_index(i) {
            Some(slot) => {
                assert(self@.skip_projections[slot as int] == opt_mat::<L>(
                    self.skip_projections@[slot as int],
                ));
                assert(self@.slot_wf(self.config@, slot as int));
                let scaled = self.backend.vec_scale(response, self.rezero_alpha[slot]);
                match &self.skip_projections[slot] {
                    Some(proj) => {
                        let skip_path = self.backend.mat_vec_mul(proj, below);
                        self.backend.vec_add(&skip_path, &scaled)
                    },
                    None => self.backend.vec_add(below, &scaled),
                }
            },
            None => self.backend.vec_clone(response),
        }
    }

    /// The bottom-up pass.
    fn rise(&self, input: &L::Vector) -> (r: (Vec<L::Vector>, Vec<Option<L::Vector>>))
        requires
            self.wf(),
            L::vec_view(*input).len() == self.config.input_size,
        ensures
            hidden_view::<L>(r.0@, r.1@) == rise::<L>(
                self@,
                self.config@,
                L::vec_view(*input),
                self.config@.depth(),
            ),
            hidden_view::<L>(r.0@, r.1@).wf(self.config@, self.config@.depth()),
    {
        let ghost cfg = self.config@;
        let ghost x = L::vec_view(*input);
        let n_hidden: usize = self.config.hidden_layers.len();
        let mut states: Vec<L::Vector> = Vec::new();
        let mut responses: Vec<Option<L::Vector>> = Vec::new();
        let mut i: usize = 0;
        while i < n_hidden
            invariant
                i <= n_hidden,
                self.wf(),
                cfg == self.config@,
                n_hidden == cfg.depth(),
                x == L::vec_view(*input),
                x.len() == cfg.input_size,
                hidden_view::<L>(states@, responses@) == rise::<L>(self@, cfg, x, i as nat),
                hidden_view::<L>(states@, responses@).wf(cfg, i as nat),
            decreases n_hidden - i,
        {
            let ghost before = hidden_view::<L>(states@, responses@);
            let below = if i == 0 {
                input
            } else {
                &states[i - 1]
            };
            assert(L::vec_view(*below) == before.below(x, i as int)) by {
                if i > 0 {
                    assert(before.states[i - 1] == L::vec_view(states@[i - 1]));
                }
            }
            assert(self@.layers[i as int] == self.layers@[i as int]@);
            let response = self.layers[i].forward(below);
            let state = self.blend(i, below, &response);
            let ghost response_view = L::vec_view(response);
            states.push(state);
            if self.is_skip_layer(i) {
                responses.push(Some(response));
            } else {
                responses.push(None);
            }
            let ghost after = hidden_view::<L>(states@, responses@);
            assert(after.states =~= before.states.push(L::vec_view(state)));
            assert(after.responses =~= before.responses.push(
                if cfg.skips(i as int) {
                    Some(response_view)
                } else {
                    None
                },
            ));
            i = i + 1;
        }
        assert(hidden_view::<L>(states@, responses@) == rise::<L>(self@, cfg, x, cfg.depth()));
        (states, responses)
    }

    /// The output layer's response.
    fn readout(&self, input: &L::Vector, states: &Vec<L::Vector>) -> (y: L::Vector)
        requires
            self.wf(),
            L::vec_view(*input).len() == self.config.input_size,
            states@.len() == self.config@.depth(),
            forall|i: int|
                0 <= i < states@.len() ==> (#[trigger] vec_views::<L>(states@)[i]).len()
                    == self.config@.hidden_layers[i].size,
        ensures
            forall|responses: Seq<Option<L::Vector>>|
                L::vec_view(y) == readout::<L>(
                    self@,
                    self.config@,
                    L::vec_view(*input),
                    #[trigger] hidden_view::<L>(states@, responses),
                ),
            L::vec_view(y).len() == self.config.output_size,
    {
        let n_hidden: usize = self.config.hidden_layers.len();
        let top = if n_hidden > 0 {
            &states[n_hidden - 1]
        } else {
            input
        };
        assert(n_hidden > 0 ==> vec_views::<L>(states@)[n_hidden - 1] == L::vec_view(
            states@[n_hidden - 1],
        ));
        assert(self@.layers[n_hidden as int] == self.layers@[n_hidden as int]@);
        self.layers[n_hidden].forward(top)
    }

    /// Relaxes every hidden layer once, from the top down, and returns the
    /// prediction errors in that order.
    fn sweep(
        &self,
        input: &L::Vector,
        y: &L::Vector,
        states: &mut Vec<L::Vector>,
        responses: &mut Vec<Option<L::Vector>>,
    ) -> (errors: Vec<L::Vector>)
        requires
            self.wf(),
            L::vec_view(*input).len() == self.config.input_size,
            L::vec_view(*y).len() == self.config.output_size,
            hidden_view::<L>(old(states)@, old(responses)@).wf(self.config@, self.config@.depth()),
        ensures
            (
                hidden_view::<L>(final(states)@, final(responses)@),
                vec_views::<L>(errors@),
            ) == sweep::<L>(
                self@,
                self.config@,
                L::vec_view(*input),
                L::vec_view(*y),
                hidden_view::<L>(old(states)@, old(responses)@),
                self.config@.depth(),
            ),
            hidden_view::<L>(final(states)@, final(responses)@).wf(
                self.config@,
                self.config@.depth(),
            ),
            errors_fit(vec_views::<L>(errors@), self.config@),
            errors@.len() == self.config@.depth(),
    {
        let ghost cfg = self.config@;
        let ghost a = self@;
        let ghost x = L::vec_view(*input);
        let ghost yv = L::vec_view(*y);
        let ghost start = hidden_view::<L>(states@, responses@);
        let n_hidden: usize = self.config.hidden_layers.len();
        let (snap_states, snap_responses) = if self.config.synchronous {
            (copy_vecs(&self.backend, states), copy_opt_vecs(&self.backend, responses))
        } else {
            (Vec::new(), Vec::new())
        };
        proof {
            if cfg.synchronous {
                assert(hidden_view::<L>(snap_states@, snap_responses@) =~= start);
            }
        }
        let mut errors: Vec<L::Vector> = Vec::new();
        let mut k: usize = 0;
        assert(vec_views::<L>(errors@) =~= Seq::empty());
        while k < n_hidden
            invariant
                k <= n_hidden,
                self.wf(),
                a == self@,
                cfg == self.config@,
                n_hidden == cfg.depth(),
                x == L::vec_view(*input),
                x.len() == cfg.input_size,
                yv == L::vec_view(*y),
                yv.len() == cfg.output_size,
                start.wf(cfg, cfg.depth()),
                cfg.synchronous ==> hidden_view::<L>(snap_states@, snap_responses@) == start,
                (hidden_view::<L>(states@, responses@), vec_views::<L>(errors@)) == sweep::<L>(
                    a,
                    cfg,
                    x,
                    yv,
                    start,
                    k as nat,
                ),
                hidden_view::<L>(states@, responses@).wf(cfg, cfg.depth()),
                errors_fit(vec_views::<L>(errors@), cfg),
                errors@.len() == k,
            decreases n_hidden - k,
        {
            let ghost live = hidden_view::<L>(states@, responses@);
            let ghost errors_before = errors@;
            let i: usize = n_hidden - 1 - k;
            let ghost seen = if cfg.synchronous {
                start
            } else {
                live
            };
            let above = if i == n_hidden - 1 {
                y
            } else if self.config.synchronous {
                own::<L>(&snap_states, &snap_responses, i + 1)
            } else {
                own::<L>(&*states, &*responses, i + 1)
            };
            let target = if self.config.synchronous {
                self.backend.vec_clone(own::<L>(&snap_states, &snap_responses, i))
            } else {
                self.backend.vec_clone(own::<L>(&*states, &*responses, i))
            };
            assert(L::vec_view(target) == seen.own(i as int));
            assert(a.layers[i + 1] == self.layers@[i + 1]@);
            let prediction = self.layers[i + 1].transpose_forward(
                above,
                self.config.hidden_layers[i].activation,
            );
            let error = self.backend.vec_sub(&prediction, &target);
            assert(L::vec_view(error) == surprise_at::<L>(a, cfg, yv, seen, i as int));
            let step = self.backend.vec_scale(&error, self.config.alpha);
            let moved = self.backend.vec_add(&target, &step);
            let below = if i > 0 {
                &states[i - 1]
            } else {
                input
            };
            assert(L::vec_view(*below) == live.below(x, i as int)) by {
                if i > 0 {
                    assert(live.states[i - 1] == L::vec_view(states@[i - 1]));
                }
            }
            let state = self.blend(i, below, &moved);
            errors.push(error);
            let ghost states_before = states@;
            let ghost responses_before = responses@;
            let ghost moved_view = L::vec_view(moved);
            states.set(i, state);
            if self.is_skip_layer(i) {
                responses.set(i, Some(moved));
            }
            let ghost after = hidden_view::<L>(states@, responses@);
            assert(after.states =~= live.states.update(i as int, L::vec_view(state)));
            assert(cfg.skips(i as int) ==> after.responses =~= live.responses.update(
                i as int,
                Some(moved_view),
            ));
            assert(vec_views::<L>(errors@) =~= vec_views::<L>(errors_before).push(
                L::vec_view(error),
            ));
            assert(after == relax::<L>(a, cfg, x, yv, seen, live, i as int));
            k = k + 1;
        }
        errors
    }

    /// Runs predictive-coding inference on `input`.
    pub fn infer(&self, input: &[Scalar]) -> (r: InferResult<L>)
        requires
            self.wf(),
            input@.len() == self.config.input_size,
        ensures
            r@ == inference::<L>(self@, self.config@, input@),
            r@.fits(self.config@),
    {
        let ghost cfg = self.config@;
        let ghost a = self@;
        let n_hidden: usize = self.config.hidden_layers.len();
        let input_vec = self.backend.vec_from_slice(input);
        let ghost x = L::vec_view(input_vec);
        let (mut states, mut responses) = self.rise(&input_vec);
        let mut y = self.readout(&input_vec, &states);
        let mut steps_used: usize = 0;
        let mut converged = false;
        let mut surprise_score = lit(ZERO);
        let mut last_errors: Vec<L::Vector> = Vec::new();
        assert(vec_views::<L>(last_errors@) =~= Seq::empty());
        while steps_used < self.config.max_steps && !converged
            invariant
                steps_used <= self.config.max_steps,
                self.wf(),
                a == self@,
                cfg == self.config@,
                n_hidden == cfg.depth(),
                x == L::vec_view(input_vec),
                x.len() == cfg.input_size,
                hidden_view::<L>(states@, responses@).wf(cfg, cfg.depth()),
                L::vec_view(y).len() == cfg.output_size,
                errors_fit(vec_views::<L>(last_errors@), cfg),
                steps_used > 0 ==> last_errors@.len() == cfg.depth(),
                deliberate::<L>(a, cfg, x, steps_used as nat) == (Deliberation {
                    hidden: hidden_view::<L>(states@, responses@),
                    y: L::vec_view(y),
                    errors: vec_views::<L>(last_errors@),
                    surprise: surprise_score,
                    steps: steps_used as nat,
                    converged,
                }),
            decreases self.config.max_steps - steps_used,
        {
            let errors = self.sweep(&input_vec, &y, &mut states, &mut responses);
            y = self.readout(&input_vec, &states);
            surprise_score = self.backend.rms_error(&errors);
            last_errors = errors;
            steps_used = steps_used + 1;
            converged = lit(ZERO).lt(self.config.alpha) && steps_used >= self.config.min_steps
                && surprise_score.lt(self.config.tol);
            assert(converged == settled(cfg, steps_used as nat, surprise_score));
        }
        proof {
            if converged {
                lemma_deliberate_stable::<L>(a, cfg, x, steps_used as nat, cfg.max_steps as nat);
            }
        }
        let ghost settled_states = vec_views::<L>(states@);
        let mut latent: Vec<Scalar> = Vec::new();
        let mut i: usize = 0;
        while i < n_hidden
            invariant
                i <= n_hidden,
                n_hidden == states@.len(),
                n_hidden == cfg.depth(),
                settled_states == vec_views::<L>(states@),
                latent@ == concat_upto(settled_states, i as nat),
            decreases n_hidden - i,
        {
            let mut part = self.backend.vec_to_vec(&states[i]);
            assert(settled_states[i as int] == L::vec_view(states@[i as int]));
            latent.append(&mut part);
            i = i + 1;
        }
        let latent_concat = self.backend.vec_from_slice(latent.as_slice());
        proof {
            lemma_concat_len(settled_states, cfg, cfg.depth());
        }
        InferResult {
            y_conv: y,
            latent_concat,
            hidden_states: states,
            prediction_errors: last_errors,
            surprise_score,
            steps_used,
            converged,
            tanh_components: responses,
        }
    }

    /// Updates the weights from the error signal at the output, with hidden
    /// layers learning in the configured blend of back-propagation and local
    /// prediction errors.
    pub fn update_weights(
        &mut self,
        output_delta: &[Scalar],
        infer_result: &InferResult<L>,
        input: &[Scalar],
        surprise_scale: Scalar,
        decay_factors: &[Scalar],
    )
        requires
            old(self).wf(),
            evidence::<L>(
                output_delta@,
                infer_result@,
                input@,
                surprise_scale,
                old(self).config.local_lambda,
                decay_factors@,
            ).wf::<L>(old(self).config@),
        ensures
            final(self).config == old(self).config,
            final(self).backend == old(self).backend,
            final(self).wf(),
            final(self)@ == learned::<L>(
                old(self)@,
                old(self).config@,
                evidence::<L>(
                    output_delta@,
                    infer_result@,
                    input@,
                    surprise_scale,
                    old(self).config.local_lambda,
                    decay_factors@,
                ),
            ),
    {
        let lambda = self.config.local_lambda;
        self.update_weights_hybrid(
            output_delta,
            infer_result,
            input,
            surprise_scale,
            lambda,
            decay_factors,
        );
    }

    /// Updates the weights with the blend `lambda`.
    fn update_weights_hybrid(
        &mut self,
        output_delta: &[Scalar],
        infer_result: &InferResult<L>,
        input: &[Scalar],
        surprise_scale: Scalar,
        lambda: Scalar,
        decay_factors: &[Scalar],
    )
        requires
            old(self).wf(),
            evidence::<L>(
                output_delta@,
                infer_result@,
                input@,
                surprise_scale,
                lambda,
                decay_factors@,
            ).wf::<L>(old(self).config@),
        ensures
            final(self).config == old(self).config,
            final(self).backend == old(self).backend,
            final(self).wf(),
            final(self)@ == learned::<L>(
                old(self)@,
                old(self).config@,
                evidence::<L>(
                    output_delta@,
                    infer_result@,
                    input@,
                    surprise_scale,
                    lambda,
                    decay_factors@,
                ),
            ),
    {
        let ghost cfg = self.config@;
        let ghost start = self@;
        let ghost e = evidence::<L>(
            output_delta@,
            infer_result@,
            input@,
            surprise_scale,
            lambda,
            decay_factors@,
        );
        let input_vec = self.backend.vec_from_slice(input);
        let output_delta_vec = self.backend.vec_from_slice(output_delta);
        let n_hidden: usize = self.config.hidden_layers.len();
        let lr = self.config.lr_weights;

        let output_input = if n_hidden > 0 {
            &infer_result.hidden_states[n_hidden - 1]
        } else {
            &input_vec
        };
        assert(n_hidden > 0 ==> infer_result@.hidden.states[n_hidden - 1] == L::vec_view(
            infer_result.hidden_states@[n_hidden - 1],
        ));
        assert(self@.layers[n_hidden as int] == self.layers@[n_hidden as int]@);
        let ghost layers_before = self.layers@;
        let mut bp_delta = self.layers[n_hidden].backward(
            output_input,
            &infer_result.y_conv,
            &output_delta_vec,
            lr,
            surprise_scale,
        );
        assert(self@.layers =~= layer_views(layers_before).update(
            n_hidden as int,
            self.layers@[n_hidden as int]@,
        ));

        let mut k: usize = 0;
        while k < n_hidden
            invariant
                k <= n_hidden,
                self.config == old(self).config,
                self.backend == old(self).backend,
                cfg == self.config@,
                n_hidden == cfg.depth(),
                lr == cfg.lr_weights,
                e == evidence::<L>(
                    output_delta@,
                    infer_result@,
                    input@,
                    surprise_scale,
                    lambda,
                    decay_factors@,
                ),
                e.wf::<L>(cfg),
                L::vec_view(input_vec) == input@,
                self.wf(),
                L::vec_view(bp_delta).len() == cfg.fan_in(n_hidden - k),
                (Lesson { actor: self@, delta: L::vec_view(bp_delta) }) == learn_upto::<L>(
                    start,
                    cfg,
                    e,
                    k as nat,
                ),
            decreases n_hidden - k,
        {
            let ghost s = Lesson { actor: self@, delta: L::vec_view(bp_delta) };
            let i: usize = n_hidden - 1 - k;
            let layer_input = if i > 0 {
                &infer_result.hidden_states[i - 1]
            } else {
                &input_vec
            };
            assert(L::vec_view(*layer_input) == e.inferred.hidden.below(e.input, i as int)) by {
                if i > 0 {
                    assert(infer_result@.hidden.states[i - 1] == L::vec_view(
                        infer_result.hidden_states@[i - 1],
                    ));
                }
            }
            let layer_surprise = if decay_factors.len() == 0 {
                surprise_scale
            } else {
                L::r_mul(surprise_scale, decay_factors[i])
            };
            let signal = self.teaching(lambda, &bp_delta, infer_result, k);
            let ghost signal_view = L::vec_view(signal);
            assert(signal_view == teaching_signal::<L>(
                lambda,
                s.delta,
                e.inferred.prediction_errors[cfg.depth() - 1 - i],
            ));
            let output = own::<L>(&infer_result.hidden_states, &infer_result.tanh_components, i);
            assert(infer_result@.hidden.states[i as int] == L::vec_view(
                infer_result.hidden_states@[i as int],
            ));
            assert(infer_result@.hidden.responses[i as int] == opt_vec::<L>(
                infer_result.tanh_components@[i as int],
            ));
            let ghost layers_before = self.layers@;
            assert(self@.layers[i as int] == self.layers@[i as int]@);
            match self.skip_alpha_index(i) {
                Some(slot) => {
                    let ghost projections_before = self.skip_projections@;
                    assert(self@.skip_projections[slot as int] == opt_mat::<L>(
                        projections_before[slot as int],
                    ));
                    assert(self@.slot_wf(cfg, slot as int));
                    let effective_lr = L::r_mul(lr, layer_surprise);
                    let scaled = self.backend.vec_scale(&signal, self.rezero_alpha[slot]);
                    let propagated = self.layers[i].backward(
                        layer_input,
                        output,
                        &scaled,
                        lr,
                        layer_surprise,
                    );
                    let grad_alpha = self.backend.vec_dot(&signal, output);
                    let alpha = self.rezero_alpha[slot];
                    self.rezero_alpha[slot] = L::r_sub(alpha, L::r_mul(effective_lr, grad_alpha));
                    match &mut self.skip_projections[slot] {
                        Some(proj) => {
                            let proj_t = self.backend.mat_transpose(proj);
                            let skip_delta = self.backend.mat_vec_mul(&proj_t, &signal);
                            let dw = self.backend.outer_product(&signal, layer_input);
                            self.backend.mat_scale_add(proj, &dw, effective_lr.neg());
                            bp_delta = self.backend.vec_add(&propagated, &skip_delta);
                        },
                        None => {
                            bp_delta = self.backend.vec_add(&propagated, &signal);
                        },
                    }
                    assert(self@.skip_projections =~= learn_hidden::<L>(
                        s,
                        cfg,
                        e,
                        i as int,
                    ).actor.skip_projections);
                },
                None => {
                    bp_delta = self.layers[i].backward(
                        layer_input,
                        output,
                        &signal,
                        lr,
                        layer_surprise,
                    );
                },
            }
            assert(self@.layers =~= layer_views(layers_before).update(
                i as int,
                self.layers@[i as int]@,
            ));
            assert((Lesson { actor: self@, delta: L::vec_view(bp_delta) }) =~= learn_hidden::<L>(
                s,
                cfg,
                e,
                i as int,
            ));
            k = k + 1;
        }
    }
}

impl<L: LinAlg> PcActor<L> {
    /// An equal actor.
    pub fn duplicate(&self) -> (r: Self)
        ensures
            r@ == self@,
            r.config@ == self.config@,
            cloned(self.backend, r.backend),
            forall|k: int|
                0 <= k < r.layers@.len() ==> cloned(
                    self.layers@[k].backend,
                    (#[trigger] r.layers@[k]).backend,
                ),
            self.wf() ==> r.wf(),
    {
        let mut skip_projections: Vec<Option<L::Matrix>> = Vec::new();
        let mut i: usize = 0;
        while i < self.skip_projections.len()
            invariant
                i <= self.skip_projections.len(),
                skip_projections@.len() == i,
                forall|k: int|
                    0 <= k < i ==> opt_mat::<L>(#[trigger] skip_projections@[k]) == opt_mat::<L>(
                        self.skip_projections@[k],
                    ),
            decreases self.skip_projections.len() - i,
        {
            let copy = match &self.skip_projections[i] {
                Some(m) => Some(self.backend.mat_clone(m)),
                None => None,
            };
            skip_projections.push(copy);
            i = i + 1;
        }
        let r = PcActor {
            layers: duplicate_stack(&self.layers),
            config: self.config.clone(),
            rezero_alpha: copy_of(self.rezero_alpha.as_slice()),
            skip_projections,
            backend: self.backend.clone(),
        };
        assert(r@.skip_projections =~= self@.skip_projections);
        r
    }

    /// Checks that two actors have the same sizes throughout.
    fn validate_topology_match(a: &PcActor<L>, b: &PcActor<L>) -> (r: Result<(), PcError>)
        ensures
            match topology_gap(a@, b@) {
                Some(e) => r == Err::<(), PcError>(e),
                None => r is Ok,
            },
    {
        if a.layers.len() != b.layers.len() {
            return Err(
                PcError::DimensionMismatch {
                    expected: a.layers.len(),
                    got: b.layers.len(),
                    context: "polyak actor layer count",
                },
            );
        }
        let n: usize = a.layers.len();
        let mut i: usize = 0;
        while i < n
            invariant
                i <= n,
                n == a.layers@.len(),
                n == b.layers@.len(),
                layers_gap(a@.layers, b@.layers, i as nat) is None,
            decreases n - i,
        {
            let la = &a.layers[i];
            let lb = &b.layers[i];
            assert(a@.layers[i as int] == la@);
            assert(b@.layers[i as int] == lb@);
            assert(layers_gap(a@.layers, b@.layers, (i + 1) as nat) == layer_gap(
                la@,
                lb@,
                i + 1 >= n,
            ));
            let ra: usize = a.backend.mat_rows(&la.weights);
            let rb: usize = b.backend.mat_rows(&lb.weights);
            if ra != rb {
                proof {
                    lemma_layers_gap_stays(a@.layers, b@.layers, (i + 1) as nat, n as nat);
                }
                return Err(
                    PcError::DimensionMismatch {
                        expected: ra,
                        got: rb,
                        context: if i < n - 1 {
                            "polyak actor hidden layer rows"
                        } else {
                            "polyak actor output layer rows"
                        },
                    },
                );
            }
            let ca: usize = a.backend.mat_cols(&la.weights);
            let cb: usize = b.backend.mat_cols(&lb.weights);
            if ca != cb {
                proof {
                    lemma_layers_gap_stays(a@.layers, b@.layers, (i + 1) as nat, n as nat);
                }
                return Err(
                    PcError::DimensionMismatch {
                        expected: ca,
                        got: cb,
                        context: if i < n - 1 {
                            "polyak actor hidden layer cols"
                        } else {
                            "polyak actor output layer cols"
                        },
                    },
                );
            }
            let ba: usize = a.backend.vec_len(&la.bias);
            let bb: usize = b.backend.vec_len(&lb.bias);
            if ba != bb {
                proof {
                    lemma_layers_gap_stays(a@.layers, b@.layers, (i + 1) as nat, n as nat);
                }
                return Err(
                    PcError::DimensionMismatch {
                        expected: ba,
                        got: bb,
                        context: if i < n - 1 {
                            "polyak actor hidden layer bias"
                        } else {
                            "polyak actor output layer bias"
                        },
                    },
                );
            }
            i = i + 1;
        }
        if a.rezero_alpha.len() != b.rezero_alpha.len() {
            return Err(
                PcError::DimensionMismatch {
                    expected: a.rezero_alpha.len(),
                    got: b.rezero_alpha.len(),
                    context: "polyak actor rezero_alpha count",
                },
            );
        }
        if a.skip_projections.len() != b.skip_projections.len() {
            return Err(
                PcError::DimensionMismatch {
                    expected: a.skip_projections.len(),
                    got: b.skip_projections.len(),
                    context: "polyak actor skip_projections count",
                },
            );
        }
        let n_slots: usize = a.skip_projections.len();
        let mut s: usize = 0;
        while s < n_slots
            invariant
                s <= n_slots,
                n_slots == a.skip_projections@.len(),
                n_slots == b.skip_projections@.len(),
                a@.layers.len() == b@.layers.len(),
                layers_gap(a@.layers, b@.layers, a@.layers.len()) is None,
                a.rezero_alpha@.len() == b.rezero_alpha@.len(),
                slots_gap(a@.skip_projections, b@.skip_projections, s as nat) is None,
            decreases n_slots - s,
        {
            assert(a@.skip_projections[s as int] == opt_mat::<L>(a.skip_projections@[s as int]));
            assert(b@.skip_projections[s as int] == opt_mat::<L>(b.skip_projections@[s as int]));
            let ghost gap = slot_gap(a@.skip_projections[s as int], b@.skip_projections[s as int]);
            assert(slots_gap(a@.skip_projections, b@.skip_projections, (s + 1) as nat) == gap);
            proof {
                if gap is Some {
                    lemma_slots_gap_stays(
                        a@.skip_projections,
                        b@.skip_projections,
                        (s + 1) as nat,
                        n_slots as nat,
                    );
                }
            }
            match (&a.skip_projections[s], &b.skip_projections[s]) {
                (Some(ma), Some(mb)) => {
                    let ra: usize = a.backend.mat_rows(ma);
                    let rb: usize = b.backend.mat_rows(mb);
                    if ra != rb {
                        return Err(
                            PcError::DimensionMismatch {
                                expected: ra,
                                got: rb,
                                context: "polyak actor skip_projection rows",
                            },
                        );
                    }
                    let ca: usize = a.backend.mat_cols(ma);
                    let cb: usize = b.backend.mat_cols(mb);
                    if ca != cb {
                        return Err(
                            PcError::DimensionMismatch {
                                expected: ca,
                                got: cb,
                                context: "polyak actor skip_projection cols",
                            },
                        );
                    }
                },
                (None, None) => {},
                (Some(_), None) => {
                    return Err(
                        PcError::DimensionMismatch {
                            expected: 1,
                            got: 0,
                            context: "polyak actor skip_projection presence at slot",
                        },
                    );
                },
                (None, Some(_)) => {
                    return Err(
                        PcError::DimensionMismatch {
                            expected: 0,
                            got: 1,
                            context: "polyak actor skip_projection presence at slot",
                        },
                    );
                },
            }
            s = s + 1;
        }
        Ok(())
    }

    /// Moves every parameter a share `tau` of the way towards `other`. A share
    /// of zero changes nothing; a share of one copies.
    pub fn polyak_update_from(&mut self, other: &PcActor<L>, tau: Scalar) -> (r: Result<
        (),
        PcError,
    >)
        requires
            old(self)@.sound(),
            other@.sound(),
        ensures
            final(self).config == old(self).config,
            final(self).backend == old(self).backend,
            final(self)@.sound(),
            match topology_gap(old(self)@, other@) {
                Some(e) => r == Err::<(), PcError>(e) && *final(self) == *old(self),
                None => {
                    &&& r is Ok
                    &&& tau.num_eq(lit(ZERO)) ==> *final(self) == *old(self)
                    &&& !tau.num_eq(lit(ZERO)) ==> final(self)@ == old(self)@.polyak::<L>(
                        other@,
                        tau,
                    )
                    &&& tau == lit(ONE) ==> copies_at_one::<L>(old(self)@, other@, tau)
                        && L::minus(lit(ONE), tau).num_eq(lit(ZERO))
                    &&& old(self).wf() ==> final(self).wf()
                },
            },
    {
        let ghost start = self@;
        let ghost target = start.polyak::<L>(other@, tau);
        let ghost rest_view = L::minus(lit(ONE), tau);
        proof {
            law_no_gap_iff_same_topology(start, other@);
        }
        match Self::validate_topology_match(self, other) {
            Err(e) => {
                return Err(e);
            },
            Ok(()) => {},
        }
        if tau.num_eq(lit(ZERO)) {
            return Ok(());
        }
        let rest = L::r_sub(lit(ONE), tau);
        let n: usize = self.layers.len();
        let mut i: usize = 0;
        while i < n
            invariant
                i <= n,
                n == start.layers.len(),
                n == self.layers@.len(),
                n == other.layers@.len(),
                rest == rest_view,
                rest_view == L::minus(lit(ONE), tau),
                target == start.polyak::<L>(other@, tau),
                start.sound(),
                other@.sound(),
                same_topology(start, other@),
                self.config == old(self).config,
                self.backend == old(self).backend,
                self.rezero_alpha == old(self).rezero_alpha,
                self.skip_projections == old(self).skip_projections,
                forall|k: int| 0 <= k < i ==> #[trigger] self@.layers[k] == target.layers[k],
                forall|k: int| i <= k < n ==> #[trigger] self@.layers[k] == start.layers[k],
                forall|k: int|
                    #![trigger start.layers[k]]
                    0 <= k < i ==> {
                        &&& m_first_alone::<L>(
                            tau,
                            other@.layers[k].weights,
                            rest,
                            start.layers[k].weights,
                        )
                        &&& v_first_alone::<L>(
                            tau,
                            other@.layers[k].bias,
                            rest,
                            start.layers[k].bias,
                        )
                    },
            decreases n - i,
        {
            let ghost before = self.layers@;
            assert(self@.layers[i as int] == self.layers@[i as int]@);
            assert(self@.layers[i as int] == start.layers[i as int]);
            assert(other@.layers[i as int] == other.layers@[i as int]@);
            let weights = weigh_mat(
                &self.backend,
                tau,
                &other.layers[i].weights,
                rest,
                &self.layers[i].weights,
            );
            let bias = weigh_vec(
                &self.backend,
                tau,
                &other.layers[i].bias,
                rest,
                &self.layers[i].bias,
            );
            self.layers[i].weights = weights;
            self.layers[i].bias = bias;
            assert(self@.layers =~= layer_views(before).update(i as int, self.layers@[i as int]@));
            assert(self@.layers[i as int] == target.layers[i as int]);
            i = i + 1;
        }
        assert(self@.layers =~= target.layers);
        self.rezero_alpha = weigh_list::<L>(tau, &other.rezero_alpha, rest, &self.rezero_alpha);

        let n_slots: usize = self.skip_projections.len();
        let mut s: usize = 0;
        while s < n_slots
            invariant
                s <= n_slots,
                n_slots == start.skip_projections.len(),
                n_slots == self.skip_projections@.len(),
                n_slots == other.skip_projections@.len(),
                rest == rest_view,
                rest_view == L::minus(lit(ONE), tau),
                target == start.polyak::<L>(other@, tau),
                start.sound(),
                other@.sound(),
                same_topology(start, other@),
                self.config == old(self).config,
                self.backend == old(self).backend,
                self@.layers == target.layers,
                self@.rezero_alpha == target.rezero_alpha,
                forall|k: int|
                    0 <= k < s ==> #[trigger] self@.skip_projections[k]
                        == target.skip_projections[k],
                forall|k: int|
                    s <= k < n_slots ==> #[trigger] self@.skip_projections[k]
                        == start.skip_projections[k],
                forall|k: int|
                    #![trigger start.skip_projections[k]]
                    0 <= k < s ==> match (start.skip_projections[k], other@.skip_projections[k]) {
                        (Some(sm), Some(om)) => m_first_alone::<L>(tau, om, rest, sm),
                        _ => true,
                    },
            decreases n_slots - s,
        {
            let ghost before = self.skip_projections@;
            let ghost layers_before = self.layers;
            assert(self@.skip_projections[s as int] == opt_mat::<L>(before[s as int]));
            assert(self@.skip_projections[s as int] == start.skip_projections[s as int]);
            assert(other@.skip_projections[s as int] == opt_mat::<L>(
                other.skip_projections@[s as int],
            ));
            let mixed = match (&self.skip_projections[s], &other.skip_projections[s]) {
                (Some(sm), Some(om)) => Some(weigh_mat(&self.backend, tau, om, rest, sm)),
                _ => None,
            };
            if mixed.is_some() {
                self.skip_projections[s] = mixed;
            }
            assert(self@.skip_projections =~= before.map_values(
                |o: Option<L::Matrix>| opt_mat::<L>(o),
            ).update(s as int, opt_mat::<L>(self.skip_projections@[s as int])));
            assert(self@.skip_projections[s as int] == target.skip_projections[s as int]);
            s = s + 1;
        }
        assert(self@ =~= target);
        Ok(())
    }

    /// Copies every parameter of `other`.
    pub fn copy_weights_from(&mut self, other: &PcActor<L>) -> (r: Result<(), PcError>)
        requires
            old(self)@.sound(),
            other@.sound(),
        ensures
            final(self).config == old(self).config,
            final(self).backend == old(self).backend,
            final(self)@.sound(),
            match topology_gap(old(self)@, other@) {
                Some(e) => r == Err::<(), PcError>(e) && *final(self) == *old(self),
                None => {
                    &&& r is Ok
                    &&& final(self)@ == old(self)@.overwritten(other@)
                    &&& old(self).wf() ==> final(self).wf()
                },
            },
    {
        let ghost start = self@;
        let ghost target = start.overwritten(other@);
        proof {
            law_no_gap_iff_same_topology(start, other@);
        }
        match Self::validate_topology_match(self, other) {
            Err(e) => {
                return Err(e);
            },
            Ok(()) => {},
        }
        let n: usize = self.layers.len();
        let mut i: usize = 0;
        while i < n
            invariant
                i <= n,
                n == start.layers.len(),
                n == self.layers@.len(),
                n == other.layers@.len(),
                target == start.overwritten(other@),
                self.config == old(self).config,
                self.backend == old(self).backend,
                self.rezero_alpha == old(self).rezero_alpha,
                self.skip_projections == old(self).skip_projections,
                forall|k: int| 0 <= k < i ==> #[trigger] self@.layers[k] == target.layers[k],
                forall|k: int| i <= k < n ==> #[trigger] self@.layers[k] == start.layers[k],
            decreases n - i,
        {
            let ghost before = self.layers@;
            assert(self@.layers[i as int] == self.layers@[i as int]@);
            assert(other@.layers[i as int] == other.layers@[i as int]@);
            let weights = self.backend.mat_clone(&other.layers[i].weights);
            let bias = self.backend.vec_clone(&other.layers[i].bias);
            self.layers[i].weights = weights;
            self.layers[i].bias = bias;
            assert(self@.layers =~= layer_views(before).update(i as int, self.layers@[i as int]@));
            i = i + 1;
        }
        assert(self@.layers =~= target.layers);
        self.rezero_alpha = copy_of(other.rezero_alpha.as_slice());
        let n_slots: usize = self.skip_projections.len();
        let mut s: usize = 0;
        while s < n_slots
            invariant
                s <= n_slots,
                n_slots == start.skip_projections.len(),
                n_slots == self.skip_projections@.len(),
                n_slots == other.skip_projections@.len(),
                same_topology(start, other@),
                self.config == old(self).config,
                self.backend == old(self).backend,
                self@.layers == target.layers,
                self@.rezero_alpha == other@.rezero_alpha,
                forall|k: int|
                    0 <= k < s ==> #[trigger] self@.skip_projections[k]
                        == other@.skip_projections[k],
                forall|k: int|
                    s <= k < n_slots ==> #[trigger] self@.skip_projections[k]
                        == start.skip_projections[k],
            decreases n_slots - s,
        {
            let ghost before = self.skip_projections@;
            assert(self@.skip_projections[s as int] == opt_mat::<L>(before[s as int]));
            assert(self@.skip_projections[s as int] == start.skip_projections[s as int]);
            assert(other@.skip_projections[s as int] == opt_mat::<L>(
                other.skip_projections@[s as int],
            ));
            assert(slots_agree(
                start.skip_projections[s as int],
                other@.skip_projections[s as int],
            ));
            let copy = match &other.skip_projections[s] {
                Some(m) => Some(self.backend.mat_clone(m)),
                None => None,
            };
            self.skip_projections[s] = copy;
            assert(self@.skip_projections =~= before.map_values(
                |o: Option<L::Matrix>| opt_mat::<L>(o),
            ).update(s as int, opt_mat::<L>(self.skip_projections@[s as int])));
            s = s + 1;
        }
        assert(self@ =~= target);
        Ok(())
    }

    /// A snapshot of the weights in host memory.
    pub fn to_weights(&self) -> (r: PcActorWeights)
        requires
            self@.sound(),
        ensures
            r@ == self@,
    {
        let mut skip_projections: Vec<Option<Matrix>> = Vec::new();
        let mut i: usize = 0;
        while i < self.skip_projections.len()
            invariant
                i <= self.skip_projections.len(),
                self@.sound(),
                skip_projections@.len() == i,
                forall|k: int|
                    0 <= k < i ==> opt_host(#[trigger] skip_projections@[k])
                        == self@.skip_projections[k],
            decreases self.skip_projections.len() - i,
        {
            assert(self@.skip_projections[i as int] == opt_mat::<L>(
                self.skip_projections@[i as int],
            ));
            let copy = match &self.skip_projections[i] {
                Some(m) => Some(mat_to_host(&self.backend, m)),
                None => None,
            };
            skip_projections.push(copy);
            i = i + 1;
        }
        assert forall|k: int| 0 <= k < self.layers@.len() implies (#[trigger] layer_views(
            self.layers@,
        )[k]).wf() by {
            assert(self@.layers[k].wf());
        }
        let r = PcActorWeights {
            layers: stack_to_host(&self.layers, &self.backend),
            rezero_alpha: copy_of(self.rezero_alpha.as_slice()),
            skip_projections,
        };
        assert(r@.skip_projections =~= self@.skip_projections);
        r
    }

    /// An actor with the given weights, which must fit the configuration.
    pub fn from_weights(backend: L, config: PcActorConfig, weights: PcActorWeights) -> (r: Result<
        Self,
        PcError,
    >)
        requires
            proper_matrices(weights@.layers),
            weights@.projections_wf(),
        ensures
            match actor_misfit(weights@, config@) {
                Some(e) => r == Err::<Self, PcError>(e),
                None => r is Ok,
            },
            r matches Ok(actor) ==> {
                &&& actor@ == weights@
                &&& actor@.sound()
                &&& actor.config == config
                &&& actor.backend == backend
                &&& actor.wf() <==> bridged(weights@, config@)
            },
    {
        let ghost cfg = config@;
        let ghost w = weights@;
        proof {
            law_fitting_bridged_weights_work(w, cfg);
        }
        let n_hidden: usize = config.hidden_layers.len();
        let names = StackNames {
            count: "actor layer count",
            rows: "actor layer weight rows",
            cols: "actor layer weight cols",
            bias: "actor layer bias length",
        };
        match check_stack(
            &weights.layers,
            config.input_size,
            &config.hidden_layers,
            config.output_size,
            Ghost(config.output_activation),
            names,
        ) {
            Err(e) => {
                return Err(e);
            },
            Ok(()) => {},
        }
        if config.residual {
            let expected_residual: usize = if n_hidden >= 1 {
                n_hidden - 1
            } else {
                0
            };
            if weights.rezero_alpha.len() != expected_residual {
                return Err(
                    PcError::DimensionMismatch {
                        expected: expected_residual,
                        got: weights.rezero_alpha.len(),
                        context: "actor rezero_alpha count",
                    },
                );
            }
            if weights.skip_projections.len() != expected_residual {
                return Err(
                    PcError::DimensionMismatch {
                        expected: expected_residual,
                        got: weights.skip_projections.len(),
                        context: "actor skip_projections count",
                    },
                );
            }
            let mut i: usize = 0;
            while i < expected_residual
                invariant
                    i <= expected_residual,
                    cfg == config@,
                    w == weights@,
                    n_hidden == cfg.depth(),
                    expected_residual == cfg.skip_count(),
                    cfg.residual,
                    stack_misfit(w.layers, cfg.shape(), actor_names()) is None,
                    weights.rezero_alpha@.len() == expected_residual,
                    weights.skip_projections@.len() == expected_residual,
                    projection_misfit(w.skip_projections, cfg, i as nat) is None,
                decreases expected_residual - i,
            {
                assert(w.skip_projections[i as int] == opt_host(
                    weights.skip_projections@[i as int],
                ));
                match &weights.skip_projections[i] {
                    Some(proj) => {
                        let expected_rows: usize = config.hidden_layers[i + 1].size;
                        let expected_cols: usize = config.hidden_layers[i].size;
                        if proj.rows != expected_rows || proj.cols != expected_cols {
                            let e = PcError::DimensionMismatch {
                                expected: expected_rows.wrapping_mul(expected_cols),
                                got: proj.rows.wrapping_mul(proj.cols),
                                context: "actor skip_projection dimensions",
                            };
                            assert(projection_misfit(w.skip_projections, cfg, (i + 1) as nat)
                                == Some(e));
                            proof {
                                lemma_projection_misfit_stays(
                                    w.skip_projections,
                                    cfg,
                                    (i + 1) as nat,
                                    cfg.skip_count(),
                                );
                            }
                            return Err(e);
                        }
                    },
                    None => {},
                }
                assert(projection_misfit(w.skip_projections, cfg, (i + 1) as nat) is None);
                i = i + 1;
            }
        }
        let layers = stack_from_host(&weights.layers, &backend);
        let mut skip_projections: Vec<Option<L::Matrix>> = Vec::new();
        let mut i: usize = 0;
        while i < weights.skip_projections.len()
            invariant
                i <= weights.skip_projections.len(),
                w == weights@,
                w.projections_wf(),
                skip_projections@.len() == i,
                forall|k: int|
                    0 <= k < i ==> opt_mat::<L>(#[trigger] skip_projections@[k])
                        == w.skip_projections[k],
            decreases weights.skip_projections.len() - i,
        {
            assert(w.skip_projections[i as int] == opt_host(weights.skip_projections@[i as int]));
            let copy = match &weights.skip_projections[i] {
                Some(m) => Some(mat_from_host(&backend, m)),
                None => None,
            };
            skip_projections.push(copy);
            i = i + 1;
        }
        let actor = PcActor {
            layers,
            config,
            rezero_alpha: weights.rezero_alpha,
            skip_projections,
            backend,
        };
        assert(actor@ =~= w);
        Ok(actor)
    }
}

impl<L: LinAlg> PcActor<L> {
    /// What a hidden layer learns from.
    fn teaching(
        &self,
        lambda: Scalar,
        delta: &L::Vector,
        infer_result: &InferResult<L>,
        k: usize,
    ) -> (r: L::Vector)
        requires
            !pure_backprop::<L>(lambda) ==> k < infer_result.prediction_errors@.len()
                && infer_result@.prediction_errors[k as int].len() == L::vec_view(*delta).len(),
        ensures
            L::vec_view(r) == teaching_signal::<L>(
                lambda,
                L::vec_view(*delta),
                infer_result@.prediction_errors[k as int],
            ),
            L::vec_view(r).len() == L::vec_view(*delta).len(),
    {
        assert(!pure_backprop::<L>(lambda) ==> infer_result@.prediction_errors[k as int]
            == L::vec_view(infer_result.prediction_errors@[k as int]));
        if L::r_sub(lambda, lit(ONE)).abs().lt(lit(EPSILON)) {
            self.backend.vec_clone(delta)
        } else if lambda.abs().lt(lit(EPSILON)) {
            self.backend.vec_clone(&infer_result.prediction_errors[k])
        } else {
            let bp_scaled = self.backend.vec_scale(delta, lambda);
            let pc_scaled = self.backend.vec_scale(
                &infer_result.prediction_errors[k],
                L::r_sub(lit(ONE), lambda),
            );
            self.backend.vec_add(&bp_scaled, &pc_scaled)
        }
    }

    /// The clipped gradients of all layers from the top down, with all weights
    /// as they are.
    pub(crate) fn layer_gradients(
        &self,
        output_delta: &[Scalar],
        infer_result: &InferResult<L>,
        Ghost(e): Ghost<Evidence>,
    ) -> (r: Vec<L::Vector>)
        requires
            self.wf(),
            e.wf::<L>(self.config@),
            e.output_delta == output_delta@,
            e.inferred == infer_result@,
            e.lambda == self.config.local_lambda,
        ensures
            r@.len() == self.config@.depth() + 1,
            forall|k: int|
                #![trigger r@[k]]
                0 <= k <= self.config@.depth() ==> {
                    &&& L::vec_view(r@[k]) == layer_gradient::<L>(
                        self@,
                        self.config@,
                        e,
                        self.config@.depth() - k,
                    )
                    &&& L::vec_view(r@[k]).len() == self@.layers[self.config@.depth()
                        - k].outputs()
                },
    {
        let ghost cfg = self.config@;
        let ghost a = self@;
        let n_hidden: usize = self.config.hidden_layers.len();
        let lambda = self.config.local_lambda;
        let delta = self.backend.vec_from_slice(output_delta);
        assert(a.layers[n_hidden as int] == self.layers@[n_hidden as int]@);
        let top = self.layers[n_hidden].local_gradient(&infer_result.y_conv, &delta);
        let wt = self.backend.mat_transpose(&self.layers[n_hidden].weights);
        let mut bp_delta = self.backend.mat_vec_mul(&wt, &top);
        let mut grads: Vec<L::Vector> = Vec::new();
        grads.push(top);
        let mut k: usize = 0;
        while k < n_hidden
            invariant
                k <= n_hidden,
                self.wf(),
                a == self@,
                cfg == self.config@,
                n_hidden == cfg.depth(),
                lambda == self.config.local_lambda,
                e.wf::<L>(cfg),
                e.inferred == infer_result@,
                e.lambda == lambda,
                L::vec_view(bp_delta).len() == cfg.fan_in(n_hidden - k),
                L::vec_view(bp_delta) == signal_below::<L>(a, cfg, e, k as nat),
                grads@.len() == k + 1,
                forall|j: int|
                    #![trigger grads@[j]]
                    0 <= j <= k ==> {
                        &&& L::vec_view(grads@[j]) == layer_gradient::<L>(
                            a,
                            cfg,
                            e,
                            n_hidden - j,
                        )
                        &&& L::vec_view(grads@[j]).len() == a.layers[n_hidden - j].outputs()
                    },
            decreases n_hidden - k,
        {
            let i: usize = n_hidden - 1 - k;
            let signal = self.teaching(lambda, &bp_delta, infer_result, k);
            assert(L::vec_view(signal) == lesson_for::<L>(
                cfg,
                e,
                signal_below::<L>(a, cfg, e, k as nat),
                i as int,
            ));
            let output = own::<L>(&infer_result.hidden_states, &infer_result.tanh_components, i);
            assert(infer_result@.hidden.states[i as int] == L::vec_view(
                infer_result.hidden_states@[i as int],
            ));
            assert(infer_result@.hidden.responses[i as int] == opt_vec::<L>(
                infer_result.tanh_components@[i as int],
            ));
            assert(a.layers[i as int] == self.layers@[i as int]@);
            let wt = self.backend.mat_transpose(&self.layers[i].weights);
            match self.skip_alpha_index(i) {
                Some(slot) => {
                    assert(a.skip_projections[slot as int] == opt_mat::<L>(
                        self.skip_projections@[slot as int],
                    ));
                    assert(a.slot_wf(cfg, slot as int));
                    let scaled = self.backend.vec_scale(&signal, self.rezero_alpha[slot]);
                    let grad = self.layers[i].local_gradient(output, &scaled);
                    let propagated = self.backend.mat_vec_mul(&wt, &grad);
                    match &self.skip_projections[slot] {
                        Some(proj) => {
                            let proj_t = self.backend.mat_transpose(proj);
                            let skip_delta = self.backend.mat_vec_mul(&proj_t, &signal);
                            bp_delta = self.backend.vec_add(&propagated, &skip_delta);
                        },
                        None => {
                            bp_delta = self.backend.vec_add(&propagated, &signal);
                        },
                    }
                    grads.push(grad);
                },
                None => {
                    let grad = self.layers[i].local_gradient(output, &signal);
                    bp_delta = self.backend.mat_vec_mul(&wt, &grad);
                    grads.push(grad);
                },
            }
            k = k + 1;
        }
        grads
    }
}

/// What a weight update is computed from.
pub open spec fn evidence<L: LinAlg>(
    output_delta: Seq<Scalar>,
    inferred: InferView,
    input: Seq<Scalar>,
    surprise_scale: Scalar,
    lambda: Scalar,
    decay_factors: Seq<Scalar>,
) -> Evidence {
    Evidence { input, inferred, output_delta, surprise_scale, lambda, decay_factors }
}

} // verus!
