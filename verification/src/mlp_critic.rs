//! The state-value critic.

use rand::rngs::StdRng;
use vstd::prelude::*;

use crate::activation::Activation;
use crate::arith::Arith;
use crate::error::{ConfigRule, PcError};
use crate::layer::{host_views, layer_views, vec_views, HostLayer, Layer, LayerDef, LayerView};
use crate::linalg::LinAlg;
use crate::pc_actor::copy_defs;
use crate::scalar::{lit, Scalar, ONE, TWO, ZERO};
use crate::stack::{
    build_stack, check_stack, descend_stack, descended_stack, initial_stack,
    law_misfit_iff_not_fitting, proper_matrices, response, shape_of, stack_from_host,
    stack_misfit, stack_to_host, trace_stack, StackNames, StackShape,
};

verus! {

/// `0.005`, the default learning rate of the critic.
pub const DEFAULT_CRITIC_LR: u64 = 0x3F74_7AE1_47AE_147B;

/// The default learning rate of the critic.
pub fn default_critic_lr() -> (r: Scalar)
    ensures
        r == lit(DEFAULT_CRITIC_LR),
{
    lit(DEFAULT_CRITIC_LR)
}

/// Topology and learning rate of a critic.
#[derive(Debug)]
pub struct MlpCriticConfig {
    /// Number of input features: state followed by the actor's latent states.
    pub input_size: usize,
    /// Hidden layers, from the input upwards.
    pub hidden_layers: Vec<LayerDef>,
    /// Activation of the single output.
    pub output_activation: Activation,
    /// Learning rate.
    pub lr: Scalar,
}

/// The content of a critic configuration.
#[verifier::ext_equal]
pub struct MlpCriticConfigView {
    pub input_size: usize,
    pub hidden_layers: Seq<LayerDef>,
    pub output_activation: Activation,
    pub lr: Scalar,
}

impl MlpCriticConfigView {
    /// Sizes and activations of the layers; there is one output.
    pub open spec fn shape(self) -> StackShape {
        shape_of(self.input_size, self.hidden_layers, 1, self.output_activation)
    }
}

impl View for MlpCriticConfig {
    type V = MlpCriticConfigView;

    open spec fn view(&self) -> MlpCriticConfigView {
        MlpCriticConfigView {
            input_size: self.input_size,
            hidden_layers: self.hidden_layers@,
            output_activation: self.output_activation,
            lr: self.lr,
        }
    }
}

impl Clone for MlpCriticConfig {
    fn clone(&self) -> (r: Self)
        ensures
            r@ == self@,
    {
        MlpCriticConfig {
            input_size: self.input_size,
            hidden_layers: copy_defs(&self.hidden_layers),
            output_activation: self.output_activation,
            lr: self.lr,
        }
    }
}

/// A snapshot of a critic's weights in host memory.
#[derive(Clone, Debug)]
pub struct MlpCriticWeights {
    /// Hidden layers followed by the output layer.
    pub layers: Vec<HostLayer>,
}

impl Default for MlpCriticWeights {
    /// No layers.
    fn default() -> (r: Self)
        ensures
            r.layers@.len() == 0,
    {
        MlpCriticWeights { layers: Vec::new() }
    }
}

/// The value that a critic gives to input `x`.
pub open spec fn critic_value<L: LinAlg>(layers: Seq<LayerView>, x: Seq<Scalar>) -> Scalar {
    response::<L>(layers, x, layers.len())[0]
}

/// The squared distance of a prediction from its target.
pub open spec fn squared_error<A: Arith>(target: Scalar, predicted: Scalar) -> Scalar {
    A::times(A::minus(target, predicted), A::minus(target, predicted))
}

/// The gradient of the squared error at the output.
pub open spec fn error_signal<A: Arith>(target: Scalar, predicted: Scalar) -> Seq<Scalar> {
    seq![A::times(lit(TWO).neg(), A::minus(target, predicted))]
}

/// A critic after one descent step on the squared error.
pub open spec fn critic_trained<L: LinAlg>(
    layers: Seq<LayerView>,
    x: Seq<Scalar>,
    target: Scalar,
    lr: Scalar,
    scale: Scalar,
    decay_factors: Seq<Scalar>,
) -> Seq<LayerView> {
    descended_stack::<L>(
        layers,
        x,
        error_signal::<L>(target, critic_value::<L>(layers, x)),
        lr,
        scale,
        decay_factors,
    )
}

/// What saved critic layers are called in errors.
pub open spec fn critic_names() -> StackNames {
    StackNames {
        count: "critic layer count",
        rows: "critic layer weight rows",
        cols: "critic layer weight cols",
        bias: "critic layer bias length",
    }
}

/// One descent step of a stack with a single output on the squared error;
/// returns the error before the step.
pub(crate) fn train_on<L: LinAlg>(
    backend: &L,
    layers: &mut Vec<Layer<L>>,
    input: &[Scalar],
    target: Scalar,
    lr: Scalar,
    surprise_scale: Scalar,
    decay_factors: &[Scalar],
    Ghost(shape): Ghost<StackShape>,
) -> (loss: Scalar)
    requires
        shape.fits(layer_views(old(layers)@)),
        shape.outputs == 1,
        input@.len() == shape.inputs,
        decay_factors@.len() == 0 || decay_factors@.len() >= shape.depth(),
    ensures
        shape.fits(layer_views(final(layers)@)),
        loss == squared_error::<L>(
            target,
            critic_value::<L>(layer_views(old(layers)@), input@),
        ),
        loss.is_nan() || lit(ZERO).le(loss),
        layer_views(final(layers)@) == critic_trained::<L>(
            layer_views(old(layers)@),
            input@,
            target,
            lr,
            surprise_scale,
            decay_factors@,
        ),
{
    let trace = trace_stack(layers, backend.vec_from_slice(input), Ghost(shape));
    let n: usize = layers.len();
    assert(L::vec_view(trace@[n as int]) == response::<L>(
        layer_views(layers@),
        input@,
        n as nat,
    ));
    let predicted = backend.vec_get(&trace[n], 0);
    let error = L::r_sub(target, predicted);
    let loss = L::r_mul(error, error);
    proof {
        L::square_is_not_negative(error);
    }
    let mut signal: Vec<Scalar> = Vec::new();
    signal.push(L::r_mul(lit(TWO).neg(), error));
    let delta = backend.vec_from_slice(signal.as_slice());
    assert(L::vec_view(delta) =~= error_signal::<L>(
        target,
        critic_value::<L>(layer_views(layers@), input@),
    ));
    descend_stack(
        layers,
        &trace,
        delta,
        lr,
        surprise_scale,
        decay_factors,
        Ghost(shape),
        Ghost(input@),
    );
    loss
}

/// A value function `V(x)`.
pub struct MlpCritic<L: LinAlg> {
    /// Hidden layers followed by the output layer.
    pub layers: Vec<Layer<L>>,
    pub config: MlpCriticConfig,
    pub backend: L,
}

impl<L: LinAlg> MlpCritic<L> {
    /// The trainable content.
    pub open spec fn view(&self) -> Seq<LayerView> {
        layer_views(self.layers@)
    }

    /// The content fits the configuration.
    pub open spec fn wf(&self) -> bool {
        self.config@.shape().fits(self@)
    }

    /// A critic with freshly drawn weights.
    pub fn new(backend: L, config: MlpCriticConfig, rng: &mut StdRng) -> (r: Result<Self, PcError>)
        ensures
            config.input_size == 0 ==> r == Err::<Self, PcError>(
                PcError::ConfigValidation(ConfigRule::CriticInputSizeZero),
            ) && *final(rng) == *old(rng),
            config.input_size > 0 ==> r is Ok,
            r matches Ok(critic) ==> {
                &&& critic.config == config
                &&& critic.backend == backend
                &&& critic.wf()
                &&& (critic@, *final(rng)) == initial_stack::<L>(*old(rng), config@.shape())
            },
    {
        if config.input_size == 0 {
            return Err(PcError::ConfigValidation(ConfigRule::CriticInputSizeZero));
        }
        let layers = build_stack(
            &backend,
            config.input_size,
            &config.hidden_layers,
            1,
            config.output_activation,
            rng,
        );
        Ok(MlpCritic { layers, config, backend })
    }

    /// The value of `input`.
    pub fn forward(&self, input: &[Scalar]) -> (v: Scalar)
        requires
            self.wf(),
            input@.len() == self.config.input_size,
        ensures
            v == critic_value::<L>(self@, input@),
    {
        let trace = trace_stack(
            &self.layers,
            self.backend.vec_from_slice(input),
            Ghost(self.config@.shape()),
        );
        let n: usize = self.layers.len();
        assert(L::vec_view(trace@[n as int]) == response::<L>(self@, input@, n as nat));
        self.backend.vec_get(&trace[n], 0)
    }

    /// The value of `input` and the responses of the hidden layers.
    pub fn forward_with_hidden(&self, input: &[Scalar]) -> (r: (Scalar, Vec<L::Vector>))
        requires
            self.wf(),
            input@.len() == self.config.input_size,
        ensures
            r.0 == critic_value::<L>(self@, input@),
            vec_views::<L>(r.1@) == Seq::new(
                self.config@.hidden_layers.len(),
                |k: int| response::<L>(self@, input@, (k + 1) as nat),
            ),
            forall|k: int|
                0 <= k < r.1@.len() ==> L::vec_view(#[trigger] r.1@[k]).len()
                    == self.config@.hidden_layers[k].size,
    {
        let trace = trace_stack(
            &self.layers,
            self.backend.vec_from_slice(input),
            Ghost(self.config@.shape()),
        );
        let n: usize = self.layers.len();
        assert(L::vec_view(trace@[n as int]) == response::<L>(self@, input@, n as nat));
        let value = self.backend.vec_get(&trace[n], 0);
        let n_hidden: usize = self.config.hidden_layers.len();
        let mut hidden: Vec<L::Vector> = Vec::new();
        let mut i: usize = 0;
        while i < n_hidden
            invariant
                i <= n_hidden,
                n_hidden == self.config@.hidden_layers.len(),
                n_hidden + 1 == self.layers@.len(),
                trace@.len() == self.layers@.len() + 1,
                forall|k: int|
                    #![trigger trace@[k]]
                    0 <= k <= self.layers@.len() ==> L::vec_view(trace@[k]) == response::<L>(
                        self@,
                        input@,
                        k as nat,
                    ),
                forall|k: int|
                    #![trigger trace@[k]]
                    1 <= k <= n_hidden ==> L::vec_view(trace@[k]).len()
                        == self.config@.hidden_layers[k - 1].size,
                hidden@.len() == i,
                forall|k: int|
                    0 <= k < i ==> {
                        &&& L::vec_view(#[trigger] hidden@[k]) == response::<L>(
                            self@,
                            input@,
                            (k + 1) as nat,
                        )
                        &&& L::vec_view(hidden@[k]).len() == self.config@.hidden_layers[k].size
                    },
            decreases n_hidden - i,
        {
            assert(L::vec_view(trace@[i + 1]) == response::<L>(self@, input@, (i + 1) as nat));
            hidden.push(self.backend.vec_clone(&trace[i + 1]));
            i = i + 1;
        }
        assert(vec_views::<L>(hidden@) =~= Seq::new(
            self.config@.hidden_layers.len(),
            |k: int| response::<L>(self@, input@, (k + 1) as nat),
        ));
        (value, hidden)
    }

    /// One descent step towards `target`; returns the squared error before it.
    pub fn update(&mut self, input: &[Scalar], target: Scalar) -> (loss: Scalar)
        requires
            old(self).wf(),
            input@.len() == old(self).config.input_size,
        ensures
            final(self).config == old(self).config,
            final(self).backend == old(self).backend,
            final(self).wf(),
            loss == squared_error::<L>(target, critic_value::<L>(old(self)@, input@)),
            loss.is_nan() || lit(ZERO).le(loss),
            final(self)@ == critic_trained::<L>(
                old(self)@,
                input@,
                target,
                old(self).config.lr,
                lit(ONE),
                Seq::empty(),
            ),
    {
        let no_decay: Vec<Scalar> = Vec::new();
        assert(no_decay@ =~= Seq::empty());
        self.update_with_decay(input, target, lit(ONE), no_decay.as_slice())
    }

    /// Like [`MlpCritic::update`], with the step of every hidden layer scaled by
    /// `surprise_scale` and its decay factor, and the step of the output layer
    /// by `surprise_scale` alone.
    pub fn update_with_decay(
        &mut self,
        input: &[Scalar],
        target: Scalar,
        surprise_scale: Scalar,
        decay_factors: &[Scalar],
    ) -> (loss: Scalar)
        requires
            old(self).wf(),
            input@.len() == old(self).config.input_size,
            decay_factors@.len() == 0 || decay_factors@.len()
                >= old(self).config@.hidden_layers.len(),
        ensures
            final(self).config == old(self).config,
            final(self).backend == old(self).backend,
            final(self).wf(),
            loss == squared_error::<L>(target, critic_value::<L>(old(self)@, input@)),
            loss.is_nan() || lit(ZERO).le(loss),
            final(self)@ == critic_trained::<L>(
                old(self)@,
                input@,
                target,
                old(self).config.lr,
                surprise_scale,
                decay_factors@,
            ),
    {
        let ghost shape = self.config@.shape();
        let lr = self.config.lr;
        train_on(
            &self.backend,
            &mut self.layers,
            input,
            target,
            lr,
            surprise_scale,
            decay_factors,
            Ghost(shape),
        )
    }

    /// A snapshot of the weights in host memory.
    pub fn to_weights(&self) -> (r: MlpCriticWeights)
        requires
            self.wf(),
        ensures
            host_views(r.layers@) == self@,
    {
        MlpCriticWeights { layers: stack_to_host(&self.layers, &self.backend) }
    }

    /// A critic with the given weights, which must fit the configuration.
    pub fn from_weights(
        backend: L,
        config: MlpCriticConfig,
        weights: MlpCriticWeights,
    ) -> (r: Result<Self, PcError>)
        requires
            proper_matrices(host_views(weights.layers@)),
        ensures
            match stack_misfit(host_views(weights.layers@), config@.shape(), critic_names()) {
                Some(e) => r == Err::<Self, PcError>(e),
                None => r is Ok,
            },
            r matches Ok(critic) ==> {
                &&& critic.config == config
                &&& critic.backend == backend
                &&& critic@ == host_views(weights.layers@)
                &&& critic.wf()
            },
    {
        let names = StackNames {
            count: "critic layer count",
            rows: "critic layer weight rows",
            cols: "critic layer weight cols",
            bias: "critic layer bias length",
        };
        match check_stack(
            &weights.layers,
            config.input_size,
            &config.hidden_layers,
            1,
            Ghost(config.output_activation),
            names,
        ) {
            Err(e) => Err(e),
            Ok(()) => {
                let layers = stack_from_host(&weights.layers, &backend);
                Ok(MlpCritic { layers, config, backend })
            },
        }
    }
}

/// A working critic's snapshot is accepted by its own configuration.
pub proof fn law_working_critic_survives_saving(
    layers: Seq<LayerView>,
    cfg: MlpCriticConfigView,
)
    requires
        cfg.shape().fits(layers),
    ensures
        stack_misfit(layers, cfg.shape(), critic_names()) is None,
{
    assert(proper_matrices(layers));
    law_misfit_iff_not_fitting(layers, cfg.shape(), critic_names());
}

} // verus!
