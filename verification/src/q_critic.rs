//! The action-value critic.

use rand::rngs::StdRng;
use vstd::prelude::*;

use crate::activation::Activation;
use crate::error::{ConfigRule, PcError};
use crate::layer::{host_views, layer_views, HostLayer, Layer, LayerDef, LayerView};
use crate::linalg::LinAlg;
use crate::mlp_critic::{critic_trained, critic_value, squared_error, train_on};
use crate::pc_actor::copy_defs;
use crate::scalar::{lit, Scalar, ONE, ZERO};
use crate::stack::{
    build_stack, check_stack, gradient_upto, initial_stack, input_gradient_of_stack,
    law_misfit_iff_not_fitting, proper_matrices, response, stack_from_host, stack_misfit,
    stack_to_host, trace_stack, StackNames, StackShape,
};

verus! {

/// Topology and learning rate of an action-value critic.
#[derive(Debug)]
pub struct QCriticConfig {
    /// Number of state features.
    pub state_dim: usize,
    /// Number of action components.
    pub action_dim: usize,
    /// Hidden layers, from the input upwards.
    pub hidden_layers: Vec<LayerDef>,
    /// Learning rate.
    pub lr: Scalar,
}

/// The content of a configuration.
#[verifier::ext_equal]
pub struct QCriticConfigView {
    pub state_dim: usize,
    pub action_dim: usize,
    pub hidden_layers: Seq<LayerDef>,
    pub lr: Scalar,
}

impl QCriticConfigView {
    /// The state followed by the action goes in, one linear value comes out.
    pub open spec fn shape(self) -> StackShape {
        StackShape {
            inputs: (self.state_dim + self.action_dim) as nat,
            hidden: self.hidden_layers,
            outputs: 1,
            top: Activation::Linear,
        }
    }

    /// State and action together can be counted.
    pub open spec fn countable(self) -> bool {
        self.state_dim + self.action_dim <= usize::MAX
    }
}

impl View for QCriticConfig {
    type V = QCriticConfigView;

    open spec fn view(&self) -> QCriticConfigView {
        QCriticConfigView {
            state_dim: self.state_dim,
            action_dim: self.action_dim,
            hidden_layers: self.hidden_layers@,
            lr: self.lr,
        }
    }
}

impl Clone for QCriticConfig {
    fn clone(&self) -> (r: Self)
        ensures
            r@ == self@,
    {
        QCriticConfig {
            state_dim: self.state_dim,
            action_dim: self.action_dim,
            hidden_layers: copy_defs(&self.hidden_layers),
            lr: self.lr,
        }
    }
}

/// A snapshot of the weights in host memory.
#[derive(Clone, Debug)]
pub struct QCriticWeights {
    /// Hidden layers followed by the output layer.
    pub layers: Vec<HostLayer>,
}

/// What saved layers are called in errors.
pub open spec fn q_names() -> StackNames {
    StackNames {
        count: "q_critic layer count",
        rows: "q_critic layer weight rows",
        cols: "q_critic layer weight cols",
        bias: "q_critic layer bias length",
    }
}

/// The gradient of the value at `state`, `action` with respect to the action.
pub open spec fn action_gradient_of<L: LinAlg>(
    layers: Seq<LayerView>,
    state: Seq<Scalar>,
    action: Seq<Scalar>,
) -> Seq<Scalar> {
    gradient_upto::<L>(layers, state + action, seq![lit(ONE)], layers.len()).skip(
        state.len() as int,
    )
}

/// The state followed by the action.
pub fn joined(state: &[Scalar], action: &[Scalar]) -> (r: Vec<Scalar>)
    ensures
        r@ == state@ + action@,
{
    let mut out: Vec<Scalar> = Vec::new();
    let mut i: usize = 0;
    while i < state.len()
        invariant
            i <= state.len(),
            out@ == state@.take(i as int),
        decreases state.len() - i,
    {
        out.push(state[i]);
        i = i + 1;
        assert(out@ =~= state@.take(i as int));
    }
    let mut j: usize = 0;
    assert(out@ =~= state@ + action@.take(0));
    while j < action.len()
        invariant
            j <= action.len(),
            out@ == state@ + action@.take(j as int),
        decreases action.len() - j,
    {
        out.push(action[j]);
        j = j + 1;
        assert(out@ =~= state@ + action@.take(j as int));
    }
    assert(out@ =~= state@ + action@);
    out
}

/// An action-value function `Q(s, a)`.
pub struct QCritic<L: LinAlg> {
    /// Hidden layers followed by the output layer.
    pub layers: Vec<Layer<L>>,
    pub config: QCriticConfig,
    pub backend: L,
}

impl<L: LinAlg> QCritic<L> {
    /// The trainable content.
    pub open spec fn view(&self) -> Seq<LayerView> {
        layer_views(self.layers@)
    }

    /// The content fits the configuration.
    pub open spec fn wf(&self) -> bool {
        self.config@.shape().fits(self@)
    }

    /// A critic with freshly drawn weights.
    pub fn new(backend: L, config: QCriticConfig, rng: &mut StdRng) -> (r: Result<Self, PcError>)
        requires
            config@.countable(),
        ensures
            config.action_dim == 0 ==> r == Err::<Self, PcError>(
                PcError::ConfigValidation(ConfigRule::QCriticActionDimZero),
            ) && *final(rng) == *old(rng),
            config.action_dim > 0 ==> r is Ok,
            r matches Ok(critic) ==> {
                &&& critic.config == config
                &&& critic.backend == backend
                &&& critic.wf()
                &&& (critic@, *final(rng)) == initial_stack::<L>(*old(rng), config@.shape())
            },
    {
        if config.action_dim == 0 {
            return Err(PcError::ConfigValidation(ConfigRule::QCriticActionDimZero));
        }
        let layers = build_stack(
            &backend,
            config.state_dim + config.action_dim,
            &config.hidden_layers,
            1,
            Activation::Linear,
            rng,
        );
        Ok(QCritic { layers, config, backend })
    }

    /// The value of taking `action` in `state`.
    pub fn forward(&self, state: &[Scalar], action: &[Scalar]) -> (v: Scalar)
        requires
            self.wf(),
            state@.len() == self.config.state_dim,
            action@.len() == self.config.action_dim,
        ensures
            v == critic_value::<L>(self@, state@ + action@),
    {
        let input = joined(state, action);
        let trace = trace_stack(
            &self.layers,
            self.backend.vec_from_slice(input.as_slice()),
            Ghost(self.config@.shape()),
        );
        let n: usize = self.layers.len();
        assert(L::vec_view(trace@[n as int]) == response::<L>(self@, state@ + action@, n as nat));
        self.backend.vec_get(&trace[n], 0)
    }

    /// One descent step towards `target`; returns the squared error before it.
    pub fn update(&mut self, state: &[Scalar], action: &[Scalar], target: Scalar) -> (loss: Scalar)
        requires
            old(self).wf(),
            state@.len() == old(self).config.state_dim,
            action@.len() == old(self).config.action_dim,
        ensures
            final(self).config == old(self).config,
            final(self).backend == old(self).backend,
            final(self).wf(),
            loss == squared_error::<L>(
                target,
                critic_value::<L>(old(self)@, state@ + action@),
            ),
            loss.is_nan() || lit(ZERO).le(loss),
            final(self)@ == critic_trained::<L>(
                old(self)@,
                state@ + action@,
                target,
                old(self).config.lr,
                lit(ONE),
                Seq::empty(),
            ),
    {
        self.update_scaled(state, action, target, lit(ONE))
    }

    /// Like [`QCritic::update`], with the learning rate multiplied by `scale`.
    pub fn update_scaled(
        &mut self,
        state: &[Scalar],
        action: &[Scalar],
        target: Scalar,
        scale: Scalar,
    ) -> (loss: Scalar)
        requires
            old(self).wf(),
            state@.len() == old(self).config.state_dim,
            action@.len() == old(self).config.action_dim,
        ensures
            final(self).config == old(self).config,
            final(self).backend == old(self).backend,
            final(self).wf(),
            loss == squared_error::<L>(
                target,
                critic_value::<L>(old(self)@, state@ + action@),
            ),
            loss.is_nan() || lit(ZERO).le(loss),
            final(self)@ == critic_trained::<L>(
                old(self)@,
                state@ + action@,
                target,
                old(self).config.lr,
                scale,
                Seq::empty(),
            ),
    {
        let ghost shape = self.config@.shape();
        let input = joined(state, action);
        let no_decay: Vec<Scalar> = Vec::new();
        assert(no_decay@ =~= Seq::empty());
        let lr = self.config.lr;
        train_on(
            &self.backend,
            &mut self.layers,
            input.as_slice(),
            target,
            lr,
            scale,
            no_decay.as_slice(),
            Ghost(shape),
        )
    }

    /// The gradient of the value with respect to the action.
    pub fn action_gradient(&self, state: &[Scalar], action: &[Scalar]) -> (r: Vec<Scalar>)
        requires
            self.wf(),
            state@.len() == self.config.state_dim,
            action@.len() == self.config.action_dim,
        ensures
            r@ == action_gradient_of::<L>(self@, state@, action@),
            r@.len() == self.config.action_dim,
    {
        let ghost x = state@ + action@;
        let input = joined(state, action);
        let trace = trace_stack(
            &self.layers,
            self.backend.vec_from_slice(input.as_slice()),
            Ghost(self.config@.shape()),
        );
        let mut unit: Vec<Scalar> = Vec::new();
        unit.push(lit(ONE));
        assert(unit@ =~= seq![lit(ONE)]);
        let grad = input_gradient_of_stack(
            &self.layers,
            &trace,
            self.backend.vec_from_slice(unit.as_slice()),
            Ghost(self.config@.shape()),
            Ghost(x),
        );
        let all = self.backend.vec_to_vec(&grad);
        let n: usize = self.config.state_dim;
        let mut out: Vec<Scalar> = Vec::new();
        let mut i: usize = n;
        while i < all.len()
            invariant
                n <= i <= all.len(),
                out@ == all@.subrange(n as int, i as int),
            decreases all.len() - i,
        {
            out.push(all[i]);
            i = i + 1;
            assert(out@ =~= all@.subrange(n as int, i as int));
        }
        assert(out@ =~= all@.skip(n as int));
        out
    }

    /// A snapshot of the weights in host memory.
    pub fn to_weights(&self) -> (r: QCriticWeights)
        requires
            self.wf(),
        ensures
            host_views(r.layers@) == self@,
    {
        QCriticWeights { layers: stack_to_host(&self.layers, &self.backend) }
    }

    /// A critic with the given weights, which must fit the configuration.
    pub fn from_weights(backend: L, config: QCriticConfig, weights: QCriticWeights) -> (r: Result<
        Self,
        PcError,
    >)
        requires
            config@.countable(),
            proper_matrices(host_views(weights.layers@)),
        ensures
            match stack_misfit(host_views(weights.layers@), config@.shape(), q_names()) {
                Some(e) => r == Err::<Self, PcError>(e),
                None => r is Ok,
            },
            r matches Ok(critic) ==> {
                &&& critic.config == config
                &&& critic.backend == backend
                &&& critic@ == host_views(weights.layers@)
                &&& critic.wf()
            },
    {
        let names = StackNames {
            count: "q_critic layer count",
            rows: "q_critic layer weight rows",
            cols: "q_critic layer weight cols",
            bias: "q_critic layer bias length",
        };
        match check_stack(
            &weights.layers,
            config.state_dim + config.action_dim,
            &config.hidden_layers,
            1,
            Ghost(Activation::Linear),
            names,
        ) {
            Err(e) => Err(e),
            Ok(()) => {
                let layers = stack_from_host(&weights.layers, &backend);
                Ok(QCritic { layers, config, backend })
            },
        }
    }
}

/// A working critic's snapshot is accepted by its own configuration.
pub proof fn law_working_q_critic_survives_saving(
    layers: Seq<LayerView>,
    cfg: QCriticConfigView,
)
    requires
        cfg.shape().fits(layers),
    ensures
        stack_misfit(layers, cfg.shape(), q_names()) is None,
{
    assert(proper_matrices(layers));
    law_misfit_iff_not_fitting(layers, cfg.shape(), q_names());
}

} // verus!
