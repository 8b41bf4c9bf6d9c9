//! Dense layers.

use rand::rngs::StdRng;
use vstd::prelude::*;

use crate::activation::Activation;
use crate::linalg::{
    lemma_mat_ext, lemma_mat_set, m_add_scaled, m_clip, m_outer, v_activate, v_add, v_clip, v_mul,
    v_scale, v_slope, v_zeros, LinAlg, MatView,
};
use crate::matrix::{Matrix, GRAD_CLIP, WEIGHT_CLIP};
use crate::scalar::{lit, Scalar};

verus! {

/// Size and activation of one hidden layer.
#[derive(Clone, Copy, Debug, PartialEq, Eq, Structural)]
pub struct LayerDef {
    pub size: usize,
    pub activation: Activation,
}

/// The mathematical content of a layer.
#[verifier::ext_equal]
pub struct LayerView {
    pub weights: MatView,
    pub bias: Seq<Scalar>,
    pub activation: Activation,
}

impl LayerView {
    /// One bias per row of weights.
    pub open spec fn wf(self) -> bool {
        self.weights.wf() && self.bias.len() == self.weights.rows
    }

    pub open spec fn inputs(self) -> nat {
        self.weights.cols
    }

    pub open spec fn outputs(self) -> nat {
        self.weights.rows
    }

    /// The layer's response to `x`.
    pub open spec fn forward<L: LinAlg>(self, x: Seq<Scalar>) -> Seq<Scalar> {
        v_activate::<L>(v_add::<L>(L::product(self.weights, x), self.bias), self.activation)
    }

    /// What the layer, read backwards, expects of its input when its output is
    /// `above`.
    pub open spec fn transpose_forward<L: LinAlg>(
        self,
        above: Seq<Scalar>,
        activation: Activation,
    ) -> Seq<Scalar> {
        v_activate::<L>(L::product(self.weights.transpose(), above), activation)
    }

    /// The clipped gradient at the pre-activation whose activation is `output`.
    pub open spec fn local_gradient<L: LinAlg>(
        self,
        output: Seq<Scalar>,
        delta: Seq<Scalar>,
    ) -> Seq<Scalar> {
        v_clip(v_mul::<L>(delta, v_slope::<L>(output, self.activation)), lit(GRAD_CLIP))
    }

    /// The error signal handed to the layer below.
    pub open spec fn propagated<L: LinAlg>(
        self,
        output: Seq<Scalar>,
        delta: Seq<Scalar>,
    ) -> Seq<Scalar> {
        L::product(self.weights.transpose(), self.local_gradient::<L>(output, delta))
    }

    /// The gradient at the layer's input when the gradient at its output is
    /// `delta`, without clipping.
    pub open spec fn input_gradient<L: LinAlg>(
        self,
        output: Seq<Scalar>,
        delta: Seq<Scalar>,
    ) -> Seq<Scalar> {
        L::product(
            self.weights.transpose(),
            v_mul::<L>(delta, v_slope::<L>(output, self.activation)),
        )
    }

    /// The layer after one descent step of rate `rate`.
    pub open spec fn descended<L: LinAlg>(
        self,
        input: Seq<Scalar>,
        output: Seq<Scalar>,
        delta: Seq<Scalar>,
        rate: Scalar,
    ) -> LayerView {
        let grad = self.local_gradient::<L>(output, delta);
        LayerView {
            weights: m_clip(
                m_add_scaled::<L>(self.weights, m_outer::<L>(grad, input), rate.neg()),
                lit(WEIGHT_CLIP),
            ),
            bias: v_clip(
                v_add::<L>(self.bias, v_scale::<L>(grad, rate.neg())),
                lit(WEIGHT_CLIP),
            ),
            activation: self.activation,
        }
    }

    /// Every weight and bias lies in `[-WEIGHT_CLIP, WEIGHT_CLIP]`, except where
    /// it is NaN.
    pub open spec fn clipped(self) -> bool {
        &&& forall|r: int, c: int|
            0 <= r < self.weights.rows && 0 <= c < self.weights.cols ==> bounded(
                #[trigger] self.weights.at(r, c),
            )
        &&& forall|i: int| 0 <= i < self.bias.len() ==> bounded(#[trigger] self.bias[i])
    }

    /// A layer of zero biases and freshly drawn weights.
    pub open spec fn initial<L: LinAlg>(
        rng: StdRng,
        inputs: nat,
        outputs: nat,
        activation: Activation,
    ) -> (LayerView, StdRng) {
        let (weights, rest) = L::xavier(rng, outputs, inputs);
        (LayerView { weights, bias: v_zeros(outputs), activation }, rest)
    }
}

/// In `[-WEIGHT_CLIP, WEIGHT_CLIP]`, or NaN.
pub open spec fn bounded(x: Scalar) -> bool {
    x.is_nan() || x.within(lit(WEIGHT_CLIP).neg(), lit(WEIGHT_CLIP))
}

/// A descent step leaves every weight and bias within the weight bound.
pub proof fn law_descent_keeps_weights_bounded<L: LinAlg>(
    layer: LayerView,
    input: Seq<Scalar>,
    output: Seq<Scalar>,
    delta: Seq<Scalar>,
    rate: Scalar,
)
    ensures
        layer.descended::<L>(input, output, delta, rate).clipped(),
{
    let next = layer.descended::<L>(input, output, delta, rate);
    let grad = layer.local_gradient::<L>(output, delta);
    let raw = m_add_scaled::<L>(layer.weights, m_outer::<L>(grad, input), rate.neg());
    assert forall|r: int, c: int|
        0 <= r < next.weights.rows && 0 <= c < next.weights.cols implies bounded(
        #[trigger] next.weights.at(r, c),
    ) by {
        assert(next.weights.at(r, c) == raw.at(r, c).clamp(
            lit(WEIGHT_CLIP).neg(),
            lit(WEIGHT_CLIP),
        ));
    }
}

/// A dense layer: `activation(weights * x + bias)`.
#[derive(Debug)]
pub struct Layer<L: LinAlg> {
    pub weights: L::Matrix,
    pub bias: L::Vector,
    pub activation: Activation,
    pub backend: L,
}

/// A layer held in host memory.
#[derive(Clone, Debug)]
pub struct HostLayer {
    pub weights: Matrix,
    pub bias: Vec<Scalar>,
    pub activation: Activation,
}

impl View for HostLayer {
    type V = LayerView;

    open spec fn view(&self) -> LayerView {
        LayerView {
            weights: self.weights@,
            bias: self.bias@,
            activation: self.activation,
        }
    }
}

/// Clamps every entry of a matrix to `[-limit, limit]`.
pub fn clip_mat<L: LinAlg>(backend: &L, m: &mut L::Matrix, limit: Scalar)
    requires
        L::mat_view(*old(m)).wf(),
    ensures
        L::mat_view(*final(m)) == m_clip(L::mat_view(*old(m)), limit),
{
    let ghost start = L::mat_view(*m);
    let ghost target = m_clip(start, limit);
    let rows: usize = backend.mat_rows(m);
    let cols: usize = backend.mat_cols(m);
    let mut r: usize = 0;
    while r < rows
        invariant
            r <= rows,
            start.wf(),
            start.rows == rows,
            start.cols == cols,
            target == m_clip(start, limit),
            L::mat_view(*m).wf(),
            L::mat_view(*m).same_shape(start),
            forall|i: int, j: int|
                0 <= i < rows && 0 <= j < cols ==> #[trigger] L::mat_view(*m).at(i, j) == if i < r {
                    target.at(i, j)
                } else {
                    start.at(i, j)
                },
        decreases rows - r,
    {
        let mut c: usize = 0;
        while c < cols
            invariant
                c <= cols,
                r < rows,
                start.wf(),
                start.rows == rows,
                start.cols == cols,
                target == m_clip(start, limit),
                L::mat_view(*m).wf(),
                L::mat_view(*m).same_shape(start),
                forall|i: int, j: int|
                    0 <= i < rows && 0 <= j < cols ==> #[trigger] L::mat_view(*m).at(i, j) == if i
                        < r || (i == r && j < c) {
                        target.at(i, j)
                    } else {
                        start.at(i, j)
                    },
            decreases cols - c,
        {
            let x = backend.mat_get(m, r, c);
            proof {
                lemma_mat_set(
                    L::mat_view(*m),
                    r as int,
                    c as int,
                    x.clamp(limit.neg(), limit),
                );
            }
            backend.mat_set(m, r, c, x.clamp(limit.neg(), limit));
            c = c + 1;
        }
        r = r + 1;
    }
    proof {
        lemma_mat_ext(L::mat_view(*m), target);
    }
}

/// Copies a backend matrix into host memory.
pub fn mat_to_host<L: LinAlg>(backend: &L, m: &L::Matrix) -> (r: Matrix)
    requires
        L::mat_view(*m).wf(),
    ensures
        r@ == L::mat_view(*m),
{
    let rows: usize = backend.mat_rows(m);
    let cols: usize = backend.mat_cols(m);
    let ghost source = L::mat_view(*m);
    let mut out = Matrix::zeros(rows, cols);
    let mut r: usize = 0;
    while r < rows
        invariant
            r <= rows,
            source == L::mat_view(*m),
            source.wf(),
            source.rows == rows,
            source.cols == cols,
            out@.wf(),
            out@.same_shape(source),
            forall|i: int, j: int|
                0 <= i < r && 0 <= j < cols ==> #[trigger] out@.at(i, j) == source.at(i, j),
        decreases rows - r,
    {
        let mut c: usize = 0;
        while c < cols
            invariant
                c <= cols,
                r < rows,
                source == L::mat_view(*m),
                source.wf(),
                source.rows == rows,
                source.cols == cols,
                out@.wf(),
                out@.same_shape(source),
                forall|i: int, j: int|
                    0 <= j < cols && (0 <= i < r || (i == r && j < c)) ==> #[trigger] out@.at(i, j)
                        == source.at(i, j),
            decreases cols - c,
        {
            let x = backend.mat_get(m, r, c);
            proof {
                lemma_mat_set(out@, r as int, c as int, x);
            }
            out.set(r, c, x);
            c = c + 1;
        }
        r = r + 1;
    }
    proof {
        lemma_mat_ext(out@, source);
    }
    out
}

/// Copies a host matrix into the backend.
pub fn mat_from_host<L: LinAlg>(backend: &L, m: &Matrix) -> (r: L::Matrix)
    requires
        m@.wf(),
    ensures
        L::mat_view(r) == m@,
{
    let rows: usize = m.rows;
    let cols: usize = m.cols;
    let mut out = backend.zeros_mat(rows, cols);
    let mut r: usize = 0;
    while r < rows
        invariant
            r <= rows,
            m@.wf(),
            m@.rows == rows,
            m@.cols == cols,
            L::mat_view(out).wf(),
            L::mat_view(out).same_shape(m@),
            forall|i: int, j: int|
                0 <= i < r && 0 <= j < cols ==> #[trigger] L::mat_view(out).at(i, j) == m@.at(i, j),
        decreases rows - r,
    {
        let mut c: usize = 0;
        while c < cols
            invariant
                c <= cols,
                r < rows,
                m@.wf(),
                m@.rows == rows,
                m@.cols == cols,
                L::mat_view(out).wf(),
                L::mat_view(out).same_shape(m@),
                forall|i: int, j: int|
                    0 <= j < cols && (0 <= i < r || (i == r && j < c)) ==> #[trigger] L::mat_view(
                        out,
                    ).at(i, j) == m@.at(i, j),
            decreases cols - c,
        {
            let x = m.get(r, c);
            proof {
                lemma_mat_set(L::mat_view(out), r as int, c as int, x);
            }
            backend.mat_set(&mut out, r, c, x);
            c = c + 1;
        }
        r = r + 1;
    }
    proof {
        lemma_mat_ext(L::mat_view(out), m@);
    }
    out
}

impl<L: LinAlg> Layer<L> {
    pub open spec fn view(&self) -> LayerView {
        LayerView {
            weights: L::mat_view(self.weights),
            bias: L::vec_view(self.bias),
            activation: self.activation,
        }
    }

    /// A layer with freshly drawn weights and zero biases.
    pub fn new(
        input_size: usize,
        output_size: usize,
        activation: Activation,
        backend: &L,
        rng: &mut StdRng,
    ) -> (layer: Self)
        ensures
            layer@.wf(),
            layer@.inputs() == input_size,
            layer@.outputs() == output_size,
            cloned(*backend, layer.backend),
            (layer@, *final(rng)) == LayerView::initial::<L>(
                *old(rng),
                input_size as nat,
                output_size as nat,
                activation,
            ),
    {
        let weights = backend.xavier_mat(output_size, input_size, rng);
        let bias = backend.zeros_vec(output_size);
        Layer { weights, bias, activation, backend: backend.clone() }
    }

    /// The layer's response to `x`.
    pub fn forward(&self, x: &L::Vector) -> (y: L::Vector)
        requires
            self@.wf(),
            L::vec_view(*x).len() == self@.inputs(),
        ensures
            L::vec_view(y) == self@.forward::<L>(L::vec_view(*x)),
            L::vec_view(y).len() == self@.outputs(),
    {
        let raw = self.backend.mat_vec_mul(&self.weights, x);
        let sum = self.backend.vec_add(&raw, &self.bias);
        self.backend.apply_activation(&sum, self.activation)
    }

    /// Top-down prediction of this layer's input from its output `above`.
    pub fn transpose_forward(&self, above: &L::Vector, activation: Activation) -> (y: L::Vector)
        requires
            self@.wf(),
            L::vec_view(*above).len() == self@.outputs(),
        ensures
            L::vec_view(y) == self@.transpose_forward::<L>(L::vec_view(*above), activation),
            L::vec_view(y).len() == self@.inputs(),
    {
        let wt = self.backend.mat_transpose(&self.weights);
        let raw = self.backend.mat_vec_mul(&wt, above);
        self.backend.apply_activation(&raw, activation)
    }

    /// One descent step of rate `lr * surprise_scale`; returns the error signal
    /// for the layer below, computed with the weights before the step.
    pub fn backward(
        &mut self,
        input: &L::Vector,
        output: &L::Vector,
        delta: &L::Vector,
        lr: Scalar,
        surprise_scale: Scalar,
    ) -> (below: L::Vector)
        requires
            old(self)@.wf(),
            L::vec_view(*input).len() == old(self)@.inputs(),
            L::vec_view(*output).len() == old(self)@.outputs(),
            L::vec_view(*delta).len() == old(self)@.outputs(),
        ensures
            L::vec_view(below) == old(self)@.propagated::<L>(
                L::vec_view(*output),
                L::vec_view(*delta),
            ),
            L::vec_view(below).len() == old(self)@.inputs(),
            final(self)@ == old(self)@.descended::<L>(
                L::vec_view(*input),
                L::vec_view(*output),
                L::vec_view(*delta),
                L::times(lr, surprise_scale),
            ),
            final(self)@.wf(),
            final(self)@.inputs() == old(self)@.inputs(),
            final(self)@.outputs() == old(self)@.outputs(),
    {
        let grad = self.local_gradient(output, delta);
        let wt = self.backend.mat_transpose(&self.weights);
        let below = self.backend.mat_vec_mul(&wt, &grad);

        let step = L::r_mul(lr, surprise_scale).neg();
        let dw = self.backend.outer_product(&grad, input);
        self.backend.mat_scale_add(&mut self.weights, &dw, step);
        clip_mat(&self.backend, &mut self.weights, lit(WEIGHT_CLIP));
        let db = self.backend.vec_scale(&grad, step);
        self.bias = self.backend.vec_add(&self.bias, &db);
        self.backend.clip_vec(&mut self.bias, lit(WEIGHT_CLIP));
        below
    }

    /// The clipped gradient at the pre-activation.
    pub fn local_gradient(&self, output: &L::Vector, delta: &L::Vector) -> (r: L::Vector)
        requires
            self@.wf(),
            L::vec_view(*output).len() == self@.outputs(),
            L::vec_view(*delta).len() == self@.outputs(),
        ensures
            L::vec_view(r) == self@.local_gradient::<L>(
                L::vec_view(*output),
                L::vec_view(*delta),
            ),
            L::vec_view(r).len() == self@.outputs(),
    {
        let slope = self.backend.apply_derivative(output, self.activation);
        let mut grad = self.backend.vec_hadamard(delta, &slope);
        self.backend.clip_vec(&mut grad, lit(GRAD_CLIP));
        grad
    }

    /// The gradient at the input when the gradient at the output is `delta`.
    pub fn input_gradient(&self, output: &L::Vector, delta: &L::Vector) -> (r: L::Vector)
        requires
            self@.wf(),
            L::vec_view(*output).len() == self@.outputs(),
            L::vec_view(*delta).len() == self@.outputs(),
        ensures
            L::vec_view(r) == self@.input_gradient::<L>(
                L::vec_view(*output),
                L::vec_view(*delta),
            ),
            L::vec_view(r).len() == self@.inputs(),
    {
        let slope = self.backend.apply_derivative(output, self.activation);
        let grad = self.backend.vec_hadamard(delta, &slope);
        let wt = self.backend.mat_transpose(&self.weights);
        self.backend.mat_vec_mul(&wt, &grad)
    }

    /// An equal layer.
    pub fn duplicate(&self) -> (r: Self)
        ensures
            r@ == self@,
            cloned(self.backend, r.backend),
    {
        Layer {
            weights: self.backend.mat_clone(&self.weights),
            bias: self.backend.vec_clone(&self.bias),
            activation: self.activation,
            backend: self.backend.clone(),
        }
    }

    /// Copies the layer into host memory.
    pub fn to_host(&self, backend: &L) -> (r: HostLayer)
        requires
            self@.wf(),
        ensures
            r@ == self@,
    {
        HostLayer {
            weights: mat_to_host(backend, &self.weights),
            bias: backend.vec_to_vec(&self.bias),
            activation: self.activation,
        }
    }

    /// Builds a layer from its host copy.
    pub fn from_host(host: &HostLayer, backend: &L) -> (r: Self)
        requires
            host@.weights.wf(),
        ensures
            r@ == host@,
            cloned(*backend, r.backend),
    {
        Layer {
            weights: mat_from_host(backend, &host.weights),
            bias: backend.vec_from_slice(host.bias.as_slice()),
            activation: host.activation,
            backend: backend.clone(),
        }
    }
}

/// The contents of a stack of layers.
pub open spec fn layer_views<L: LinAlg>(layers: Seq<Layer<L>>) -> Seq<LayerView> {
    layers.map_values(|l: Layer<L>| l@)
}

/// The contents of a stack of host layers.
pub open spec fn host_views(layers: Seq<HostLayer>) -> Seq<LayerView> {
    layers.map_values(|l: HostLayer| l@)
}

/// The contents of a list of backend vectors.
pub open spec fn vec_views<L: LinAlg>(vs: Seq<L::Vector>) -> Seq<Seq<Scalar>> {
    vs.map_values(|v: L::Vector| L::vec_view(v))
}

} // verus!
