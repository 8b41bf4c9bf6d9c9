//! Stacks of dense layers: hidden layers followed by an output layer.

use rand::rngs::StdRng;
use vstd::prelude::*;

use crate::activation::Activation;
use crate::arith::Arith;
use crate::error::PcError;
use crate::layer::{
    host_views, law_descent_keeps_weights_bounded, layer_views, HostLayer, Layer, LayerDef,
    LayerView,
};
use crate::linalg::LinAlg;
use crate::scalar::Scalar;

verus! {

/// The sizes and activations of a stack.
#[verifier::ext_equal]
pub struct StackShape {
    pub inputs: nat,
    pub hidden: Seq<LayerDef>,
    pub outputs: nat,
    pub top: Activation,
}

impl StackShape {
    /// The number of hidden layers.
    pub open spec fn depth(self) -> nat {
        self.hidden.len()
    }

    /// How many values layer `k` reads.
    pub open spec fn fan_in(self, k: int) -> nat {
        if k == 0 {
            self.inputs
        } else {
            self.hidden[k - 1].size as nat
        }
    }

    /// How many values layer `k` produces; layer `depth` is the output layer.
    pub open spec fn fan_out(self, k: int) -> nat {
        if k < self.depth() {
            self.hidden[k].size as nat
        } else {
            self.outputs
        }
    }

    pub open spec fn activation_of(self, k: int) -> Activation {
        if k < self.depth() {
            self.hidden[k].activation
        } else {
            self.top
        }
    }

    /// Layers chain from the input to the output in these sizes.
    pub open spec fn fits(self, layers: Seq<LayerView>) -> bool {
        &&& layers.len() == self.depth() + 1
        &&& forall|k: int|
            #![trigger layers[k]]
            0 <= k <= self.depth() ==> {
                &&& layers[k].wf()
                &&& layers[k].inputs() == self.fan_in(k)
                &&& layers[k].outputs() == self.fan_out(k)
            }
    }
}

/// The first `k` layers of a fresh stack.
pub open spec fn initial_layers<L: LinAlg>(rng: StdRng, shape: StackShape, k: nat) -> (
    Seq<LayerView>,
    StdRng,
)
    decreases k,
{
    if k == 0 {
        (Seq::empty(), rng)
    } else {
        let (layers, rng) = initial_layers::<L>(rng, shape, (k - 1) as nat);
        let (layer, rng) = LayerView::initial::<L>(
            rng,
            shape.fan_in(k - 1),
            shape.fan_out(k - 1),
            shape.activation_of(k - 1),
        );
        (layers.push(layer), rng)
    }
}

/// A fresh stack and the generator it leaves behind.
pub open spec fn initial_stack<L: LinAlg>(rng: StdRng, shape: StackShape) -> (
    Seq<LayerView>,
    StdRng,
) {
    initial_layers::<L>(rng, shape, shape.depth() + 1)
}

/// The response of the first `k` layers to `x`.
pub open spec fn response<L: LinAlg>(layers: Seq<LayerView>, x: Seq<Scalar>, k: nat) -> Seq<Scalar>
    decreases k,
{
    if k == 0 {
        x
    } else {
        layers[k - 1].forward::<L>(response::<L>(layers, x, (k - 1) as nat))
    }
}

/// The factor on the learning rate of layer `i`: hidden layers decay, the
/// output layer does not.
pub open spec fn decayed_scale<A: Arith>(
    n_hidden: nat,
    scale: Scalar,
    decay_factors: Seq<Scalar>,
    i: int,
) -> Scalar {
    if i < n_hidden && decay_factors.len() > 0 {
        A::times(scale, decay_factors[i])
    } else {
        scale
    }
}

/// A stack part-way through a descent step, with the error signal handed to the
/// next layer below.
#[verifier::ext_equal]
pub struct Descent {
    pub layers: Seq<LayerView>,
    pub delta: Seq<Scalar>,
}

/// The `k` topmost layers after a descent step on input `x` whose error signal
/// at the output is `delta`.
pub open spec fn descend_upto<L: LinAlg>(
    layers: Seq<LayerView>,
    x: Seq<Scalar>,
    delta: Seq<Scalar>,
    lr: Scalar,
    scale: Scalar,
    decay_factors: Seq<Scalar>,
    k: nat,
) -> Descent
    decreases k,
{
    if k == 0 {
        Descent { layers, delta }
    } else {
        let d = descend_upto::<L>(layers, x, delta, lr, scale, decay_factors, (k - 1) as nat);
        let i = layers.len() - k;
        let output = response::<L>(layers, x, (i + 1) as nat);
        let rate = L::times(
            lr,
            decayed_scale::<L>((layers.len() - 1) as nat, scale, decay_factors, i),
        );
        Descent {
            layers: d.layers.update(
                i,
                layers[i].descended::<L>(response::<L>(layers, x, i as nat), output, d.delta, rate),
            ),
            delta: layers[i].propagated::<L>(output, d.delta),
        }
    }
}

/// The stack after a full descent step.
pub open spec fn descended_stack<L: LinAlg>(
    layers: Seq<LayerView>,
    x: Seq<Scalar>,
    delta: Seq<Scalar>,
    lr: Scalar,
    scale: Scalar,
    decay_factors: Seq<Scalar>,
) -> Seq<LayerView> {
    descend_upto::<L>(layers, x, delta, lr, scale, decay_factors, layers.len()).layers
}

/// A descent step leaves every weight and bias of every layer within the weight
/// bound.
pub proof fn law_stack_descent_keeps_weights_bounded<L: LinAlg>(
    layers: Seq<LayerView>,
    x: Seq<Scalar>,
    delta: Seq<Scalar>,
    lr: Scalar,
    scale: Scalar,
    decay_factors: Seq<Scalar>,
    i: int,
)
    requires
        0 <= i < layers.len(),
    ensures
        descended_stack::<L>(layers, x, delta, lr, scale, decay_factors)[i].clipped(),
{
    lemma_descended_layers_bounded::<L>(
        layers,
        x,
        delta,
        lr,
        scale,
        decay_factors,
        layers.len(),
    );
}

proof fn lemma_descended_layers_bounded<L: LinAlg>(
    layers: Seq<LayerView>,
    x: Seq<Scalar>,
    delta: Seq<Scalar>,
    lr: Scalar,
    scale: Scalar,
    decay_factors: Seq<Scalar>,
    k: nat,
)
    requires
        k <= layers.len(),
    ensures
        ({
            let d = descend_upto::<L>(layers, x, delta, lr, scale, decay_factors, k);
            &&& d.layers.len() == layers.len()
            &&& forall|i: int|
                layers.len() - k <= i < layers.len() ==> (#[trigger] d.layers[i]).clipped()
        }),
    decreases k,
{
    if k > 0 {
        lemma_descended_layers_bounded::<L>(
            layers,
            x,
            delta,
            lr,
            scale,
            decay_factors,
            (k - 1) as nat,
        );
        let d = descend_upto::<L>(layers, x, delta, lr, scale, decay_factors, (k - 1) as nat);
        let i = layers.len() - k;
        law_descent_keeps_weights_bounded::<L>(
            layers[i],
            response::<L>(layers, x, i as nat),
            response::<L>(layers, x, (i + 1) as nat),
            d.delta,
            L::times(
                lr,
                decayed_scale::<L>((layers.len() - 1) as nat, scale, decay_factors, i),
            ),
        );
    }
}

/// The gradient at the input of the `k`-th layer from the top when the gradient
/// at the output is `delta`.
pub open spec fn gradient_upto<L: LinAlg>(
    layers: Seq<LayerView>,
    x: Seq<Scalar>,
    delta: Seq<Scalar>,
    k: nat,
) -> Seq<Scalar>
    decreases k,
{
    if k == 0 {
        delta
    } else {
        let i = layers.len() - k;
        layers[i].input_gradient::<L>(
            response::<L>(layers, x, (i + 1) as nat),
            gradient_upto::<L>(layers, x, delta, (k - 1) as nat),
        )
    }
}

/// What a stack of saved layers is called in errors.
#[derive(Clone, Copy, Debug)]
pub struct StackNames {
    pub count: &'static str,
    pub rows: &'static str,
    pub cols: &'static str,
    pub bias: &'static str,
}

/// The first size in which a layer differs from `rows` outputs and `cols`
/// inputs.
pub open spec fn layer_misfit(
    layer: LayerView,
    rows: nat,
    cols: nat,
    names: StackNames,
) -> Option<PcError> {
    if layer.weights.rows != rows {
        Some(
            PcError::DimensionMismatch {
                expected: rows as usize,
                got: layer.weights.rows as usize,
                context: names.rows,
            },
        )
    } else if layer.weights.cols != cols {
        Some(
            PcError::DimensionMismatch {
                expected: cols as usize,
                got: layer.weights.cols as usize,
                context: names.cols,
            },
        )
    } else if layer.bias.len() != rows {
        Some(
            PcError::DimensionMismatch {
                expected: rows as usize,
                got: layer.bias.len() as usize,
                context: names.bias,
            },
        )
    } else {
        None
    }
}

/// The first misfit among the first `k` layers.
pub open spec fn misfit_upto(
    layers: Seq<LayerView>,
    shape: StackShape,
    names: StackNames,
    k: nat,
) -> Option<PcError>
    decreases k,
{
    if k == 0 {
        None
    } else {
        match misfit_upto(layers, shape, names, (k - 1) as nat) {
            Some(e) => Some(e),
            None => layer_misfit(layers[k - 1], shape.fan_out(k - 1), shape.fan_in(k - 1), names),
        }
    }
}

/// Why saved layers do not form a stack of the given shape.
pub open spec fn stack_misfit(
    layers: Seq<LayerView>,
    shape: StackShape,
    names: StackNames,
) -> Option<PcError> {
    if layers.len() != shape.depth() + 1 {
        Some(
            PcError::DimensionMismatch {
                expected: (shape.depth() as usize).wrapping_add(1),
                got: layers.len() as usize,
                context: names.count,
            },
        )
    } else {
        misfit_upto(layers, shape, names, shape.depth() + 1)
    }
}

/// Every weight matrix holds as many entries as its shape says.
pub open spec fn proper_matrices(layers: Seq<LayerView>) -> bool {
    forall|k: int| 0 <= k < layers.len() ==> (#[trigger] layers[k]).weights.wf()
}

/// Saved layers with proper matrices are accepted exactly when they form a
/// stack of the configured shape.
pub proof fn law_misfit_iff_not_fitting(
    layers: Seq<LayerView>,
    shape: StackShape,
    names: StackNames,
)
    requires
        proper_matrices(layers),
    ensures
        stack_misfit(layers, shape, names) is None <==> shape.fits(layers),
{
    if layers.len() == shape.depth() + 1 {
        lemma_misfit_upto(layers, shape, names, shape.depth() + 1);
    }
}

proof fn lemma_misfit_upto(
    layers: Seq<LayerView>,
    shape: StackShape,
    names: StackNames,
    k: nat,
)
    requires
        proper_matrices(layers),
        k <= layers.len(),
    ensures
        misfit_upto(layers, shape, names, k) is None <==> forall|i: int|
            #![trigger layers[i]]
            0 <= i < k ==> {
                &&& layers[i].wf()
                &&& layers[i].inputs() == shape.fan_in(i)
                &&& layers[i].outputs() == shape.fan_out(i)
            },
    decreases k,
{
    if k > 0 {
        lemma_misfit_upto(layers, shape, names, (k - 1) as nat);
        let last = layers[k - 1];
        assert(last.weights.wf());
    }
}

/// The shape of a stack with the given sizes.
pub open spec fn shape_of(
    input_size: usize,
    hidden: Seq<LayerDef>,
    output_size: usize,
    top: Activation,
) -> StackShape {
    StackShape { inputs: input_size as nat, hidden, outputs: output_size as nat, top }
}

/// A stack with freshly drawn weights.
pub(crate) fn build_stack<L: LinAlg>(
    backend: &L,
    input_size: usize,
    hidden: &Vec<LayerDef>,
    output_size: usize,
    top: Activation,
    rng: &mut StdRng,
) -> (layers: Vec<Layer<L>>)
    ensures
        shape_of(input_size, hidden@, output_size, top).fits(layer_views(layers@)),
        (layer_views(layers@), *final(rng)) == initial_stack::<L>(
            *old(rng),
            shape_of(input_size, hidden@, output_size, top),
        ),
{
    let ghost shape = shape_of(input_size, hidden@, output_size, top);
    let ghost start = *rng;
    let n_hidden: usize = hidden.len();
    let mut layers: Vec<Layer<L>> = Vec::new();
    let mut prev_size: usize = input_size;
    let mut i: usize = 0;
    assert(layer_views(layers@) =~= Seq::empty());
    while i < n_hidden
        invariant
            i <= n_hidden,
            shape == shape_of(input_size, hidden@, output_size, top),
            n_hidden == shape.depth(),
            prev_size == shape.fan_in(i as int),
            layers@.len() == i,
            (layer_views(layers@), *rng) == initial_layers::<L>(start, shape, i as nat),
            forall|k: int|
                0 <= k < i ==> {
                    &&& (#[trigger] layers@[k])@.wf()
                    &&& layers@[k]@.inputs() == shape.fan_in(k)
                    &&& layers@[k]@.outputs() == shape.fan_out(k)
                },
        decreases n_hidden - i,
    {
        let def = hidden[i];
        let ghost before = layers@;
        let layer = Layer::new(prev_size, def.size, def.activation, backend, rng);
        layers.push(layer);
        assert(layer_views(layers@) =~= layer_views(before).push(layer@));
        prev_size = def.size;
        i = i + 1;
    }
    let ghost before = layers@;
    let output = Layer::new(prev_size, output_size, top, backend, rng);
    layers.push(output);
    assert(layer_views(layers@) =~= layer_views(before).push(output@));
    layers
}

/// Checks saved layers against the configured sizes.
pub(crate) fn check_stack(
    layers: &Vec<HostLayer>,
    input_size: usize,
    hidden: &Vec<LayerDef>,
    output_size: usize,
    Ghost(top): Ghost<Activation>,
    names: StackNames,
) -> (r: Result<(), PcError>)
    requires
        proper_matrices(host_views(layers@)),
    ensures
        match stack_misfit(
            host_views(layers@),
            shape_of(input_size, hidden@, output_size, top),
            names,
        ) {
            Some(e) => r == Err::<(), PcError>(e),
            None => r is Ok && shape_of(input_size, hidden@, output_size, top).fits(
                host_views(layers@),
            ),
        },
{
    let ghost shape = shape_of(input_size, hidden@, output_size, top);
    let ghost views = host_views(layers@);
    proof {
        law_misfit_iff_not_fitting(views, shape, names);
    }
    let n_hidden: usize = hidden.len();
    if layers.len() == 0 || layers.len() - 1 != n_hidden {
        let expected: usize = n_hidden.wrapping_add(1);
        return Err(
            PcError::DimensionMismatch { expected, got: layers.len(), context: names.count },
        );
    }
    let mut prev_size: usize = input_size;
    let mut i: usize = 0;
    while i < layers.len()
        invariant
            i <= layers.len(),
            shape == shape_of(input_size, hidden@, output_size, top),
            views == host_views(layers@),
            n_hidden == shape.depth(),
            n_hidden == hidden@.len(),
            layers@.len() == n_hidden + 1,
            i <= n_hidden ==> prev_size == shape.fan_in(i as int),
            misfit_upto(views, shape, names, i as nat) is None,
        decreases layers.len() - i,
    {
        let layer = &layers[i];
        assert(views[i as int] == layer@);
        let expected_rows: usize = if i < n_hidden {
            hidden[i].size
        } else {
            output_size
        };
        let ghost fault = layer_misfit(
            layer@,
            shape.fan_out(i as int),
            shape.fan_in(i as int),
            names,
        );
        assert(misfit_upto(views, shape, names, (i + 1) as nat) == fault);
        if layer.weights.rows != expected_rows {
            let e = PcError::DimensionMismatch {
                expected: expected_rows,
                got: layer.weights.rows,
                context: names.rows,
            };
            proof {
                lemma_misfit_stays(views, shape, names, (i + 1) as nat, layers@.len());
            }
            return Err(e);
        }
        if layer.weights.cols != prev_size {
            let e = PcError::DimensionMismatch {
                expected: prev_size,
                got: layer.weights.cols,
                context: names.cols,
            };
            proof {
                lemma_misfit_stays(views, shape, names, (i + 1) as nat, layers@.len());
            }
            return Err(e);
        }
        if layer.bias.len() != expected_rows {
            let e = PcError::DimensionMismatch {
                expected: expected_rows,
                got: layer.bias.len(),
                context: names.bias,
            };
            proof {
                lemma_misfit_stays(views, shape, names, (i + 1) as nat, layers@.len());
            }
            return Err(e);
        }
        if i < n_hidden {
            prev_size = hidden[i].size;
        }
        i = i + 1;
    }
    Ok(())
}

proof fn lemma_misfit_stays(
    layers: Seq<LayerView>,
    shape: StackShape,
    names: StackNames,
    k: nat,
    m: nat,
)
    requires
        k <= m,
        misfit_upto(layers, shape, names, k) is Some,
    ensures
        misfit_upto(layers, shape, names, m) == misfit_upto(layers, shape, names, k),
    decreases m - k,
{
    if k < m {
        lemma_misfit_stays(layers, shape, names, k, (m - 1) as nat);
    }
}

/// Copies a stack into host memory.
pub(crate) fn stack_to_host<L: LinAlg>(layers: &Vec<Layer<L>>, backend: &L) -> (r: Vec<HostLayer>)
    requires
        forall|k: int| 0 <= k < layers@.len() ==> (#[trigger] layer_views(layers@)[k]).wf(),
    ensures
        host_views(r@) == layer_views(layers@),
{
    let mut out: Vec<HostLayer> = Vec::new();
    let mut i: usize = 0;
    while i < layers.len()
        invariant
            i <= layers.len(),
            out@.len() == i,
            forall|k: int| 0 <= k < layers@.len() ==> (#[trigger] layer_views(layers@)[k]).wf(),
            forall|k: int| 0 <= k < i ==> (#[trigger] out@[k])@ == layers@[k]@,
        decreases layers.len() - i,
    {
        assert(layer_views(layers@)[i as int].wf());
        out.push(layers[i].to_host(backend));
        i = i + 1;
    }
    assert(host_views(out@) =~= layer_views(layers@));
    out
}

/// Builds a stack from its host copy.
pub(crate) fn stack_from_host<L: LinAlg>(hosts: &Vec<HostLayer>, backend: &L) -> (r: Vec<Layer<L>>)
    requires
        proper_matrices(host_views(hosts@)),
    ensures
        layer_views(r@) == host_views(hosts@),
{
    let mut out: Vec<Layer<L>> = Vec::new();
    let mut i: usize = 0;
    while i < hosts.len()
        invariant
            i <= hosts.len(),
            out@.len() == i,
            proper_matrices(host_views(hosts@)),
            forall|k: int| 0 <= k < i ==> (#[trigger] out@[k])@ == hosts@[k]@,
        decreases hosts.len() - i,
    {
        assert(host_views(hosts@)[i as int] == hosts@[i as int]@);
        out.push(Layer::from_host(&hosts[i], backend));
        i = i + 1;
    }
    assert(layer_views(out@) =~= host_views(hosts@));
    out
}

/// An equal stack.
pub(crate) fn duplicate_stack<L: LinAlg>(layers: &Vec<Layer<L>>) -> (r: Vec<Layer<L>>)
    ensures
        layer_views(r@) == layer_views(layers@),
        forall|k: int|
            0 <= k < r@.len() ==> cloned(layers@[k].backend, (#[trigger] r@[k]).backend),
{
    let mut out: Vec<Layer<L>> = Vec::new();
    let mut i: usize = 0;
    while i < layers.len()
        invariant
            i <= layers.len(),
            out@.len() == i,
            forall|k: int| 0 <= k < i ==> (#[trigger] out@[k])@ == layers@[k]@,
            forall|k: int|
                0 <= k < i ==> cloned(layers@[k].backend, (#[trigger] out@[k]).backend),
        decreases layers.len() - i,
    {
        out.push(layers[i].duplicate());
        i = i + 1;
    }
    assert(layer_views(out@) =~= layer_views(layers@));
    out
}

/// The input followed by the response of every layer.
pub(crate) fn trace_stack<L: LinAlg>(
    layers: &Vec<Layer<L>>,
    input: L::Vector,
    Ghost(shape): Ghost<StackShape>,
) -> (r: Vec<L::Vector>)
    requires
        shape.fits(layer_views(layers@)),
        L::vec_view(input).len() == shape.inputs,
    ensures
        r@.len() == layers@.len() + 1,
        forall|k: int|
            #![trigger r@[k]]
            0 <= k <= layers@.len() ==> {
                &&& L::vec_view(r@[k]) == response::<L>(
                    layer_views(layers@),
                    L::vec_view(input),
                    k as nat,
                )
                &&& L::vec_view(r@[k]).len() == if k < layers@.len() {
                    shape.fan_in(k)
                } else {
                    shape.outputs
                }
            },
{
    let ghost views = layer_views(layers@);
    let ghost x = L::vec_view(input);
    let mut out: Vec<L::Vector> = Vec::new();
    out.push(input);
    let mut i: usize = 0;
    while i < layers.len()
        invariant
            i <= layers.len(),
            views == layer_views(layers@),
            shape.fits(views),
            out@.len() == i + 1,
            forall|k: int|
                #![trigger out@[k]]
                0 <= k <= i ==> {
                    &&& L::vec_view(out@[k]) == response::<L>(views, x, k as nat)
                    &&& L::vec_view(out@[k]).len() == if k < layers@.len() {
                        shape.fan_in(k)
                    } else {
                        shape.outputs
                    }
                },
        decreases layers.len() - i,
    {
        assert(views[i as int] == layers@[i as int]@);
        let next = layers[i].forward(&out[i]);
        out.push(next);
        i = i + 1;
    }
    out
}

/// One descent step on the input whose trace is `trace`, with error signal
/// `delta` at the output.
pub(crate) fn descend_stack<L: LinAlg>(
    layers: &mut Vec<Layer<L>>,
    trace: &Vec<L::Vector>,
    delta: L::Vector,
    lr: Scalar,
    scale: Scalar,
    decay_factors: &[Scalar],
    Ghost(shape): Ghost<StackShape>,
    Ghost(x): Ghost<Seq<Scalar>>,
)
    requires
        shape.fits(layer_views(old(layers)@)),
        L::vec_view(delta).len() == shape.outputs,
        decay_factors@.len() == 0 || decay_factors@.len() >= shape.depth(),
        trace@.len() == old(layers)@.len() + 1,
        forall|k: int|
            #![trigger trace@[k]]
            0 <= k <= old(layers)@.len() ==> {
                &&& L::vec_view(trace@[k]) == response::<L>(
                    layer_views(old(layers)@),
                    x,
                    k as nat,
                )
                &&& L::vec_view(trace@[k]).len() == if k < old(layers)@.len() {
                    shape.fan_in(k)
                } else {
                    shape.outputs
                }
            },
    ensures
        shape.fits(layer_views(final(layers)@)),
        layer_views(final(layers)@) == descended_stack::<L>(
            layer_views(old(layers)@),
            x,
            L::vec_view(delta),
            lr,
            scale,
            decay_factors@,
        ),
{
    let ghost start = layer_views(layers@);
    let ghost delta0 = L::vec_view(delta);
    let n: usize = layers.len();
    let mut delta = delta;
    let mut k: usize = 0;
    while k < n
        invariant
            k <= n,
            n == layers@.len(),
            n == start.len(),
            n == shape.depth() + 1,
            shape.fits(start),
            shape.fits(layer_views(layers@)),
            decay_factors@.len() == 0 || decay_factors@.len() >= shape.depth(),
            trace@.len() == n + 1,
            forall|k: int|
                #![trigger trace@[k]]
                0 <= k <= n ==> {
                    &&& L::vec_view(trace@[k]) == response::<L>(start, x, k as nat)
                    &&& L::vec_view(trace@[k]).len() == if k < n {
                        shape.fan_in(k)
                    } else {
                        shape.outputs
                    }
                },
            L::vec_view(delta).len() == if k == 0 {
                shape.outputs
            } else {
                shape.fan_in(n - k)
            },
            forall|j: int| 0 <= j < n - k ==> #[trigger] layer_views(layers@)[j] == start[j],
            (Descent { layers: layer_views(layers@), delta: L::vec_view(delta) })
                == descend_upto::<L>(start, x, delta0, lr, scale, decay_factors@, k as nat),
        decreases n - k,
    {
        let i: usize = n - 1 - k;
        let layer_scale = if i < n - 1 && decay_factors.len() > 0 {
            L::r_mul(scale, decay_factors[i])
        } else {
            scale
        };
        let ghost before = layers@;
        assert(layer_views(before)[i as int] == before[i as int]@);
        assert(L::vec_view(trace@[i as int]) == response::<L>(start, x, i as nat));
        assert(L::vec_view(trace@[i + 1]) == response::<L>(start, x, (i + 1) as nat));
        delta = layers[i].backward(&trace[i], &trace[i + 1], &delta, lr, layer_scale);
        assert(layer_views(layers@) =~= layer_views(before).update(
            i as int,
            layers@[i as int]@,
        ));
        k = k + 1;
    }
}

/// The gradient at the input whose trace is `trace` when the gradient at the
/// output is `delta`.
pub(crate) fn input_gradient_of_stack<L: LinAlg>(
    layers: &Vec<Layer<L>>,
    trace: &Vec<L::Vector>,
    delta: L::Vector,
    Ghost(shape): Ghost<StackShape>,
    Ghost(x): Ghost<Seq<Scalar>>,
) -> (r: L::Vector)
    requires
        shape.fits(layer_views(layers@)),
        L::vec_view(delta).len() == shape.outputs,
        trace@.len() == layers@.len() + 1,
        forall|k: int|
            #![trigger trace@[k]]
            0 <= k <= layers@.len() ==> {
                &&& L::vec_view(trace@[k]) == response::<L>(layer_views(layers@), x, k as nat)
                &&& L::vec_view(trace@[k]).len() == if k < layers@.len() {
                    shape.fan_in(k)
                } else {
                    shape.outputs
                }
            },
    ensures
        L::vec_view(r) == gradient_upto::<L>(
            layer_views(layers@),
            x,
            L::vec_view(delta),
            layers@.len(),
        ),
        L::vec_view(r).len() == shape.inputs,
{
    let ghost views = layer_views(layers@);
    let ghost delta0 = L::vec_view(delta);
    let n: usize = layers.len();
    let mut delta = delta;
    let mut k: usize = 0;
    while k < n
        invariant
            k <= n,
            n == layers@.len(),
            n == shape.depth() + 1,
            views == layer_views(layers@),
            shape.fits(views),
            trace@.len() == n + 1,
            forall|k: int|
                #![trigger trace@[k]]
                0 <= k <= n ==> {
                    &&& L::vec_view(trace@[k]) == response::<L>(views, x, k as nat)
                    &&& L::vec_view(trace@[k]).len() == if k < n {
                        shape.fan_in(k)
                    } else {
                        shape.outputs
                    }
                },
            L::vec_view(delta).len() == if k == 0 {
                shape.outputs
            } else {
                shape.fan_in(n - k)
            },
            L::vec_view(delta) == gradient_upto::<L>(views, x, delta0, k as nat),
        decreases n - k,
    {
        let i: usize = n - 1 - k;
        assert(views[i as int] == layers@[i as int]@);
        assert(L::vec_view(trace@[i + 1]) == response::<L>(views, x, (i + 1) as nat));
        delta = layers[i].input_gradient(&trace[i + 1], &delta);
        k = k + 1;
    }
    delta
}

} // verus!
