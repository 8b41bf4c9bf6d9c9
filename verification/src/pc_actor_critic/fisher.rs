//! Importance of weights for elastic weight consolidation.

use vstd::prelude::*;

use crate::arith::Arith;
use crate::layer::{bounded, layer_views, mat_from_host, mat_to_host, Layer, LayerView};
use crate::linalg::{lemma_mat_ext, lemma_mat_set, v_zeros, LinAlg, MatView};
use crate::matrix::{Matrix, WEIGHT_CLIP};
use crate::mixing::weighted;
use crate::pc_actor::{opt_mat, opt_vec};
use crate::scalar::{lit, Scalar, ONE, ZERO};
use crate::serializer::{opt_host, FisherStateSerialized};

verus! {

/// Importance of the parameters of one layer.
#[verifier::ext_equal]
pub struct FisherView {
    pub f_total_weights: MatView,
    pub f_total_bias: Seq<Scalar>,
    pub f_ema_weights: MatView,
    pub f_ema_bias: Seq<Scalar>,
    pub theta_snapshot_weights: Option<MatView>,
    pub theta_snapshot_bias: Option<Seq<Scalar>>,
    pub theta_snapshot_rezero_alpha: Option<Scalar>,
    pub theta_snapshot_skip_proj: Option<MatView>,
}

/// An absent matrix, or a proper one.
pub open spec fn opt_wf(o: Option<MatView>) -> bool {
    match o {
        Some(m) => m.wf(),
        None => true,
    }
}

impl FisherView {
    /// No importance and no snapshot.
    pub open spec fn blank(rows: nat, cols: nat, bias: nat) -> FisherView {
        FisherView {
            f_total_weights: MatView::zeros(rows, cols),
            f_total_bias: v_zeros(bias),
            f_ema_weights: MatView::zeros(rows, cols),
            f_ema_bias: v_zeros(bias),
            theta_snapshot_weights: None,
            theta_snapshot_bias: None,
            theta_snapshot_rezero_alpha: None,
            theta_snapshot_skip_proj: None,
        }
    }

    /// Every matrix is proper.
    pub open spec fn sound(self) -> bool {
        &&& self.f_total_weights.wf()
        &&& self.f_ema_weights.wf()
        &&& opt_wf(self.theta_snapshot_weights)
        &&& opt_wf(self.theta_snapshot_skip_proj)
    }

    /// One importance and one snapshot value per parameter of `layer`.
    pub open spec fn fits(self, layer: LayerView) -> bool {
        &&& self.sound()
        &&& self.f_total_weights.same_shape(layer.weights)
        &&& self.f_ema_weights.same_shape(layer.weights)
        &&& self.f_total_bias.len() == layer.bias.len()
        &&& self.f_ema_bias.len() == layer.bias.len()
        &&& self.theta_snapshot_weights is Some ==> self.theta_snapshot_weights->0.same_shape(
            layer.weights,
        )
        &&& self.theta_snapshot_bias is Some ==> self.theta_snapshot_bias->0.len()
            == layer.bias.len()
    }

    /// The running estimate after the clipped gradient `grad`.
    pub open spec fn observed<A: Arith>(self, beta: Scalar, grad: Seq<Scalar>) -> FisherView {
        let rest = A::minus(lit(ONE), beta);
        FisherView {
            f_ema_weights: MatView::tabulate(
                self.f_ema_weights.rows,
                self.f_ema_weights.cols,
                |r: int, c: int|
                    weighted::<A>(
                        beta,
                        self.f_ema_weights.at(r, c),
                        rest,
                        A::times(grad[r], grad[r]),
                    ),
            ),
            f_ema_bias: Seq::new(
                self.f_ema_bias.len(),
                |i: int|
                    weighted::<A>(beta, self.f_ema_bias[i], rest, A::times(grad[i], grad[i])),
            ),
            ..self
        }
    }

    /// The running estimate forgotten; accumulated importance and snapshots
    /// stay.
    pub open spec fn forgotten(self) -> FisherView {
        FisherView {
            f_ema_weights: MatView::zeros(self.f_ema_weights.rows, self.f_ema_weights.cols),
            f_ema_bias: v_zeros(self.f_ema_bias.len()),
            ..self
        }
    }
}

/// Importance of the parameters of one layer.
pub struct FisherState<L: LinAlg> {
    /// Accumulated importance of the weights.
    pub f_total_weights: L::Matrix,
    /// Accumulated importance of the biases.
    pub f_total_bias: L::Vector,
    /// Running estimate for the weights.
    pub f_ema_weights: L::Matrix,
    /// Running estimate for the biases.
    pub f_ema_bias: L::Vector,
    /// Weights that a correction pulls towards.
    pub theta_snapshot_weights: Option<L::Matrix>,
    /// Biases that a correction pulls towards.
    pub theta_snapshot_bias: Option<L::Vector>,
    pub theta_snapshot_rezero_alpha: Option<Scalar>,
    pub theta_snapshot_skip_proj: Option<L::Matrix>,
}

/// The contents of a list of states.
pub open spec fn fisher_views<L: LinAlg>(states: Seq<FisherState<L>>) -> Seq<FisherView> {
    states.map_values(|f: FisherState<L>| f@)
}

/// One state per layer, or none at all.
pub open spec fn fisher_fits(states: Seq<FisherView>, layers: Seq<LayerView>) -> bool {
    states.len() > 0 ==> {
        &&& states.len() == layers.len()
        &&& forall|k: int|
            #![trigger states[k]]
            0 <= k < states.len() ==> states[k].fits(layers[k])
    }
}

/// Every state is sound.
pub open spec fn all_sound(states: Seq<FisherView>) -> bool {
    forall|k: int| 0 <= k < states.len() ==> (#[trigger] states[k]).sound()
}

/// Blank states for every layer where consolidation is on, none otherwise.
pub open spec fn blank_states(layers: Seq<LayerView>, ewc_lambda: Scalar) -> Seq<FisherView> {
    if lit(ZERO).lt(ewc_lambda) {
        Seq::new(
            layers.len(),
            |k: int|
                FisherView::blank(
                    layers[k].weights.rows,
                    layers[k].weights.cols,
                    layers[k].bias.len(),
                ),
        )
    } else {
        Seq::empty()
    }
}

/// A parameter after the pull of a correction towards its snapshot.
pub open spec fn corrected<A: Arith>(
    rate: Scalar,
    ewc_lambda: Scalar,
    importance: Scalar,
    before: Scalar,
    snapshot: Scalar,
    now: Scalar,
) -> Scalar {
    A::minus(
        now,
        A::times(
            A::times(A::times(rate, ewc_lambda), importance),
            A::minus(before, snapshot),
        ),
    ).clamp(lit(WEIGHT_CLIP).neg(), lit(WEIGHT_CLIP))
}

impl LayerView {
    /// The layer after the pull of a correction, where there is a snapshot.
    /// `before` is the layer from before the weight update.
    pub open spec fn consolidated<A: Arith>(
        self,
        before: LayerView,
        fisher: FisherView,
        rate: Scalar,
        ewc_lambda: Scalar,
    ) -> LayerView {
        match (fisher.theta_snapshot_weights, fisher.theta_snapshot_bias) {
            (Some(sw), Some(sb)) => LayerView {
                weights: MatView::tabulate(
                    self.weights.rows,
                    self.weights.cols,
                    |r: int, c: int|
                        corrected::<A>(
                            rate,
                            ewc_lambda,
                            fisher.f_total_weights.at(r, c),
                            before.weights.at(r, c),
                            sw.at(r, c),
                            self.weights.at(r, c),
                        ),
                ),
                bias: Seq::new(
                    self.bias.len(),
                    |i: int|
                        corrected::<A>(
                            rate,
                            ewc_lambda,
                            fisher.f_total_bias[i],
                            before.bias[i],
                            sb[i],
                            self.bias[i],
                        ),
                ),
                activation: self.activation,
            },
            _ => self,
        }
    }
}

/// A correction leaves every weight and bias within the weight bound.
pub proof fn law_consolidation_keeps_weights_bounded<A: Arith>(
    layer: LayerView,
    before: LayerView,
    fisher: FisherView,
    rate: Scalar,
    ewc_lambda: Scalar,
)
    requires
        layer.clipped(),
    ensures
        layer.consolidated::<A>(before, fisher, rate, ewc_lambda).clipped(),
{
    let next = layer.consolidated::<A>(before, fisher, rate, ewc_lambda);
    if fisher.theta_snapshot_weights is Some && fisher.theta_snapshot_bias is Some {
        let sw = fisher.theta_snapshot_weights->0;
        assert forall|r: int, c: int|
            0 <= r < next.weights.rows && 0 <= c < next.weights.cols implies bounded(
            #[trigger] next.weights.at(r, c),
        ) by {
            assert(next.weights.at(r, c) == corrected::<A>(
                rate,
                ewc_lambda,
                fisher.f_total_weights.at(r, c),
                before.weights.at(r, c),
                sw.at(r, c),
                layer.weights.at(r, c),
            ));
        }
    }
}

/// A copy of an optional vector in host memory.
fn opt_vec_to_host<L: LinAlg>(backend: &L, o: &Option<L::Vector>) -> (r: Option<Vec<Scalar>>)
    ensures
        match r {
            Some(v) => opt_vec::<L>(*o) == Some(v@),
            None => *o is None,
        },
{
    match o {
        Some(v) => Some(backend.vec_to_vec(v)),
        None => None,
    }
}

/// A copy of an optional matrix in host memory.
fn opt_mat_to_host<L: LinAlg>(backend: &L, o: &Option<L::Matrix>) -> (r: Option<Matrix>)
    requires
        opt_wf(opt_mat::<L>(*o)),
    ensures
        opt_host(r) == opt_mat::<L>(*o),
{
    match o {
        Some(m) => Some(mat_to_host(backend, m)),
        None => None,
    }
}

/// An optional matrix from its host copy.
fn opt_mat_from_host<L: LinAlg>(backend: &L, o: &Option<Matrix>) -> (r: Option<L::Matrix>)
    requires
        opt_wf(opt_host(*o)),
    ensures
        opt_mat::<L>(r) == opt_host(*o),
{
    match o {
        Some(m) => Some(mat_from_host(backend, m)),
        None => None,
    }
}

impl<L: LinAlg> FisherState<L> {
    pub open spec fn view(&self) -> FisherView {
        FisherView {
            f_total_weights: L::mat_view(self.f_total_weights),
            f_total_bias: L::vec_view(self.f_total_bias),
            f_ema_weights: L::mat_view(self.f_ema_weights),
            f_ema_bias: L::vec_view(self.f_ema_bias),
            theta_snapshot_weights: opt_mat::<L>(self.theta_snapshot_weights),
            theta_snapshot_bias: opt_vec::<L>(self.theta_snapshot_bias),
            theta_snapshot_rezero_alpha: self.theta_snapshot_rezero_alpha,
            theta_snapshot_skip_proj: opt_mat::<L>(self.theta_snapshot_skip_proj),
        }
    }

    /// No importance and no snapshot.
    pub fn new(backend: &L, rows: usize, cols: usize, bias_size: usize) -> (r: Self)
        ensures
            r@ == FisherView::blank(rows as nat, cols as nat, bias_size as nat),
            r@.sound(),
    {
        FisherState {
            f_total_weights: backend.zeros_mat(rows, cols),
            f_total_bias: backend.zeros_vec(bias_size),
            f_ema_weights: backend.zeros_mat(rows, cols),
            f_ema_bias: backend.zeros_vec(bias_size),
            theta_snapshot_weights: None,
            theta_snapshot_bias: None,
            theta_snapshot_rezero_alpha: None,
            theta_snapshot_skip_proj: None,
        }
    }

    /// Takes the clipped gradient `grad` of the layer into the running estimate.
    pub fn observe(&mut self, backend: &L, beta: Scalar, grad: &L::Vector)
        requires
            old(self)@.f_ema_weights.wf(),
            L::vec_view(*grad).len() >= old(self)@.f_ema_weights.rows,
            L::vec_view(*grad).len() >= old(self)@.f_ema_bias.len(),
        ensures
            final(self)@ == old(self)@.observed::<L>(beta, L::vec_view(*grad)),
    {
        let ghost start = self@;
        let ghost g = L::vec_view(*grad);
        let ghost target = start.observed::<L>(beta, g);
        let rest = L::r_sub(lit(ONE), beta);
        let bias_len: usize = backend.vec_len(&self.f_ema_bias);
        let mut bias: Vec<Scalar> = Vec::new();
        let mut i: usize = 0;
        while i < bias_len
            invariant
                i <= bias_len,
                start == self@,
                bias_len == start.f_ema_bias.len(),
                g == L::vec_view(*grad),
                g.len() >= bias_len,
                rest == L::minus(lit(ONE), beta),
                target == start.observed::<L>(beta, g),
                bias@ == target.f_ema_bias.take(i as int),
            decreases bias_len - i,
        {
            let x = backend.vec_get(grad, i);
            let prev = backend.vec_get(&self.f_ema_bias, i);
            bias.push(L::r_add(L::r_mul(beta, prev), L::r_mul(rest, L::r_mul(x, x))));
            i = i + 1;
            assert(bias@ =~= target.f_ema_bias.take(i as int));
        }
        assert(bias@ =~= target.f_ema_bias);
        let new_bias = backend.vec_from_slice(bias.as_slice());

        let rows: usize = backend.mat_rows(&self.f_ema_weights);
        let cols: usize = backend.mat_cols(&self.f_ema_weights);
        let mut weights = backend.zeros_mat(rows, cols);
        let mut r: usize = 0;
        while r < rows
            invariant
                r <= rows,
                start == self@,
                start.f_ema_weights.wf(),
                start.f_ema_weights.rows == rows,
                start.f_ema_weights.cols == cols,
                g == L::vec_view(*grad),
                g.len() >= rows,
                rest == L::minus(lit(ONE), beta),
                target == start.observed::<L>(beta, g),
                L::mat_view(weights).wf(),
                L::mat_view(weights).same_shape(start.f_ema_weights),
                forall|i: int, j: int|
                    0 <= i < r && 0 <= j < cols ==> #[trigger] L::mat_view(weights).at(i, j)
                        == target.f_ema_weights.at(i, j),
            decreases rows - r,
        {
            let x = backend.vec_get(grad, r);
            let square = L::r_mul(x, x);
            let mut c: usize = 0;
            while c < cols
                invariant
                    c <= cols,
                    r < rows,
                    start == self@,
                    start.f_ema_weights.wf(),
                    start.f_ema_weights.rows == rows,
                    start.f_ema_weights.cols == cols,
                    g == L::vec_view(*grad),
                    g.len() >= rows,
                    x == g[r as int],
                    square == L::times(x, x),
                    rest == L::minus(lit(ONE), beta),
                    target == start.observed::<L>(beta, g),
                    L::mat_view(weights).wf(),
                    L::mat_view(weights).same_shape(start.f_ema_weights),
                    forall|i: int, j: int|
                        0 <= j < cols && (0 <= i < r || (i == r && j < c))
                            ==> #[trigger] L::mat_view(weights).at(i, j)
                            == target.f_ema_weights.at(i, j),
                decreases cols - c,
            {
                let prev = backend.mat_get(&self.f_ema_weights, r, c);
                let v = L::r_add(L::r_mul(beta, prev), L::r_mul(rest, square));
                proof {
                    lemma_mat_set(L::mat_view(weights), r as int, c as int, v);
                }
                backend.mat_set(&mut weights, r, c, v);
                c = c + 1;
            }
            r = r + 1;
        }
        proof {
            lemma_mat_ext(L::mat_view(weights), target.f_ema_weights);
        }
        self.f_ema_bias = new_bias;
        self.f_ema_weights = weights;
    }

    /// Forgets the running estimate.
    pub fn forget(&mut self, backend: &L)
        ensures
            final(self)@ == old(self)@.forgotten(),
    {
        let rows: usize = backend.mat_rows(&self.f_ema_weights);
        let cols: usize = backend.mat_cols(&self.f_ema_weights);
        self.f_ema_weights = backend.zeros_mat(rows, cols);
        let bias_len: usize = backend.vec_len(&self.f_ema_bias);
        self.f_ema_bias = backend.zeros_vec(bias_len);
    }

    /// Copies the state into host memory.
    pub fn to_host(&self, backend: &L) -> (r: FisherStateSerialized)
        requires
            self@.sound(),
        ensures
            r@ == self@,
    {
        FisherStateSerialized {
            f_total_weights: mat_to_host(backend, &self.f_total_weights),
            f_total_bias: backend.vec_to_vec(&self.f_total_bias),
            f_ema_weights: mat_to_host(backend, &self.f_ema_weights),
            f_ema_bias: backend.vec_to_vec(&self.f_ema_bias),
            theta_snapshot_weights: opt_mat_to_host(backend, &self.theta_snapshot_weights),
            theta_snapshot_bias: opt_vec_to_host(backend, &self.theta_snapshot_bias),
            theta_snapshot_rezero_alpha: self.theta_snapshot_rezero_alpha,
            theta_snapshot_skip_proj: opt_mat_to_host(backend, &self.theta_snapshot_skip_proj),
        }
    }

    /// Builds a state from its host copy.
    pub fn from_host(host: &FisherStateSerialized, backend: &L) -> (r: Self)
        requires
            host@.sound(),
        ensures
            r@ == host@,
    {
        FisherState {
            f_total_weights: mat_from_host(backend, &host.f_total_weights),
            f_total_bias: backend.vec_from_slice(host.f_total_bias.as_slice()),
            f_ema_weights: mat_from_host(backend, &host.f_ema_weights),
            f_ema_bias: backend.vec_from_slice(host.f_ema_bias.as_slice()),
            theta_snapshot_weights: opt_mat_from_host(backend, &host.theta_snapshot_weights),
            theta_snapshot_bias: match &host.theta_snapshot_bias {
                Some(v) => Some(backend.vec_from_slice(v.as_slice())),
                None => None,
            },
            theta_snapshot_rezero_alpha: host.theta_snapshot_rezero_alpha,
            theta_snapshot_skip_proj: opt_mat_from_host(backend, &host.theta_snapshot_skip_proj),
        }
    }
}

/// Blank states for a stack of layers.
pub fn build_fisher_for_layers<L: LinAlg>(
    backend: &L,
    layers: &Vec<Layer<L>>,
    ewc_lambda: Scalar,
) -> (r: Vec<FisherState<L>>)
    ensures
        fisher_views(r@) == blank_states(layer_views(layers@), ewc_lambda),
        all_sound(fisher_views(r@)),
{
    let mut out: Vec<FisherState<L>> = Vec::new();
    if lit(ZERO).lt(ewc_lambda) {
        let mut i: usize = 0;
        while i < layers.len()
            invariant
                i <= layers.len(),
                out@.len() == i,
                forall|k: int|
                    0 <= k < i ==> (#[trigger] out@[k])@ == FisherView::blank(
                        layers@[k]@.weights.rows,
                        layers@[k]@.weights.cols,
                        layers@[k]@.bias.len(),
                    ),
                forall|k: int| 0 <= k < i ==> (#[trigger] out@[k])@.sound(),
            decreases layers.len() - i,
        {
            let rows: usize = backend.mat_rows(&layers[i].weights);
            let cols: usize = backend.mat_cols(&layers[i].weights);
            let bias_size: usize = backend.vec_len(&layers[i].bias);
            out.push(FisherState::new(backend, rows, cols, bias_size));
            i = i + 1;
        }
    }
    assert(fisher_views(out@) =~= blank_states(layer_views(layers@), ewc_lambda));
    out
}

/// Blank states fit the layers they were made for.
pub proof fn lemma_blank_states_fit(layers: Seq<LayerView>, ewc_lambda: Scalar)
    ensures
        fisher_fits(blank_states(layers, ewc_lambda), layers),
{
    let states = blank_states(layers, ewc_lambda);
    if states.len() > 0 {
        assert forall|k: int| #![trigger states[k]] 0 <= k < states.len() implies states[k].fits(
            layers[k],
        ) by {
            assert(states[k] == FisherView::blank(
                layers[k].weights.rows,
                layers[k].weights.cols,
                layers[k].bias.len(),
            ));
        }
    }
}

/// Pulls a layer towards its snapshot, where there is one. `before` is the layer
/// from before the weight update.
pub fn consolidate<L: LinAlg>(
    backend: &L,
    layer: &mut Layer<L>,
    before: &Layer<L>,
    fisher: &FisherState<L>,
    rate: Scalar,
    ewc_lambda: Scalar,
)
    requires
        old(layer)@.wf(),
        before@.wf(),
        before@.weights.same_shape(old(layer)@.weights),
        fisher@.fits(old(layer)@),
    ensures
        final(layer)@ == old(layer)@.consolidated::<L>(before@, fisher@, rate, ewc_lambda),
        final(layer)@.wf(),
        final(layer)@.weights.same_shape(old(layer)@.weights),
{
    let ghost start = layer@;
    let ghost target = start.consolidated::<L>(before@, fisher@, rate, ewc_lambda);
    let snapshot_w = match &fisher.theta_snapshot_weights {
        Some(s) => s,
        None => {
            return;
        },
    };
    let snapshot_b = match &fisher.theta_snapshot_bias {
        Some(s) => s,
        None => {
            return;
        },
    };
    let ghost sw = L::mat_view(*snapshot_w);
    let ghost sb = L::vec_view(*snapshot_b);
    let low = lit(WEIGHT_CLIP).neg();
    let high = lit(WEIGHT_CLIP);
    let pull = L::r_mul(rate, ewc_lambda);
    let rows: usize = backend.mat_rows(&layer.weights);
    let cols: usize = backend.mat_cols(&layer.weights);
    let mut weights = backend.zeros_mat(rows, cols);
    let mut r: usize = 0;
    while r < rows
        invariant
            r <= rows,
            start == layer@,
            start.wf(),
            before@.wf(),
            before@.weights.same_shape(start.weights),
            fisher@.fits(start),
            start.weights.rows == rows,
            start.weights.cols == cols,
            sw == L::mat_view(*snapshot_w),
            fisher@.theta_snapshot_weights == Some(sw),
            fisher@.theta_snapshot_bias == Some(sb),
            low == lit(WEIGHT_CLIP).neg(),
            high == lit(WEIGHT_CLIP),
            pull == L::times(rate, ewc_lambda),
            target == start.consolidated::<L>(before@, fisher@, rate, ewc_lambda),
            L::mat_view(weights).wf(),
            L::mat_view(weights).same_shape(start.weights),
            forall|i: int, j: int|
                0 <= i < r && 0 <= j < cols ==> #[trigger] L::mat_view(weights).at(i, j)
                    == target.weights.at(i, j),
        decreases rows - r,
    {
        let mut c: usize = 0;
        while c < cols
            invariant
                c <= cols,
                r < rows,
                start == layer@,
                start.wf(),
                before@.wf(),
                before@.weights.same_shape(start.weights),
                fisher@.fits(start),
                start.weights.rows == rows,
                start.weights.cols == cols,
                sw == L::mat_view(*snapshot_w),
                fisher@.theta_snapshot_weights == Some(sw),
                fisher@.theta_snapshot_bias == Some(sb),
                low == lit(WEIGHT_CLIP).neg(),
                high == lit(WEIGHT_CLIP),
                pull == L::times(rate, ewc_lambda),
                target == start.consolidated::<L>(before@, fisher@, rate, ewc_lambda),
                L::mat_view(weights).wf(),
                L::mat_view(weights).same_shape(start.weights),
                forall|i: int, j: int|
                    0 <= j < cols && (0 <= i < r || (i == r && j < c))
                        ==> #[trigger] L::mat_view(weights).at(i, j) == target.weights.at(i, j),
            decreases cols - c,
        {
            let w_pre = backend.mat_get(&before.weights, r, c);
            let w_snap = backend.mat_get(snapshot_w, r, c);
            let importance = backend.mat_get(&fisher.f_total_weights, r, c);
            let correction = L::r_mul(L::r_mul(pull, importance), L::r_sub(w_pre, w_snap));
            let w = L::r_sub(backend.mat_get(&layer.weights, r, c), correction).clamp(low, high);
            proof {
                lemma_mat_set(L::mat_view(weights), r as int, c as int, w);
            }
            backend.mat_set(&mut weights, r, c, w);
            c = c + 1;
        }
        r = r + 1;
    }
    proof {
        lemma_mat_ext(L::mat_view(weights), target.weights);
    }
    let bias_len: usize = backend.vec_len(&layer.bias);
    let mut bias: Vec<Scalar> = Vec::new();
    let mut j: usize = 0;
    while j < bias_len
        invariant
            j <= bias_len,
            start == layer@,
            before@.wf(),
            start.wf(),
            before@.weights.same_shape(start.weights),
            fisher@.fits(start),
            bias_len == start.bias.len(),
            sb == L::vec_view(*snapshot_b),
            fisher@.theta_snapshot_weights == Some(sw),
            fisher@.theta_snapshot_bias == Some(sb),
            low == lit(WEIGHT_CLIP).neg(),
            high == lit(WEIGHT_CLIP),
            pull == L::times(rate, ewc_lambda),
            target == start.consolidated::<L>(before@, fisher@, rate, ewc_lambda),
            bias@ == target.bias.take(j as int),
        decreases bias_len - j,
    {
        let b_pre = backend.vec_get(&before.bias, j);
        let b_snap = backend.vec_get(snapshot_b, j);
        let importance = backend.vec_get(&fisher.f_total_bias, j);
        let correction = L::r_mul(L::r_mul(pull, importance), L::r_sub(b_pre, b_snap));
        bias.push(L::r_sub(backend.vec_get(&layer.bias, j), correction).clamp(low, high));
        j = j + 1;
        assert(bias@ =~= target.bias.take(j as int));
    }
    assert(bias@ =~= target.bias);
    layer.weights = weights;
    layer.bias = backend.vec_from_slice(bias.as_slice());
}

} // verus!
