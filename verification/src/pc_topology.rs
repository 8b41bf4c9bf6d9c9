//! Comparing and combining actors of one topology.

use vstd::prelude::*;

use crate::error::PcError;
use crate::layer::LayerView;
use crate::linalg::{LinAlg, MatView};
use crate::mixing::{m_first_alone, m_weighted, v_first_alone, v_weighted};
use crate::pc_model::{ActorView, PcActorConfigView};
use crate::scalar::{lit, Scalar, ONE};
use crate::stack::{law_misfit_iff_not_fitting, proper_matrices, stack_misfit, StackNames};

verus! {

/// Two sizes that differ.
pub open spec fn mismatch(expected: nat, got: nat, context: &'static str) -> Option<PcError> {
    Some(PcError::DimensionMismatch { expected: expected as usize, got: got as usize, context })
}

/// The first size in which two layers differ.
pub open spec fn layer_gap(a: LayerView, b: LayerView, is_output: bool) -> Option<PcError> {
    if a.weights.rows != b.weights.rows {
        mismatch(
            a.weights.rows,
            b.weights.rows,
            if is_output {
                "polyak actor output layer rows"
            } else {
                "polyak actor hidden layer rows"
            },
        )
    } else if a.weights.cols != b.weights.cols {
        mismatch(
            a.weights.cols,
            b.weights.cols,
            if is_output {
                "polyak actor output layer cols"
            } else {
                "polyak actor hidden layer cols"
            },
        )
    } else if a.bias.len() != b.bias.len() {
        mismatch(
            a.bias.len(),
            b.bias.len(),
            if is_output {
                "polyak actor output layer bias"
            } else {
                "polyak actor hidden layer bias"
            },
        )
    } else {
        None
    }
}

/// Two layers have the same sizes.
pub open spec fn layers_agree(a: LayerView, b: LayerView) -> bool {
    a.weights.same_shape(b.weights) && a.bias.len() == b.bias.len()
}

/// The first gap among the first `k` layers.
pub open spec fn layers_gap(a: Seq<LayerView>, b: Seq<LayerView>, k: nat) -> Option<PcError>
    decreases k,
{
    if k == 0 {
        None
    } else {
        match layers_gap(a, b, (k - 1) as nat) {
            Some(e) => Some(e),
            None => layer_gap(a[k - 1], b[k - 1], k >= a.len()),
        }
    }
}

/// The first size in which two projection slots differ.
pub open spec fn slot_gap(a: Option<MatView>, b: Option<MatView>) -> Option<PcError> {
    match (a, b) {
        (Some(ma), Some(mb)) => if ma.rows != mb.rows {
            mismatch(ma.rows, mb.rows, "polyak actor skip_projection rows")
        } else if ma.cols != mb.cols {
            mismatch(ma.cols, mb.cols, "polyak actor skip_projection cols")
        } else {
            None
        },
        (None, None) => None,
        (Some(_), None) => mismatch(1, 0, "polyak actor skip_projection presence at slot"),
        (None, Some(_)) => mismatch(0, 1, "polyak actor skip_projection presence at slot"),
    }
}

/// The first gap among the first `k` projection slots.
pub open spec fn slots_gap(
    a: Seq<Option<MatView>>,
    b: Seq<Option<MatView>>,
    k: nat,
) -> Option<PcError>
    decreases k,
{
    if k == 0 {
        None
    } else {
        match slots_gap(a, b, (k - 1) as nat) {
            Some(e) => Some(e),
            None => slot_gap(a[k - 1], b[k - 1]),
        }
    }
}

/// Why two actors cannot exchange weights.
pub open spec fn topology_gap(a: ActorView, b: ActorView) -> Option<PcError> {
    if a.layers.len() != b.layers.len() {
        mismatch(a.layers.len(), b.layers.len(), "polyak actor layer count")
    } else if layers_gap(a.layers, b.layers, a.layers.len()) is Some {
        layers_gap(a.layers, b.layers, a.layers.len())
    } else if a.rezero_alpha.len() != b.rezero_alpha.len() {
        mismatch(a.rezero_alpha.len(), b.rezero_alpha.len(), "polyak actor rezero_alpha count")
    } else if a.skip_projections.len() != b.skip_projections.len() {
        mismatch(
            a.skip_projections.len(),
            b.skip_projections.len(),
            "polyak actor skip_projections count",
        )
    } else {
        slots_gap(a.skip_projections, b.skip_projections, a.skip_projections.len())
    }
}

/// Both slots are empty, or both hold matrices of one shape.
pub open spec fn slots_agree(a: Option<MatView>, b: Option<MatView>) -> bool {
    match (a, b) {
        (Some(ma), Some(mb)) => ma.same_shape(mb),
        (None, None) => true,
        _ => false,
    }
}

/// Layer by layer and slot by slot the two actors have the same sizes.
pub open spec fn same_topology(a: ActorView, b: ActorView) -> bool {
    &&& a.layers.len() == b.layers.len()
    &&& forall|k: int|
        #![trigger a.layers[k]]
        #![trigger b.layers[k]]
        0 <= k < a.layers.len() ==> layers_agree(a.layers[k], b.layers[k])
    &&& a.rezero_alpha.len() == b.rezero_alpha.len()
    &&& a.skip_projections.len() == b.skip_projections.len()
    &&& forall|s: int|
        #![trigger a.skip_projections[s]]
        #![trigger b.skip_projections[s]]
        0 <= s < a.skip_projections.len() ==> slots_agree(
            a.skip_projections[s],
            b.skip_projections[s],
        )
}

/// Two actors can exchange weights exactly when all their sizes agree.
pub proof fn law_no_gap_iff_same_topology(a: ActorView, b: ActorView)
    ensures
        topology_gap(a, b) is None <==> same_topology(a, b),
{
    if a.layers.len() == b.layers.len() {
        lemma_layers_gap(a.layers, b.layers, a.layers.len());
    }
    if a.skip_projections.len() == b.skip_projections.len() {
        lemma_slots_gap(a.skip_projections, b.skip_projections, a.skip_projections.len());
    }
}

proof fn lemma_layers_gap(a: Seq<LayerView>, b: Seq<LayerView>, k: nat)
    requires
        k <= a.len(),
        a.len() == b.len(),
    ensures
        layers_gap(a, b, k) is None <==> forall|i: int|
            #![trigger a[i]]
            #![trigger b[i]]
            0 <= i < k ==> layers_agree(a[i], b[i]),
    decreases k,
{
    if k > 0 {
        lemma_layers_gap(a, b, (k - 1) as nat);
        assert(layer_gap(a[k - 1], b[k - 1], k >= a.len()) is None <==> layers_agree(
            a[k - 1],
            b[k - 1],
        ));
    }
}

proof fn lemma_slots_gap(a: Seq<Option<MatView>>, b: Seq<Option<MatView>>, k: nat)
    requires
        k <= a.len(),
        a.len() == b.len(),
    ensures
        slots_gap(a, b, k) is None <==> forall|i: int|
            #![trigger a[i]]
            #![trigger b[i]]
            0 <= i < k ==> slots_agree(a[i], b[i]),
    decreases k,
{
    if k > 0 {
        lemma_slots_gap(a, b, (k - 1) as nat);
        assert(slot_gap(a[k - 1], b[k - 1]) is None <==> slots_agree(a[k - 1], b[k - 1]));
    }
}

/// A gap among the first layers stays the first gap.
pub proof fn lemma_layers_gap_stays(a: Seq<LayerView>, b: Seq<LayerView>, k: nat, m: nat)
    requires
        k <= m,
        layers_gap(a, b, k) is Some,
    ensures
        layers_gap(a, b, m) == layers_gap(a, b, k),
    decreases m - k,
{
    if k < m {
        lemma_layers_gap_stays(a, b, k, (m - 1) as nat);
    }
}

/// A gap among the first slots stays the first gap.
pub proof fn lemma_slots_gap_stays(
    a: Seq<Option<MatView>>,
    b: Seq<Option<MatView>>,
    k: nat,
    m: nat,
)
    requires
        k <= m,
        slots_gap(a, b, k) is Some,
    ensures
        slots_gap(a, b, m) == slots_gap(a, b, k),
    decreases m - k,
{
    if k < m {
        lemma_slots_gap_stays(a, b, k, (m - 1) as nat);
    }
}

impl ActorView {
    /// Every layer and every projection is proper.
    pub open spec fn sound(self) -> bool {
        &&& forall|k: int| 0 <= k < self.layers.len() ==> (#[trigger] self.layers[k]).wf()
        &&& self.projections_wf()
    }

    /// `tau * other + (1 - tau) * self` in every parameter.
    pub open spec fn polyak<L: LinAlg>(self, other: ActorView, tau: Scalar) -> ActorView {
        let rest = L::minus(lit(ONE), tau);
        ActorView {
            layers: Seq::new(
                self.layers.len(),
                |k: int|
                    LayerView {
                        weights: m_weighted::<L>(
                            tau,
                            other.layers[k].weights,
                            rest,
                            self.layers[k].weights,
                        ),
                        bias: v_weighted::<L>(
                            tau,
                            other.layers[k].bias,
                            rest,
                            self.layers[k].bias,
                        ),
                        activation: self.layers[k].activation,
                    },
            ),
            rezero_alpha: v_weighted::<L>(tau, other.rezero_alpha, rest, self.rezero_alpha),
            skip_projections: Seq::new(
                self.skip_projections.len(),
                |s: int|
                    match (self.skip_projections[s], other.skip_projections[s]) {
                        (Some(sm), Some(om)) => Some(m_weighted::<L>(tau, om, rest, sm)),
                        _ => self.skip_projections[s],
                    },
            ),
        }
    }

    /// Every parameter of `other`, with the activations of `self`.
    pub open spec fn overwritten(self, other: ActorView) -> ActorView {
        ActorView {
            layers: Seq::new(
                self.layers.len(),
                |k: int| self.layers[k].overwritten(other.layers[k]),
            ),
            rezero_alpha: other.rezero_alpha,
            skip_projections: other.skip_projections,
        }
    }
}

/// Weighting every parameter with one on `other` and zero on `a` gives back the
/// parameters of `other`, as far as both are finite.
pub open spec fn copies_at_one<L: LinAlg>(a: ActorView, other: ActorView, tau: Scalar) -> bool {
    let rest = L::minus(lit(ONE), tau);
    &&& forall|k: int|
        #![trigger a.layers[k]]
        0 <= k < a.layers.len() ==> {
            &&& m_first_alone::<L>(tau, other.layers[k].weights, rest, a.layers[k].weights)
            &&& v_first_alone::<L>(tau, other.layers[k].bias, rest, a.layers[k].bias)
        }
    &&& v_first_alone::<L>(tau, other.rezero_alpha, rest, a.rezero_alpha)
    &&& forall|s: int|
        #![trigger a.skip_projections[s]]
        0 <= s < a.skip_projections.len() ==> match (
            a.skip_projections[s],
            other.skip_projections[s],
        ) {
            (Some(sm), Some(om)) => m_first_alone::<L>(tau, om, rest, sm),
            _ => true,
        }
}

/// What saved actor layers are called in errors.
pub open spec fn actor_names() -> StackNames {
    StackNames {
        count: "actor layer count",
        rows: "actor layer weight rows",
        cols: "actor layer weight cols",
        bias: "actor layer bias length",
    }
}

/// The first of the first `k` projections that does not map its hidden layer
/// onto the next.
pub open spec fn projection_misfit(
    slots: Seq<Option<MatView>>,
    cfg: PcActorConfigView,
    k: nat,
) -> Option<PcError>
    decreases k,
{
    if k == 0 {
        None
    } else {
        match projection_misfit(slots, cfg, (k - 1) as nat) {
            Some(e) => Some(e),
            None => {
                let rows = cfg.hidden_layers[k as int].size;
                let cols = cfg.hidden_layers[k - 1].size;
                match slots[k - 1] {
                    Some(m) if m.rows != rows || m.cols != cols => Some(
                        PcError::DimensionMismatch {
                            expected: rows.wrapping_mul(cols),
                            got: (m.rows as usize).wrapping_mul(m.cols as usize),
                            context: "actor skip_projection dimensions",
                        },
                    ),
                    _ => None,
                }
            },
        }
    }
}

/// Why saved weights do not fit an actor configuration.
pub open spec fn actor_misfit(w: ActorView, cfg: PcActorConfigView) -> Option<PcError> {
    if stack_misfit(w.layers, cfg.shape(), actor_names()) is Some {
        stack_misfit(w.layers, cfg.shape(), actor_names())
    } else if cfg.residual {
        if w.rezero_alpha.len() != cfg.skip_count() {
            mismatch(cfg.skip_count(), w.rezero_alpha.len(), "actor rezero_alpha count")
        } else if w.skip_projections.len() != cfg.skip_count() {
            mismatch(cfg.skip_count(), w.skip_projections.len(), "actor skip_projections count")
        } else {
            projection_misfit(w.skip_projections, cfg, cfg.skip_count())
        }
    } else {
        None
    }
}

/// Hidden layers that differ in size are bridged by a projection.
pub open spec fn bridged(w: ActorView, cfg: PcActorConfigView) -> bool {
    cfg.residual ==> forall|s: int|
        #![trigger w.skip_projections[s]]
        0 <= s < w.skip_projections.len() && s + 1 < cfg.hidden_layers.len()
            && w.skip_projections[s] is None ==> cfg.hidden_layers[s + 1].size
            == cfg.hidden_layers[s].size
}

/// A misfit among the first projections stays the first misfit.
pub proof fn lemma_projection_misfit_stays(
    slots: Seq<Option<MatView>>,
    cfg: PcActorConfigView,
    k: nat,
    m: nat,
)
    requires
        k <= m,
        projection_misfit(slots, cfg, k) is Some,
    ensures
        projection_misfit(slots, cfg, m) == projection_misfit(slots, cfg, k),
    decreases m - k,
{
    if k < m {
        lemma_projection_misfit_stays(slots, cfg, k, (m - 1) as nat);
    }
}

proof fn lemma_projections_fit(slots: Seq<Option<MatView>>, cfg: PcActorConfigView, k: nat)
    requires
        k <= slots.len(),
    ensures
        projection_misfit(slots, cfg, k) is None <==> forall|s: int|
            #![trigger slots[s]]
            0 <= s < k ==> match slots[s] {
                Some(m) => m.rows == cfg.hidden_layers[s + 1].size && m.cols
                    == cfg.hidden_layers[s].size,
                None => true,
            },
    decreases k,
{
    if k > 0 {
        lemma_projections_fit(slots, cfg, (k - 1) as nat);
        let last = slots[k - 1];
    }
}

/// Saved weights with proper matrices make a working actor exactly when they
/// fit the configuration and bridge every change of size.
pub proof fn law_fitting_bridged_weights_work(w: ActorView, cfg: PcActorConfigView)
    requires
        proper_matrices(w.layers),
        w.projections_wf(),
    ensures
        w.wf(cfg) <==> actor_misfit(w, cfg) is None && bridged(w, cfg),
{
    law_misfit_iff_not_fitting(w.layers, cfg.shape(), actor_names());
    if w.skip_projections.len() == cfg.skip_count() {
        lemma_projections_fit(w.skip_projections, cfg, cfg.skip_count());
        assert forall|s: int| #![trigger w.skip_projections[s]] 0 <= s < cfg.skip_count() implies (
        w.slot_wf(cfg, s) <==> {
            &&& match w.skip_projections[s] {
                Some(m) => m.rows == cfg.hidden_layers[s + 1].size && m.cols
                    == cfg.hidden_layers[s].size,
                None => true,
            }
            &&& w.skip_projections[s] is None ==> cfg.hidden_layers[s + 1].size
                == cfg.hidden_layers[s].size
        }) by {}
    }
}

/// A working actor's snapshot is accepted by its own configuration and makes a
/// working actor again.
pub proof fn law_working_actor_survives_saving(a: ActorView, cfg: PcActorConfigView)
    requires
        a.wf(cfg),
    ensures
        a.sound(),
        actor_misfit(a, cfg) is None,
        bridged(a, cfg),
{
    assert(proper_matrices(a.layers));
    law_fitting_bridged_weights_work(a, cfg);
}

} // verus!
