//! Laws of saved agents.

use rand::rngs::StdRng;
use vstd::prelude::*;

use crate::layer::host_views;
use crate::linalg::LinAlg;
use crate::mlp_critic::critic_names;
use crate::pc_actor_critic::agent::PcActorCritic;
use crate::pc_actor_critic::config::ActionSpace;
use crate::pc_actor_critic::fisher::fisher_views;
use crate::pc_model::{ActorView, PcActorConfigView};
use crate::pc_topology::{actor_misfit, actor_names, projection_misfit};
use crate::q_critic::{q_names, QCriticConfig, QCriticWeights};
use crate::save_file::{
    anchor_after, anchor_fault, cl_from, critic_from, load_fault, memory_from, proper,
    proper_anchor, proper_q, q_fault, SaveFile,
};
use crate::scalar::{lit, Scalar, ZERO};
use crate::serializer::{ClView, PcActorWeights};
use crate::stack::{initial_stack, law_misfit_iff_not_fitting, proper_matrices};

verus! {

/// Saved weights fit an actor: layers of its sizes and, in a residual one, a scale and a
/// slot per skip connection, each projection from one hidden layer onto the next.
pub open spec fn fits_actor(w: ActorView, cfg: PcActorConfigView) -> bool {
    &&& cfg.shape().fits(w.layers)
    &&& cfg.residual ==> {
        let skips = if cfg.hidden_layers.len() >= 1 {
            cfg.hidden_layers.len() - 1
        } else {
            0
        };
        &&& w.rezero_alpha.len() == skips
        &&& w.skip_projections.len() == skips
        &&& forall|s: int|
            #![trigger w.skip_projections[s]]
            0 <= s < skips && w.skip_projections[s] is Some ==> w.skip_projections[s]->0.rows
                == cfg.hidden_layers[s + 1].size && w.skip_projections[s]->0.cols
                == cfg.hidden_layers[s].size
    }
}

/// Saved actor weights with proper matrices come back exactly where they fit.
pub proof fn law_actor_weights_come_back_exactly_where_they_fit(
    w: ActorView,
    cfg: PcActorConfigView,
)
    requires
        proper_matrices(w.layers),
    ensures
        actor_misfit(w, cfg) is None <==> fits_actor(w, cfg),
{
    law_misfit_iff_not_fitting(w.layers, cfg.shape(), actor_names());
    if w.skip_projections.len() == cfg.skip_count() {
        lemma_projections(w, cfg, cfg.skip_count());
    }
}

proof fn lemma_projections(w: ActorView, cfg: PcActorConfigView, k: nat)
    requires
        k <= w.skip_projections.len(),
    ensures
        projection_misfit(w.skip_projections, cfg, k) is None <==> forall|s: int|
            #![trigger w.skip_projections[s]]
            0 <= s < k && w.skip_projections[s] is Some ==> w.skip_projections[s]->0.rows
                == cfg.hidden_layers[s + 1].size && w.skip_projections[s]->0.cols
                == cfg.hidden_layers[s].size,
    decreases k,
{
    if k > 0 {
        lemma_projections(w, cfg, (k - 1) as nat);
        let last = w.skip_projections[k - 1];
    }
}

/// A saved copy of the actor fits, where distillation towards it is on and one was saved.
pub open spec fn fits_copy(
    lambda: Scalar,
    w: Option<PcActorWeights>,
    cfg: PcActorConfigView,
) -> bool {
    lit(ZERO).lt(lambda) && w is Some ==> fits_actor(w->0@, cfg)
}

/// A saved action-value critic is there and fits.
pub open spec fn fits_q(w: Option<QCriticWeights>, q: QCriticConfig) -> bool {
    w is Some && q@.shape().fits(host_views(w->0.layers@))
}

/// A file with proper matrices comes back exactly where all that it holds fits its
/// configuration: the actor, the state-value critic, which only a continuous agent may
/// lack, the copies of the actor that count, and all four action-value critics where they
/// are configured, as they must be for a continuous agent.
pub proof fn law_file_comes_back_exactly_where_it_fits(file: SaveFile)
    requires
        proper(file),
    ensures
        ({
            let c = file.config;
            let continuous = c.action_space == ActionSpace::Continuous;
            load_fault(file) is None <==> {
                &&& fits_actor(file.actor_weights@, c.actor@)
                &&& if continuous && file.critic_weights.layers@.len() == 0 {
                    c.critic.input_size > 0
                } else {
                    c.critic@.shape().fits(host_views(file.critic_weights.layers@))
                }
                &&& fits_copy(c.distillation_lambda_polyak, file.polyak_target_weights, c.actor@)
                &&& fits_copy(c.distillation_lambda_frozen, file.frozen_champion_weights, c.actor@)
                &&& match c.q_critic {
                    Some(q) => fits_q(file.q1_weights, q) && fits_q(file.q2_weights, q) && fits_q(
                        file.q1_target_weights,
                        q,
                    ) && fits_q(file.q2_target_weights, q),
                    None => !continuous,
                }
            }
        }),
{
    let c = file.config;
    law_actor_weights_come_back_exactly_where_they_fit(file.actor_weights@, c.actor@);
    law_misfit_iff_not_fitting(
        host_views(file.critic_weights.layers@),
        c.critic@.shape(),
        critic_names(),
    );
    lemma_copy(c.distillation_lambda_polyak, file.polyak_target_weights, file);
    lemma_copy(c.distillation_lambda_frozen, file.frozen_champion_weights, file);
    if c.q_critic is Some {
        let q = c.q_critic->0;
        lemma_q(file.q1_weights, q);
        lemma_q(file.q2_weights, q);
        lemma_q(file.q1_target_weights, q);
        lemma_q(file.q2_target_weights, q);
    }
}

proof fn lemma_copy(lambda: Scalar, w: Option<PcActorWeights>, file: SaveFile)
    requires
        proper_anchor(w),
    ensures
        anchor_fault(lambda, w, file.config) is None <==> fits_copy(
            lambda,
            w,
            file.config.actor@,
        ),
{
    if w is Some {
        law_actor_weights_come_back_exactly_where_they_fit(w->0@, file.config.actor@);
    }
}

proof fn lemma_q(w: Option<QCriticWeights>, q: QCriticConfig)
    requires
        proper_q(w),
    ensures
        w is Some ==> (q_fault(w, q) is None <==> fits_q(w, q)),
{
    if w is Some {
        law_misfit_iff_not_fitting(host_views(w->0.layers@), q@.shape(), q_names());
    }
}

/// What comes back of the parts that may be missing. Of a copy of the actor that counts:
/// the saved one, else the actor itself; of a copy that does not count nothing. Of the
/// memory: the saved one, else an empty one where there is room. Of the state-value
/// critic of a continuous agent: the saved one, else a fresh one.
pub proof fn law_missing_parts<L: LinAlg>(
    file: SaveFile,
    lambda: Scalar,
    w: Option<PcActorWeights>,
    actor: ActorView,
    rng: StdRng,
)
    ensures
        anchor_after(lambda, w, actor) == if !lit(ZERO).lt(lambda) {
            None::<ActorView>
        } else if w is Some {
            Some(w->0@)
        } else {
            Some(actor)
        },
        file.replay_buffer is Some ==> memory_from(file) == Some(file.replay_buffer->0@),
        file.replay_buffer is None ==> {
            &&& memory_from(file) is Some <==> file.config.replay_training_capacity > 0
            &&& memory_from(file) is Some ==> {
                let b = memory_from(file)->0;
                &&& b.training.len() == 0
                &&& b.recent.len() == 0
                &&& b.training_capacity == file.config.replay_training_capacity
                &&& b.recent_capacity == file.config.replay_recent_capacity
                &&& b.positive_only <==> file.config.action_space != ActionSpace::Continuous
                    && file.config.replay_positive_only
                &&& b.action_space == file.config.action_space
                &&& b.training_phase
            }
        },
        file.config.action_space != ActionSpace::Continuous || file.critic_weights.layers@.len()
            > 0 ==> critic_from::<L>(file, rng) == (host_views(file.critic_weights.layers@), rng),
        file.config.action_space == ActionSpace::Continuous && file.critic_weights.layers@.len()
            == 0 ==> critic_from::<L>(file, rng) == initial_stack::<L>(
            rng,
            file.config.critic@.shape(),
        ),
{
}

/// Saved books of continual learning come back as they were saved, but running layer
/// errors that were saved empty start from zero where consolidation is adaptive. Without
/// saved books there are no switches, no importances and no counts.
pub proof fn law_books_come_back(file: SaveFile)
    ensures
        ({
            let after = cl_from(file);
            &&& file.cl_state is Some ==> {
                let saved = file.cl_state->0@;
                &&& after == (ClView { layer_error_ema: after.layer_error_ema, ..saved })
                &&& saved.layer_error_ema.len() > 0 ==> after.layer_error_ema
                    == saved.layer_error_ema
            }
            &&& file.cl_state is None ==> {
                &&& after.actor_hysteresis is None
                &&& after.critic_hysteresis is None
                &&& after.actor_plastic_step_counter == 0
                &&& after.critic_plastic_step_counter == 0
                &&& after.actor_frozen_steps == 0
                &&& after.critic_frozen_steps == 0
                &&& after.actor_fisher.len() == 0
                &&& after.critic_fisher.len() == 0
                &&& !after.actor_last_phase_reliable
                &&& !after.critic_last_phase_reliable
            }
            &&& file.cl_state is None || file.cl_state->0@.layer_error_ema.len() == 0 ==> {
                &&& after.layer_error_ema.len() == if file.config.adaptive_consolidation {
                    file.config.actor.hidden_layers@.len()
                } else {
                    0
                }
                &&& forall|i: int|
                    0 <= i < after.layer_error_ema.len() ==> #[trigger] after.layer_error_ema[i]
                        == lit(ZERO)
            }
        }),
{
}

/// Books that are put back into a living agent replace its own, but lists that were saved
/// empty leave the agent's.
pub proof fn law_books_put_back<L: LinAlg>(agent: PcActorCritic<L>, cl: ClView)
    ensures
        ({
            let after = agent.cl_after(cl);
            &&& after.actor_fisher == if cl.actor_fisher.len() > 0 {
                cl.actor_fisher
            } else {
                fisher_views(agent.actor_fisher@)
            }
            &&& after.critic_fisher == if cl.critic_fisher.len() > 0 {
                cl.critic_fisher
            } else {
                fisher_views(agent.critic_fisher@)
            }
            &&& after.layer_error_ema == if cl.layer_error_ema.len() > 0 {
                cl.layer_error_ema
            } else {
                agent.layer_error_ema@
            }
            &&& after == (ClView {
                actor_fisher: after.actor_fisher,
                critic_fisher: after.critic_fisher,
                layer_error_ema: after.layer_error_ema,
                ..cl
            })
        }),
{
}

} // verus!
