//! Saving an agent and bringing it back.

use rand::rngs::StdRng;
use vstd::prelude::*;

use crate::arith::Arith;
use crate::cpu::CpuLinAlg;
use crate::error::{ConfigRule, PcError, SavedPart};
use crate::layer::{host_views, HostLayer, LayerView};
use crate::linalg::LinAlg;
use crate::mlp_critic::{
    critic_names, law_working_critic_survives_saving, MlpCritic, MlpCriticWeights,
};
use crate::naming::{
    checkpoint_filename, checkpoint_name, is_stamp, is_universal, now_rfc3339, release,
};
use crate::pc_actor::{PcActor, PcActorConfig};
use crate::pc_actor_critic::agent::{
    anchor_wf, effective_positive_only, fresh_layer_errors, opt_actor, opt_buffer, opt_q,
    positive_only, PcActorCritic, DEFAULT_ROLLBACK_HARD_COOLDOWN,
};
use crate::pc_actor_critic::config::{
    config_fault, law_accepted_continuous_config, sac_mode, same_config, ActionSpace,
    PcActorCriticConfig,
};
use crate::pc_actor_critic::fisher::{all_sound, fisher_fits, fisher_views};
use crate::pc_actor_critic::replay::{BufferView, ReplayBuffer};
use crate::pc_model::ActorView;
use crate::pc_topology::{actor_misfit, bridged, law_working_actor_survives_saving};
use crate::q_critic::{
    law_working_q_critic_survives_saving, q_names, QCritic, QCriticConfig, QCriticWeights,
};
use crate::rng::entropy_rng;
use crate::scalar::{lit, Scalar, ZERO};
use crate::serializer::{
    opt_host, saved_fisher_views, ClState, ClView, FisherStateSerialized, PcActorWeights,
};
use crate::stack::{initial_stack, proper_matrices, stack_misfit};

verus! {

/// Training statistics at the time of saving.
#[derive(Clone, Copy, Debug, PartialEq, Eq, Structural)]
pub struct TrainingMetrics {
    pub win_rate: Scalar,
    pub loss_rate: Scalar,
    pub draw_rate: Scalar,
    pub avg_surprise: Scalar,
    pub curriculum_depth: usize,
}

/// What is known about a saved agent.
#[derive(Clone, Debug)]
pub struct AgentMetadata {
    /// Release of the library.
    pub version: String,
    /// When the agent was saved.
    pub created: String,
    /// Episode at which the agent was saved.
    pub episode: usize,
    pub metrics: Option<TrainingMetrics>,
}

/// A saved agent.
pub struct SaveFile {
    pub metadata: AgentMetadata,
    pub config: PcActorCriticConfig,
    pub actor_weights: PcActorWeights,
    pub critic_weights: MlpCriticWeights,
    pub cl_state: Option<ClState>,
    pub polyak_target_weights: Option<PcActorWeights>,
    pub frozen_champion_weights: Option<PcActorWeights>,
    pub replay_buffer: Option<ReplayBuffer>,
    pub q1_weights: Option<QCriticWeights>,
    pub q2_weights: Option<QCriticWeights>,
    pub q1_target_weights: Option<QCriticWeights>,
    pub q2_target_weights: Option<QCriticWeights>,
    pub log_alpha: Option<Scalar>,
    pub replay_clamp_count: u64,
    pub steps_since_last_rollback_hard: u64,
    pub rollback_hard_cooldown_steps: u64,
}

/// Steps since the last hard rollback where none was saved: the first rollback
/// is always allowed.
pub fn default_steps_since_last_rollback_hard() -> (r: u64)
    ensures
        r == u64::MAX,
{
    u64::MAX
}

/// Steps between two hard rollbacks where none were saved.
pub fn default_rollback_hard_cooldown_steps() -> (r: u64)
    ensures
        r == DEFAULT_ROLLBACK_HARD_COOLDOWN,
{
    DEFAULT_ROLLBACK_HARD_COOLDOWN
}

/// The content of optional actor weights.
pub open spec fn opt_weights(w: Option<PcActorWeights>) -> Option<ActorView> {
    match w {
        Some(x) => Some(x@),
        None => None,
    }
}

/// The content of optional critic weights.
pub open spec fn opt_q_weights(w: Option<QCriticWeights>) -> Option<Seq<LayerView>> {
    match w {
        Some(x) => Some(host_views(x.layers@)),
        None => None,
    }
}

/// The file holds what is saved of the agent.
pub open spec fn holds<L: LinAlg>(
    file: SaveFile,
    agent: PcActorCritic<L>,
    episode: usize,
    metrics: Option<TrainingMetrics>,
) -> bool {
    &&& file.metadata.version@ == "1.0.0"@
    &&& is_universal(file.metadata.created@)
    &&& file.metadata.episode == episode
    &&& file.metadata.metrics == metrics
    &&& same_config(file.config, agent.config)
    &&& file.actor_weights@ == agent.actor@
    &&& host_views(file.critic_weights.layers@) == agent.critic@
    &&& match file.cl_state {
        Some(cl) => cl@ == agent.cl_view() && !agent.cl_view().is_default(),
        None => agent.cl_view().is_default(),
    }
    &&& opt_weights(file.polyak_target_weights) == opt_actor(agent.polyak_target)
    &&& opt_weights(file.frozen_champion_weights) == opt_actor(agent.frozen_champion)
    &&& opt_q_weights(file.q1_weights) == opt_q(agent.q1)
    &&& opt_q_weights(file.q2_weights) == opt_q(agent.q2)
    &&& opt_q_weights(file.q1_target_weights) == opt_q(agent.q1_target)
    &&& opt_q_weights(file.q2_target_weights) == opt_q(agent.q2_target)
    &&& file.log_alpha == if agent.q1 is Some {
        Some(agent.log_alpha)
    } else {
        None
    }
    &&& opt_buffer(file.replay_buffer) == opt_buffer(agent.replay_buffer)
    &&& file.replay_clamp_count == agent.replay_clamp_count
    &&& file.steps_since_last_rollback_hard == agent.steps_since_last_rollback_hard
    &&& file.rollback_hard_cooldown_steps == agent.rollback_hard_cooldown_steps
}

fn save_anchor<L: LinAlg>(a: &Option<PcActor<L>>) -> (r: Option<PcActorWeights>)
    requires
        *a is Some ==> (*a)->0@.sound(),
    ensures
        opt_weights(r) == opt_actor(*a),
{
    match a {
        Some(x) => Some(x.to_weights()),
        None => None,
    }
}

fn save_q<L: LinAlg>(q: &Option<QCritic<L>>) -> (r: Option<QCriticWeights>)
    requires
        *q is Some ==> (*q)->0.wf(),
    ensures
        opt_q_weights(r) == opt_q(*q),
{
    match q {
        Some(x) => Some(x.to_weights()),
        None => None,
    }
}

/// An absent copy of the actor, or one with proper matrices.
pub open spec fn sound_anchor<L: LinAlg>(a: Option<PcActor<L>>) -> bool {
    a is Some ==> a->0@.sound()
}

/// An absent critic, or a working one.
pub open spec fn sound_q<L: LinAlg>(q: Option<QCritic<L>>) -> bool {
    q is Some ==> q->0.wf()
}

/// Every matrix of the agent holds as many entries as its shape says.
pub open spec fn savable<L: LinAlg>(agent: PcActorCritic<L>) -> bool {
    &&& agent.actor@.sound()
    &&& agent.critic.wf()
    &&& sound_anchor(agent.polyak_target)
    &&& sound_anchor(agent.frozen_champion)
    &&& all_sound(fisher_views(agent.actor_fisher@))
    &&& all_sound(fisher_views(agent.critic_fisher@))
    &&& sound_q(agent.q1)
    &&& sound_q(agent.q2)
    &&& sound_q(agent.q1_target)
    &&& sound_q(agent.q2_target)
}

/// Every working agent can be saved.
pub proof fn law_working_agent_is_savable<L: LinAlg>(agent: PcActorCritic<L>)
    requires
        agent.wf(),
    ensures
        savable(agent),
{
    let fisher = fisher_views(agent.actor_fisher@);
    assert forall|k: int| 0 <= k < fisher.len() implies (#[trigger] fisher[k]).sound() by {
        assert(fisher[k].fits(agent.actor@.layers[k]));
    }
}

/// What is saved of an agent.
pub fn save_agent<L: LinAlg>(
    agent: &PcActorCritic<L>,
    episode: usize,
    metrics: Option<TrainingMetrics>,
) -> (file: SaveFile)
    requires
        savable(*agent),
    ensures
        holds(file, *agent, episode, metrics),
        proper(file),
{
    let file = SaveFile {
        metadata: AgentMetadata {
            version: release(),
            created: now_rfc3339(),
            episode,
            metrics,
        },
        config: agent.config.clone(),
        actor_weights: agent.actor.to_weights(),
        critic_weights: agent.critic.to_weights(),
        cl_state: agent.to_cl_state(),
        polyak_target_weights: save_anchor(&agent.polyak_target),
        frozen_champion_weights: save_anchor(&agent.frozen_champion),
        replay_buffer: match &agent.replay_buffer {
            Some(b) => Some(b.duplicate()),
            None => None,
        },
        q1_weights: save_q(&agent.q1),
        q2_weights: save_q(&agent.q2),
        q1_target_weights: save_q(&agent.q1_target),
        q2_target_weights: save_q(&agent.q2_target),
        log_alpha: if agent.q1.is_some() {
            Some(agent.log_alpha)
        } else {
            None
        },
        replay_clamp_count: agent.replay_clamp_count,
        steps_since_last_rollback_hard: agent.steps_since_last_rollback_hard,
        rollback_hard_cooldown_steps: agent.rollback_hard_cooldown_steps,
    };
    file
}

/// What is saved of an agent, with the name of its file.
pub fn save_checkpoint<L: LinAlg>(
    agent: &PcActorCritic<L>,
    episode: usize,
    metrics: Option<TrainingMetrics>,
) -> (r: (String, SaveFile))
    requires
        savable(*agent),
    ensures
        exists|stamp: Seq<char>|
            is_stamp(stamp) && r.0@ == #[trigger] checkpoint_name(episode as nat, stamp),
        !r.0@.contains(':'),
        holds(r.1, *agent, episode, metrics),
        proper(r.1),
{
    let name = checkpoint_filename(episode);
    let file = save_agent(agent, episode, metrics);
    (name, file)
}

/// Optional actor weights with proper matrices.
pub open spec fn proper_anchor(w: Option<PcActorWeights>) -> bool {
    w is Some ==> proper_matrices(w->0@.layers) && w->0@.projections_wf()
}

/// Optional critic weights with proper matrices.
pub open spec fn proper_q(w: Option<QCriticWeights>) -> bool {
    w is Some ==> proper_matrices(host_views(w->0.layers@))
}

/// Every matrix in the file holds as many entries as its shape says.
pub open spec fn proper(file: SaveFile) -> bool {
    &&& proper_matrices(file.actor_weights@.layers)
    &&& file.actor_weights@.projections_wf()
    &&& proper_matrices(host_views(file.critic_weights.layers@))
    &&& proper_anchor(file.polyak_target_weights)
    &&& proper_anchor(file.frozen_champion_weights)
    &&& proper_q(file.q1_weights)
    &&& proper_q(file.q2_weights)
    &&& proper_q(file.q1_target_weights)
    &&& proper_q(file.q2_target_weights)
    &&& file.cl_state is Some ==> {
        &&& all_sound(file.cl_state->0@.actor_fisher)
        &&& all_sound(file.cl_state->0@.critic_fisher)
    }
}

/// Why a saved copy of the actor does not come back.
pub open spec fn anchor_fault(
    lambda: Scalar,
    w: Option<PcActorWeights>,
    config: PcActorCriticConfig,
) -> Option<PcError> {
    if lit(ZERO).lt(lambda) && w is Some {
        actor_misfit(w->0@, config.actor@)
    } else {
        None
    }
}

/// Why a saved action-value critic does not come back.
pub open spec fn q_fault(w: Option<QCriticWeights>, q: QCriticConfig) -> Option<PcError> {
    stack_misfit(opt_q_weights(w)->0, q@.shape(), q_names())
}

/// The complaint about a missing part.
pub open spec fn missing(part: SavedPart) -> Option<PcError> {
    Some(PcError::ConfigValidation(ConfigRule::SavedPartMissing(part)))
}

/// Why the action-value critics do not come back.
pub open spec fn critics_fault(file: SaveFile) -> Option<PcError> {
    match file.config.q_critic {
        Some(q) => if file.q1_weights is None {
            missing(SavedPart::Q1)
        } else if file.q2_weights is None {
            missing(SavedPart::Q2)
        } else if file.q1_target_weights is None {
            missing(SavedPart::Q1Target)
        } else if file.q2_target_weights is None {
            missing(SavedPart::Q2Target)
        } else if q_fault(file.q1_weights, q) is Some {
            q_fault(file.q1_weights, q)
        } else if q_fault(file.q2_weights, q) is Some {
            q_fault(file.q2_weights, q)
        } else if q_fault(file.q1_target_weights, q) is Some {
            q_fault(file.q1_target_weights, q)
        } else {
            q_fault(file.q2_target_weights, q)
        },
        None => if file.config.action_space == ActionSpace::Continuous {
            Some(PcError::ConfigValidation(ConfigRule::SavedWithoutQCritic))
        } else {
            None
        },
    }
}

/// A continuous agent that was saved without its state-value critic, which it
/// does not act or learn by: it gets a fresh one.
pub open spec fn lacks_critic(file: SaveFile) -> bool {
    file.config.action_space == ActionSpace::Continuous && file.critic_weights.layers@.len() == 0
}

/// Why the state-value critic does not come back.
pub open spec fn critic_fault(file: SaveFile) -> Option<PcError> {
    if !lacks_critic(file) {
        stack_misfit(
            host_views(file.critic_weights.layers@),
            file.config.critic@.shape(),
            critic_names(),
        )
    } else if file.config.critic.input_size == 0 {
        Some(PcError::ConfigValidation(ConfigRule::CriticInputSizeZero))
    } else {
        None
    }
}

/// Why a saved agent does not come back.
pub open spec fn load_fault(file: SaveFile) -> Option<PcError> {
    let c = file.config;
    let critic = critic_fault(file);
    let polyak = anchor_fault(c.distillation_lambda_polyak, file.polyak_target_weights, c);
    let frozen = anchor_fault(c.distillation_lambda_frozen, file.frozen_champion_weights, c);
    if actor_misfit(file.actor_weights@, c.actor@) is Some {
        actor_misfit(file.actor_weights@, c.actor@)
    } else if critic is Some {
        critic
    } else if polyak is Some {
        polyak
    } else if frozen is Some {
        frozen
    } else {
        critics_fault(file)
    }
}

/// A copy of the actor as it comes back: the saved one, or the actor itself
/// where none was saved; nothing where distillation towards it is off.
pub open spec fn anchor_after(
    lambda: Scalar,
    w: Option<PcActorWeights>,
    actor: ActorView,
) -> Option<ActorView> {
    if lit(ZERO).lt(lambda) {
        Some(
            match w {
                Some(x) => x@,
                None => actor,
            },
        )
    } else {
        None
    }
}

/// The memory as it comes back: the saved one, or an empty one as configured.
/// A continuous agent remembers every step.
pub open spec fn memory_from(file: SaveFile) -> Option<BufferView> {
    match opt_buffer(file.replay_buffer) {
        Some(b) => Some(b),
        None => if file.config.replay_training_capacity > 0 {
            Some(
                BufferView::empty(
                    file.config.replay_training_capacity,
                    file.config.replay_recent_capacity,
                    positive_only(file.config),
                    file.config.action_space,
                ),
            )
        } else {
            None
        },
    }
}

/// The state of continual learning of an agent that nothing was restored into.
pub open spec fn blank_cl(config: PcActorCriticConfig) -> ClView {
    ClView {
        actor_hysteresis: None,
        critic_hysteresis: None,
        actor_plastic_step_counter: 0,
        critic_plastic_step_counter: 0,
        critic_frozen_steps: 0,
        actor_frozen_steps: 0,
        actor_fisher: Seq::empty(),
        critic_fisher: Seq::empty(),
        actor_last_phase_reliable: false,
        critic_last_phase_reliable: false,
        layer_error_ema: fresh_layer_errors(config),
    }
}

/// The state of continual learning as it comes back.
pub open spec fn cl_from(file: SaveFile) -> ClView {
    match file.cl_state {
        Some(cl) => ClView {
            layer_error_ema: if cl@.layer_error_ema.len() > 0 {
                cl@.layer_error_ema
            } else {
                fresh_layer_errors(file.config)
            },
            ..cl@
        },
        None => blank_cl(file.config),
    }
}

/// The state-value critic as it comes back, and the generator that is left.
pub open spec fn critic_from<L: LinAlg>(file: SaveFile, rng: StdRng) -> (Seq<LayerView>, StdRng) {
    if lacks_critic(file) {
        initial_stack::<L>(rng, file.config.critic@.shape())
    } else {
        (host_views(file.critic_weights.layers@), rng)
    }
}

/// The agent holds what the file holds, between episodes. A state-value critic
/// that the file lacks is drawn from the generator `rng`.
pub open spec fn restored_from<L: LinAlg>(
    agent: PcActorCritic<L>,
    file: SaveFile,
    rng: StdRng,
) -> bool {
    &&& same_config(agent.config, file.config)
    &&& agent.actor@ == file.actor_weights@
    &&& agent.actor.config@ == file.config.actor@
    &&& (agent.critic@, agent.rng) == critic_from::<L>(file, rng)
    &&& agent.critic.config@ == file.config.critic@
    &&& opt_actor(agent.polyak_target) == anchor_after(
        file.config.distillation_lambda_polyak,
        file.polyak_target_weights,
        file.actor_weights@,
    )
    &&& opt_actor(agent.frozen_champion) == anchor_after(
        file.config.distillation_lambda_frozen,
        file.frozen_champion_weights,
        file.actor_weights@,
    )
    &&& agent.cl_view() == cl_from(file)
    &&& if sac_mode(file.config) {
        let q = file.config.q_critic->0;
        &&& opt_q(agent.q1) == opt_q_weights(file.q1_weights)
        &&& opt_q(agent.q2) == opt_q_weights(file.q2_weights)
        &&& opt_q(agent.q1_target) == opt_q_weights(file.q1_target_weights)
        &&& opt_q(agent.q2_target) == opt_q_weights(file.q2_target_weights)
        &&& agent.q1->0.config@ == q@
        &&& agent.q2->0.config@ == q@
        &&& agent.q1_target->0.config@ == q@
        &&& agent.q2_target->0.config@ == q@
        &&& agent.log_alpha == match file.log_alpha {
            Some(x) => x,
            None => file.config.log_alpha_init,
        }
    } else {
        &&& agent.q1 is None
        &&& agent.q2 is None
        &&& agent.q1_target is None
        &&& agent.q2_target is None
        &&& agent.log_alpha == lit(ZERO)
    }
    &&& opt_buffer(agent.replay_buffer) == memory_from(file)
    &&& agent.replay_clamp_count == file.replay_clamp_count
    &&& agent.steps_since_last_rollback_hard == file.steps_since_last_rollback_hard
    &&& agent.rollback_hard_cooldown_steps == file.rollback_hard_cooldown_steps
    &&& agent.between_episodes()
    &&& agent.surprise_buffer@.len() == 0
    &&& agent.td_error_buffer@.len() == 0
    &&& agent.last_td_error == lit(ZERO)
    &&& agent.sac_skipped_critic_updates == 0
    &&& agent.sac_skipped_actor_updates == 0
}

/// The saved actor, its copies and the saved state of continual learning make a
/// working agent.
pub open spec fn workable(file: SaveFile) -> bool {
    &&& bridged(file.actor_weights@, file.config.actor@)
    &&& lit(ZERO).lt(file.config.distillation_lambda_polyak) && file.polyak_target_weights is Some
        ==> bridged(file.polyak_target_weights->0@, file.config.actor@)
    &&& lit(ZERO).lt(file.config.distillation_lambda_frozen) && file.frozen_champion_weights is Some
        ==> bridged(file.frozen_champion_weights->0@, file.config.actor@)
    &&& file.cl_state is Some ==> {
        &&& fisher_fits(file.cl_state->0@.actor_fisher, file.actor_weights@.layers)
        &&& file.cl_state->0@.layer_error_ema.len() == 0
            || file.cl_state->0@.layer_error_ema.len() >= file.config.actor@.depth()
    }
}

/// The saved agent acts continuously, and its observations, actions and memories
/// have the sizes of its networks.
pub open spec fn steppable(file: SaveFile) -> bool {
    let c = file.config;
    &&& sac_mode(c)
    &&& c.q_critic->0.state_dim == c.actor.input_size
    &&& 2 * c.q_critic->0.action_dim == c.actor.output_size
    &&& memory_from(file) is Some ==> {
        let memory = memory_from(file)->0;
        &&& memory.fits(c.q_critic->0.state_dim as nat, c.q_critic->0.action_dim as nat)
        &&& memory.action_space == ActionSpace::Continuous
        &&& !memory.positive_only
    }
}

/// Whether every layer without a projection is as wide as the layer below it.
fn is_bridged(w: &PcActorWeights, config: &PcActorConfig) -> (r: bool)
    ensures
        r == bridged(w@, config@),
{
    if !config.residual {
        return true;
    }
    let defs = &config.hidden_layers;
    let mut slot: usize = 0;
    while slot < w.skip_projections.len()
        invariant
            slot <= w.skip_projections.len(),
            defs@ == config@.hidden_layers,
            config.residual,
            forall|k: int|
                #![trigger w@.skip_projections[k]]
                0 <= k < slot && k + 1 < defs@.len() && w@.skip_projections[k] is None
                    ==> defs@[k + 1].size == defs@[k].size,
        decreases w.skip_projections.len() - slot,
    {
        assert(w@.skip_projections[slot as int] == opt_host(w.skip_projections@[slot as int]));
        if w.skip_projections[slot].is_none() && slot < defs.len() && slot + 1 < defs.len()
            && defs[slot + 1].size != defs[slot].size {
            assert(!bridged(w@, config@));
            return false;
        }
        slot = slot + 1;
    }
    true
}

/// Whether an estimate has one entry per parameter of a layer.
fn is_fitting(state: &FisherStateSerialized, layer: &HostLayer) -> (r: bool)
    requires
        state@.sound(),
    ensures
        r == state@.fits(layer@),
{
    let weights_fit = match &state.theta_snapshot_weights {
        Some(m) => m.rows == layer.weights.rows && m.cols == layer.weights.cols,
        None => true,
    };
    let bias_fits = match &state.theta_snapshot_bias {
        Some(v) => v.len() == layer.bias.len(),
        None => true,
    };
    weights_fit && bias_fits && state.f_total_weights.rows == layer.weights.rows
        && state.f_total_weights.cols == layer.weights.cols && state.f_ema_weights.rows
        == layer.weights.rows && state.f_ema_weights.cols == layer.weights.cols
        && state.f_total_bias.len() == layer.bias.len() && state.f_ema_bias.len()
        == layer.bias.len()
}

/// Whether there is one fitting estimate per layer, or none at all.
fn are_fitting(states: &Vec<FisherStateSerialized>, layers: &Vec<HostLayer>) -> (r: bool)
    requires
        all_sound(saved_fisher_views(states@)),
    ensures
        r == fisher_fits(saved_fisher_views(states@), host_views(layers@)),
{
    let n: usize = states.len();
    if n == 0 {
        return true;
    }
    if n != layers.len() {
        return false;
    }
    let mut i: usize = 0;
    while i < n
        invariant
            i <= n,
            n == states@.len(),
            n == layers@.len(),
            all_sound(saved_fisher_views(states@)),
            forall|k: int|
                #![trigger saved_fisher_views(states@)[k]]
                0 <= k < i ==> saved_fisher_views(states@)[k].fits(host_views(layers@)[k]),
        decreases n - i,
    {
        assert(saved_fisher_views(states@)[i as int] == states@[i as int]@);
        assert(host_views(layers@)[i as int] == layers@[i as int]@);
        if !is_fitting(&states[i], &layers[i]) {
            return false;
        }
        i = i + 1;
    }
    true
}

/// Whether a copy of the actor is bridged, where it is loaded at all.
fn is_anchor_bridged(
    lambda: Scalar,
    w: &Option<PcActorWeights>,
    config: &PcActorCriticConfig,
) -> (r: bool)
    ensures
        r == (lit(ZERO).lt(lambda) && *w is Some ==> bridged((*w)->0@, config.actor@)),
{
    if !lit(ZERO).lt(lambda) {
        return true;
    }
    match w {
        Some(x) => is_bridged(x, &config.actor),
        None => true,
    }
}

/// Whether a file that loads does so as a working agent.
pub fn is_workable(file: &SaveFile) -> (r: bool)
    requires
        proper(*file),
    ensures
        r == workable(*file),
{
    if !is_bridged(&file.actor_weights, &file.config.actor) || !is_anchor_bridged(
        file.config.distillation_lambda_polyak,
        &file.polyak_target_weights,
        &file.config,
    ) || !is_anchor_bridged(
        file.config.distillation_lambda_frozen,
        &file.frozen_champion_weights,
        &file.config,
    ) {
        return false;
    }
    match &file.cl_state {
        Some(cl) => are_fitting(&cl.actor_fisher, &file.actor_weights.layers) && (
        cl.layer_error_ema.len() == 0 || cl.layer_error_ema.len()
            >= file.config.actor.hidden_layers.len()),
        None => true,
    }
}

fn load_anchor<L: LinAlg>(
    backend: &L,
    lambda: Scalar,
    w: Option<PcActorWeights>,
    config: &PcActorCriticConfig,
    actor: &PcActor<L>,
) -> (r: Result<Option<PcActor<L>>, PcError>)
    requires
        proper_anchor(w),
        actor.config@ == config.actor@,
    ensures
        match anchor_fault(lambda, w, *config) {
            Some(e) => r == Err::<Option<PcActor<L>>, PcError>(e),
            None => r is Ok,
        },
        r matches Ok(a) ==> {
            &&& opt_actor(a) == anchor_after(lambda, w, actor@)
            &&& actor@.sound() ==> sound_anchor(a)
            &&& actor.wf() && (lit(ZERO).lt(lambda) && w is Some ==> bridged(
                w->0@,
                config.actor@,
            )) ==> anchor_wf(a, *actor)
        },
{
    if !lit(ZERO).lt(lambda) {
        return Ok(None);
    }
    match w {
        Some(weights) => match PcActor::from_weights(
            backend.clone(),
            config.actor.clone(),
            weights,
        ) {
            Ok(a) => Ok(Some(a)),
            Err(e) => Err(e),
        },
        None => Ok(Some(actor.duplicate())),
    }
}

fn load_q<L: LinAlg>(backend: &L, w: QCriticWeights, q: &QCriticConfig) -> (r: Result<
    Option<QCritic<L>>,
    PcError,
>)
    requires
        q@.countable(),
        proper_matrices(host_views(w.layers@)),
    ensures
        match stack_misfit(host_views(w.layers@), q@.shape(), q_names()) {
            Some(e) => r == Err::<Option<QCritic<L>>, PcError>(e),
            None => r is Ok,
        },
        r matches Ok(c) ==> {
            &&& c is Some
            &&& c->0@ == host_views(w.layers@)
            &&& c->0.config@ == q@
            &&& cloned(*backend, c->0.backend)
            &&& c->0.wf()
        },
{
    match QCritic::from_weights(backend.clone(), q.clone(), w) {
        Ok(c) => Ok(Some(c)),
        Err(e) => Err(e),
    }
}

/// The saved state-value critic, or a fresh one where a continuous agent lacks it.
fn load_critic<L: LinAlg>(
    backend: &L,
    config: &PcActorCriticConfig,
    w: MlpCriticWeights,
    rng: &mut StdRng,
) -> (r: Result<MlpCritic<L>, PcError>)
    requires
        proper_matrices(host_views(w.layers@)),
    ensures
        if config.action_space == ActionSpace::Continuous && w.layers@.len() == 0 {
            if config.critic.input_size == 0 {
                r == Err::<MlpCritic<L>, PcError>(
                    PcError::ConfigValidation(ConfigRule::CriticInputSizeZero),
                )
            } else {
                r is Ok && (r->Ok_0@, *final(rng)) == initial_stack::<L>(
                    *old(rng),
                    config.critic@.shape(),
                )
            }
        } else {
            &&& *final(rng) == *old(rng)
            &&& match stack_misfit(host_views(w.layers@), config.critic@.shape(), critic_names()) {
                Some(e) => r == Err::<MlpCritic<L>, PcError>(e),
                None => r is Ok && r->Ok_0@ == host_views(w.layers@),
            }
        },
        r matches Ok(c) ==> {
            &&& c.wf()
            &&& c.config@ == config.critic@
            &&& cloned(*backend, c.backend)
        },
{
    if config.action_space == ActionSpace::Continuous && w.layers.len() == 0 {
        MlpCritic::new(backend.clone(), config.critic.clone(), rng)
    } else {
        MlpCritic::from_weights(backend.clone(), config.critic.clone(), w)
    }
}

/// Brings a saved agent back, with the given generator.
pub fn restore_agent<L: LinAlg>(file: SaveFile, backend: L, rng: StdRng) -> (r: Result<
    (PcActorCritic<L>, AgentMetadata),
    PcError,
>)
    requires
        proper(file),
        file.config.q_critic is Some ==> file.config.q_critic->0@.countable(),
    ensures
        match load_fault(file) {
            Some(e) => r == Err::<(PcActorCritic<L>, AgentMetadata), PcError>(e),
            None => r is Ok,
        },
        r matches Ok((agent, metadata)) ==> {
            &&& metadata == file.metadata
            &&& restored_from(agent, file, rng)
            &&& agent.backend == backend
            &&& agent.on_one_backend()
            &&& savable(agent)
            &&& workable(file) ==> agent.wf()
            &&& steppable(file) ==> agent.sac_ready()
        },
{
    let ghost whole = file;
    let actor = match PcActor::from_weights(
        backend.clone(),
        file.config.actor.clone(),
        file.actor_weights,
    ) {
        Ok(a) => a,
        Err(e) => {
            return Err(e);
        },
    };
    let mut rng = rng;
    let critic = match load_critic(&backend, &file.config, file.critic_weights, &mut rng) {
        Ok(c) => c,
        Err(e) => {
            return Err(e);
        },
    };
    let polyak_target = match load_anchor(
        &backend,
        file.config.distillation_lambda_polyak,
        file.polyak_target_weights,
        &file.config,
        &actor,
    ) {
        Ok(a) => a,
        Err(e) => {
            return Err(e);
        },
    };
    let frozen_champion = match load_anchor(
        &backend,
        file.config.distillation_lambda_frozen,
        file.frozen_champion_weights,
        &file.config,
        &actor,
    ) {
        Ok(a) => a,
        Err(e) => {
            return Err(e);
        },
    };
    let mut agent = PcActorCritic::from_parts(
        file.config.clone(),
        actor,
        critic,
        rng,
        backend,
    );
    agent.polyak_target = polyak_target;
    agent.frozen_champion = frozen_champion;
    assert(workable(whole) ==> agent.wf());
    assert(fisher_views(agent.actor_fisher@) =~= Seq::empty());
    assert(fisher_views(agent.critic_fisher@) =~= Seq::empty());
    assert(fresh_layer_errors(agent.config) == fresh_layer_errors(whole.config));
    match file.cl_state {
        Some(cl) => {
            assert(whole.cl_state == Some(cl));
            assert(workable(whole) ==> agent.takes_back(cl@));
            agent.restore_cl_state(cl);
            assert(agent.cl_view() =~= cl_from(whole));
        },
        None => {
            assert(agent.cl_view() =~= cl_from(whole));
        },
    }
    let continuous = file.config.action_space == ActionSpace::Continuous;
    match &file.config.q_critic {
        None => {
            if continuous {
                return Err(PcError::ConfigValidation(ConfigRule::SavedWithoutQCritic));
            }
        },
        Some(q) => {
            assert(whole.config.q_critic == Some(*q));
            let w1 = match file.q1_weights {
                Some(w) => w,
                None => {
                    return Err(
                        PcError::ConfigValidation(ConfigRule::SavedPartMissing(SavedPart::Q1)),
                    );
                },
            };
            let w2 = match file.q2_weights {
                Some(w) => w,
                None => {
                    return Err(
                        PcError::ConfigValidation(ConfigRule::SavedPartMissing(SavedPart::Q2)),
                    );
                },
            };
            let w3 = match file.q1_target_weights {
                Some(w) => w,
                None => {
                    return Err(
                        PcError::ConfigValidation(
                            ConfigRule::SavedPartMissing(SavedPart::Q1Target),
                        ),
                    );
                },
            };
            let w4 = match file.q2_target_weights {
                Some(w) => w,
                None => {
                    return Err(
                        PcError::ConfigValidation(
                            ConfigRule::SavedPartMissing(SavedPart::Q2Target),
                        ),
                    );
                },
            };
            let q1 = match load_q(&agent.backend, w1, q) {
                Ok(c) => c,
                Err(e) => {
                    return Err(e);
                },
            };
            let q2 = match load_q(&agent.backend, w2, q) {
                Ok(c) => c,
                Err(e) => {
                    return Err(e);
                },
            };
            let q1_target = match load_q(&agent.backend, w3, q) {
                Ok(c) => c,
                Err(e) => {
                    return Err(e);
                },
            };
            let q2_target = match load_q(&agent.backend, w4, q) {
                Ok(c) => c,
                Err(e) => {
                    return Err(e);
                },
            };
            if continuous {
                agent.q1 = q1;
                agent.q2 = q2;
                agent.q1_target = q1_target;
                agent.q2_target = q2_target;
                agent.log_alpha = match file.log_alpha {
                    Some(x) => x,
                    None => file.config.log_alpha_init,
                };
            }
        },
    }
    agent.replay_buffer = match file.replay_buffer {
        Some(b) => Some(b),
        None => {
            if file.config.replay_training_capacity > 0 {
                Some(
                    ReplayBuffer::new(
                        file.config.replay_training_capacity,
                        file.config.replay_recent_capacity,
                        effective_positive_only(&file.config),
                        file.config.action_space,
                    ),
                )
            } else {
                None
            }
        },
    };
    agent.replay_clamp_count = file.replay_clamp_count;
    agent.steps_since_last_rollback_hard = file.steps_since_last_rollback_hard;
    agent.rollback_hard_cooldown_steps = file.rollback_hard_cooldown_steps;
    assert(fisher_views(agent.actor_fisher@) == agent.cl_view().actor_fisher);
    assert(fisher_views(agent.critic_fisher@) == agent.cl_view().critic_fisher);
    assert(savable(agent));
    Ok((agent, file.metadata))
}

/// Brings a saved agent back onto any backend, with a generator seeded by the
/// operating system.
pub fn load_agent_generic<L: LinAlg>(file: SaveFile, backend: L) -> (r: Result<
    (PcActorCritic<L>, AgentMetadata),
    PcError,
>)
    requires
        proper(file),
        file.config.q_critic is Some ==> file.config.q_critic->0@.countable(),
    ensures
        match load_fault(file) {
            Some(e) => r == Err::<(PcActorCritic<L>, AgentMetadata), PcError>(e),
            None => r is Ok,
        },
        r matches Ok((agent, metadata)) ==> {
            &&& metadata == file.metadata
            &&& exists|rng: StdRng| restored_from(agent, file, rng)
            &&& agent.backend == backend
            &&& agent.on_one_backend()
            &&& savable(agent)
            &&& workable(file) ==> agent.wf()
            &&& steppable(file) ==> agent.sac_ready()
        },
{
    restore_agent(file, backend, entropy_rng())
}

/// Brings a saved agent back onto the host-memory backend.
pub fn load_agent<A: Arith + Clone>(file: SaveFile, backend: CpuLinAlg<A>) -> (r: Result<
    (PcActorCritic<CpuLinAlg<A>>, AgentMetadata),
    PcError,
>)
    requires
        proper(file),
        file.config.q_critic is Some ==> file.config.q_critic->0@.countable(),
    ensures
        match load_fault(file) {
            Some(e) => r == Err::<(PcActorCritic<CpuLinAlg<A>>, AgentMetadata), PcError>(e),
            None => r is Ok,
        },
        r matches Ok((agent, metadata)) ==> {
            &&& metadata == file.metadata
            &&& exists|rng: StdRng| restored_from(agent, file, rng)
            &&& agent.backend == backend
            &&& agent.on_one_backend()
            &&& savable(agent)
            &&& workable(file) ==> agent.wf()
            &&& steppable(file) ==> agent.sac_ready()
        },
{
    load_agent_generic(file, backend)
}

/// The agent is as its configuration says: critics, copies of the actor,
/// memories and running errors are there where they are configured. An agent
/// that acts discretely has no configuration of action-value critics.
pub open spec fn complete<L: LinAlg>(agent: PcActorCritic<L>) -> bool {
    let c = agent.config;
    &&& agent.wf()
    &&& match c.q_critic {
        Some(q) => {
            &&& c.action_space == ActionSpace::Continuous
            &&& agent.q1 is Some && agent.q1->0.config@.shape() == q@.shape()
            &&& agent.q2 is Some && agent.q2->0.config@.shape() == q@.shape()
            &&& agent.q1_target is Some && agent.q1_target->0.config@.shape() == q@.shape()
            &&& agent.q2_target is Some && agent.q2_target->0.config@.shape() == q@.shape()
        },
        None => {
            &&& c.action_space != ActionSpace::Continuous
            &&& agent.q1 is None
            &&& agent.q2 is None
            &&& agent.q1_target is None
            &&& agent.q2_target is None
        },
    }
    &&& agent.polyak_target is Some <==> lit(ZERO).lt(c.distillation_lambda_polyak)
    &&& agent.frozen_champion is Some <==> lit(ZERO).lt(c.distillation_lambda_frozen)
    &&& agent.replay_buffer is None ==> c.replay_training_capacity == 0
    &&& agent.layer_error_ema@.len() > 0 || fresh_layer_errors(c).len() == 0
}

/// What is saved of a complete agent can be loaded, and loads as a working
/// agent. If the agent could step in a continuous action space, so can the
/// loaded one.
pub proof fn law_saved_agent_loads<L: LinAlg>(
    agent: PcActorCritic<L>,
    file: SaveFile,
    episode: usize,
    metrics: Option<TrainingMetrics>,
)
    requires
        complete(agent),
        holds(file, agent, episode, metrics),
    ensures
        load_fault(file) is None,
        workable(file),
        agent.sac_ready() && agent.config.action_space == ActionSpace::Continuous ==> steppable(
            file,
        ),
{
    let c = file.config;
    law_working_actor_survives_saving(agent.actor@, c.actor@);
    law_working_critic_survives_saving(agent.critic@, c.critic@);
    if agent.polyak_target is Some {
        law_working_actor_survives_saving(agent.polyak_target->0@, c.actor@);
    }
    if agent.frozen_champion is Some {
        law_working_actor_survives_saving(agent.frozen_champion->0@, c.actor@);
    }
    if c.q_critic is Some {
        let q = c.q_critic->0@;
        law_working_q_critic_survives_saving(agent.q1->0@, q);
        law_working_q_critic_survives_saving(agent.q2->0@, q);
        law_working_q_critic_survives_saving(agent.q1_target->0@, q);
        law_working_q_critic_survives_saving(agent.q2_target->0@, q);
    }
}

/// An accepted configuration gives a complete agent, unless it acts discretely
/// and yet configures action-value critics.
pub proof fn law_new_agent_is_complete<L: LinAlg>(
    config: PcActorCriticConfig,
    seed: u64,
    agent: PcActorCritic<L>,
)
    requires
        config_fault::<L>(config) is None,
        config.q_critic is Some ==> config.action_space == ActionSpace::Continuous,
        agent.born_of(config, seed),
        agent.wf(),
    ensures
        complete(agent),
{
    if config.action_space == ActionSpace::Continuous {
        law_accepted_continuous_config::<L>(config);
    }
}

/// Loading what was saved of a complete agent gives back every parameter, the
/// copies of the actor, the entropy temperature of the action-value critics,
/// the memories, the state of continual learning and the counters.
#[verifier::rlimit(40)]
#[verifier::spinoff_prover]
pub proof fn law_saved_agent_comes_back<L: LinAlg>(
    agent: PcActorCritic<L>,
    file: SaveFile,
    episode: usize,
    metrics: Option<TrainingMetrics>,
    back: PcActorCritic<L>,
    rng: StdRng,
)
    requires
        complete(agent),
        holds(file, agent, episode, metrics),
        restored_from(back, file, rng),
    ensures
        same_config(back.config, agent.config),
        back.actor@ == agent.actor@,
        back.critic@ == agent.critic@,
        back.rng == rng,
        opt_actor(back.polyak_target) == opt_actor(agent.polyak_target),
        opt_actor(back.frozen_champion) == opt_actor(agent.frozen_champion),
        back.cl_view() == agent.cl_view(),
        opt_q(back.q1) == opt_q(agent.q1),
        opt_q(back.q2) == opt_q(agent.q2),
        opt_q(back.q1_target) == opt_q(agent.q1_target),
        opt_q(back.q2_target) == opt_q(agent.q2_target),
        agent.q1 is Some ==> back.log_alpha == agent.log_alpha,
        opt_buffer(back.replay_buffer) == opt_buffer(agent.replay_buffer),
        back.replay_clamp_count == agent.replay_clamp_count,
        back.steps_since_last_rollback_hard == agent.steps_since_last_rollback_hard,
        back.rollback_hard_cooldown_steps == agent.rollback_hard_cooldown_steps,
{
    lemma_cl_survives(agent.cl_view(), file);
}

proof fn lemma_cl_survives(cl: ClView, file: SaveFile)
    requires
        match file.cl_state {
            Some(saved) => saved@ == cl,
            None => cl.is_default(),
        },
        cl.layer_error_ema.len() > 0 || fresh_layer_errors(file.config).len() == 0,
    ensures
        cl_from(file) == cl,
{
    let fresh = fresh_layer_errors(file.config);
    assert(cl.layer_error_ema.len() == 0 ==> fresh =~= cl.layer_error_ema);
    assert(file.cl_state is None ==> cl.actor_fisher =~= Seq::empty());
    assert(file.cl_state is None ==> cl.critic_fisher =~= Seq::empty());
}

} // verus!
