//! What a saved agent consists of.

use vstd::prelude::*;

use crate::layer::{host_views, HostLayer};
use crate::linalg::{LinAlg, MatView};
use crate::matrix::{copy_of, Matrix};
use crate::pc_actor_critic::agent::PcActorCritic;
use crate::pc_actor_critic::fisher::{
    all_sound, fisher_fits, fisher_views, FisherState, FisherView,
};
use crate::pc_actor_critic::plasticity::{EwmaTracker, HysteresisState, PlasticityState};
use crate::pc_model::ActorView;
use crate::scalar::Scalar;

pub use crate::naming::checkpoint_filename;
pub use crate::save_file::{
    default_rollback_hard_cooldown_steps, default_steps_since_last_rollback_hard, load_agent,
    load_agent_generic, save_agent, save_checkpoint, AgentMetadata, SaveFile, TrainingMetrics,
};

verus! {

/// A snapshot of an actor's weights in host memory.
#[derive(Clone, Debug)]
pub struct PcActorWeights {
    /// Hidden layers followed by the output layer.
    pub layers: Vec<HostLayer>,
    /// Scales of the skip connections.
    pub rezero_alpha: Vec<Scalar>,
    /// Projections of the skip connections.
    pub skip_projections: Vec<Option<Matrix>>,
}

/// The content of an optional host matrix.
pub open spec fn opt_host(o: Option<Matrix>) -> Option<MatView> {
    match o {
        Some(m) => Some(m@),
        None => None,
    }
}

impl View for PcActorWeights {
    type V = ActorView;

    open spec fn view(&self) -> ActorView {
        ActorView {
            layers: host_views(self.layers@),
            rezero_alpha: self.rezero_alpha@,
            skip_projections: self.skip_projections@.map_values(|o: Option<Matrix>| opt_host(o)),
        }
    }
}

/// Importance of the parameters of one layer, in host memory.
#[derive(Clone, Debug)]
pub struct FisherStateSerialized {
    pub f_total_weights: Matrix,
    pub f_total_bias: Vec<Scalar>,
    pub f_ema_weights: Matrix,
    pub f_ema_bias: Vec<Scalar>,
    pub theta_snapshot_weights: Option<Matrix>,
    pub theta_snapshot_bias: Option<Vec<Scalar>>,
    pub theta_snapshot_rezero_alpha: Option<Scalar>,
    pub theta_snapshot_skip_proj: Option<Matrix>,
}

impl View for FisherStateSerialized {
    type V = FisherView;

    open spec fn view(&self) -> FisherView {
        FisherView {
            f_total_weights: self.f_total_weights@,
            f_total_bias: self.f_total_bias@,
            f_ema_weights: self.f_ema_weights@,
            f_ema_bias: self.f_ema_bias@,
            theta_snapshot_weights: opt_host(self.theta_snapshot_weights),
            theta_snapshot_bias: match self.theta_snapshot_bias {
                Some(v) => Some(v@),
                None => None,
            },
            theta_snapshot_rezero_alpha: self.theta_snapshot_rezero_alpha,
            theta_snapshot_skip_proj: opt_host(self.theta_snapshot_skip_proj),
        }
    }
}

/// A moving average, saved.
#[derive(Clone, Copy, Debug, PartialEq, Eq, Structural)]
pub struct EwmaTrackerSerialized {
    pub value: Scalar,
    pub k: u64,
    pub window: usize,
}

impl EwmaTrackerSerialized {
    /// The average that was saved.
    pub open spec fn restored(self) -> EwmaTracker {
        EwmaTracker { value: self.value, k: self.k, window: self.window }
    }
}

/// A switch between learning and resting, saved.
#[derive(Clone, Copy, Debug, PartialEq, Eq, Structural)]
pub struct HysteresisStateSerialized {
    pub fast: EwmaTrackerSerialized,
    pub slow: EwmaTrackerSerialized,
    pub state: PlasticityState,
    pub wake_fraction: Scalar,
    pub sleep_fraction: Scalar,
    pub min_initial_plastic: u64,
}

impl HysteresisStateSerialized {
    /// The switch that was saved.
    pub open spec fn restored(self) -> HysteresisState {
        HysteresisState {
            fast: self.fast.restored(),
            slow: self.slow.restored(),
            state: self.state,
            wake_fraction: self.wake_fraction,
            sleep_fraction: self.sleep_fraction,
            min_initial_plastic: self.min_initial_plastic,
        }
    }
}

fn save_ewma(t: &EwmaTracker) -> (r: EwmaTrackerSerialized)
    ensures
        r.restored() == *t,
{
    EwmaTrackerSerialized { value: t.value, k: t.k, window: t.window }
}

fn restore_ewma(t: &EwmaTrackerSerialized) -> (r: EwmaTracker)
    ensures
        r == t.restored(),
{
    EwmaTracker { value: t.value, k: t.k, window: t.window }
}

/// The switch that was saved, if any.
pub open spec fn opt_restored(o: Option<HysteresisStateSerialized>) -> Option<HysteresisState> {
    match o {
        Some(h) => Some(h.restored()),
        None => None,
    }
}

fn save_hysteresis(o: &Option<HysteresisState>) -> (r: Option<HysteresisStateSerialized>)
    ensures
        opt_restored(r) == *o,
{
    match o {
        Some(h) => Some(
            HysteresisStateSerialized {
                fast: save_ewma(&h.fast),
                slow: save_ewma(&h.slow),
                state: h.state,
                wake_fraction: h.wake_fraction,
                sleep_fraction: h.sleep_fraction,
                min_initial_plastic: h.min_initial_plastic,
            },
        ),
        None => None,
    }
}

fn restore_hysteresis(o: &Option<HysteresisStateSerialized>) -> (r: Option<HysteresisState>)
    ensures
        r == opt_restored(*o),
{
    match o {
        Some(h) => Some(
            HysteresisState {
                fast: restore_ewma(&h.fast),
                slow: restore_ewma(&h.slow),
                state: h.state,
                wake_fraction: h.wake_fraction,
                sleep_fraction: h.sleep_fraction,
                min_initial_plastic: h.min_initial_plastic,
            },
        ),
        None => None,
    }
}

/// The state of continual learning, saved.
#[derive(Clone, Debug)]
pub struct ClState {
    pub actor_hysteresis: Option<HysteresisStateSerialized>,
    pub critic_hysteresis: Option<HysteresisStateSerialized>,
    pub actor_plastic_step_counter: u64,
    pub critic_plastic_step_counter: u64,
    pub critic_frozen_steps: u64,
    pub actor_frozen_steps: u64,
    pub actor_fisher: Vec<FisherStateSerialized>,
    pub critic_fisher: Vec<FisherStateSerialized>,
    pub actor_last_phase_reliable: bool,
    pub critic_last_phase_reliable: bool,
    pub layer_error_ema: Vec<Scalar>,
}

/// The content of the state of continual learning.
#[verifier::ext_equal]
pub struct ClView {
    pub actor_hysteresis: Option<HysteresisState>,
    pub critic_hysteresis: Option<HysteresisState>,
    pub actor_plastic_step_counter: u64,
    pub critic_plastic_step_counter: u64,
    pub critic_frozen_steps: u64,
    pub actor_frozen_steps: u64,
    pub actor_fisher: Seq<FisherView>,
    pub critic_fisher: Seq<FisherView>,
    pub actor_last_phase_reliable: bool,
    pub critic_last_phase_reliable: bool,
    pub layer_error_ema: Seq<Scalar>,
}

impl ClView {
    /// Nothing to save.
    pub open spec fn is_default(self) -> bool {
        &&& self.actor_hysteresis is None
        &&& self.critic_hysteresis is None
        &&& self.actor_plastic_step_counter == 0
        &&& self.critic_plastic_step_counter == 0
        &&& self.critic_frozen_steps == 0
        &&& self.actor_frozen_steps == 0
        &&& self.actor_fisher.len() == 0
        &&& self.critic_fisher.len() == 0
        &&& !self.actor_last_phase_reliable
        &&& !self.critic_last_phase_reliable
        &&& self.layer_error_ema.len() == 0
    }
}

/// The contents of saved importance estimates.
pub open spec fn saved_fisher_views(states: Seq<FisherStateSerialized>) -> Seq<FisherView> {
    states.map_values(|f: FisherStateSerialized| f@)
}

impl View for ClState {
    type V = ClView;

    open spec fn view(&self) -> ClView {
        ClView {
            actor_hysteresis: opt_restored(self.actor_hysteresis),
            critic_hysteresis: opt_restored(self.critic_hysteresis),
            actor_plastic_step_counter: self.actor_plastic_step_counter,
            critic_plastic_step_counter: self.critic_plastic_step_counter,
            critic_frozen_steps: self.critic_frozen_steps,
            actor_frozen_steps: self.actor_frozen_steps,
            actor_fisher: saved_fisher_views(self.actor_fisher@),
            critic_fisher: saved_fisher_views(self.critic_fisher@),
            actor_last_phase_reliable: self.actor_last_phase_reliable,
            critic_last_phase_reliable: self.critic_last_phase_reliable,
            layer_error_ema: self.layer_error_ema@,
        }
    }
}

fn save_fisher<L: LinAlg>(states: &Vec<FisherState<L>>, backend: &L) -> (r: Vec<
    FisherStateSerialized,
>)
    requires
        all_sound(fisher_views(states@)),
    ensures
        saved_fisher_views(r@) == fisher_views(states@),
{
    let mut out: Vec<FisherStateSerialized> = Vec::new();
    let mut i: usize = 0;
    while i < states.len()
        invariant
            i <= states.len(),
            all_sound(fisher_views(states@)),
            out@.len() == i,
            forall|k: int| 0 <= k < i ==> (#[trigger] out@[k])@ == states@[k]@,
        decreases states.len() - i,
    {
        assert(fisher_views(states@)[i as int] == states@[i as int]@);
        out.push(states[i].to_host(backend));
        i = i + 1;
    }
    assert(saved_fisher_views(out@) =~= fisher_views(states@));
    out
}

fn restore_fisher<L: LinAlg>(states: &Vec<FisherStateSerialized>, backend: &L) -> (r: Vec<
    FisherState<L>,
>)
    requires
        all_sound(saved_fisher_views(states@)),
    ensures
        fisher_views(r@) == saved_fisher_views(states@),
{
    let mut out: Vec<FisherState<L>> = Vec::new();
    let mut i: usize = 0;
    while i < states.len()
        invariant
            i <= states.len(),
            all_sound(saved_fisher_views(states@)),
            out@.len() == i,
            forall|k: int| 0 <= k < i ==> (#[trigger] out@[k])@ == states@[k]@,
        decreases states.len() - i,
    {
        assert(saved_fisher_views(states@)[i as int] == states@[i as int]@);
        out.push(FisherState::from_host(&states[i], backend));
        i = i + 1;
    }
    assert(fisher_views(out@) =~= saved_fisher_views(states@));
    out
}

impl<L: LinAlg> PcActorCritic<L> {
    /// The state of continual learning.
    pub open spec fn cl_view(&self) -> ClView {
        ClView {
            actor_hysteresis: self.actor_hysteresis,
            critic_hysteresis: self.critic_hysteresis,
            actor_plastic_step_counter: self.actor_plastic_step_counter,
            critic_plastic_step_counter: self.critic_plastic_step_counter,
            critic_frozen_steps: self.critic_frozen_steps,
            actor_frozen_steps: self.actor_frozen_steps,
            actor_fisher: fisher_views(self.actor_fisher@),
            critic_fisher: fisher_views(self.critic_fisher@),
            actor_last_phase_reliable: self.actor_last_phase_reliable,
            critic_last_phase_reliable: self.critic_last_phase_reliable,
            layer_error_ema: self.layer_error_ema@,
        }
    }

    /// The state of continual learning to be saved, if there is any.
    pub fn to_cl_state(&self) -> (r: Option<ClState>)
        requires
            all_sound(fisher_views(self.actor_fisher@)),
            all_sound(fisher_views(self.critic_fisher@)),
        ensures
            match r {
                Some(cl) => cl@ == self.cl_view() && !self.cl_view().is_default(),
                None => self.cl_view().is_default(),
            },
    {
        let cl = ClState {
            actor_hysteresis: save_hysteresis(&self.actor_hysteresis),
            critic_hysteresis: save_hysteresis(&self.critic_hysteresis),
            actor_plastic_step_counter: self.actor_plastic_step_counter,
            critic_plastic_step_counter: self.critic_plastic_step_counter,
            critic_frozen_steps: self.critic_frozen_steps,
            actor_frozen_steps: self.actor_frozen_steps,
            actor_fisher: save_fisher(&self.actor_fisher, &self.backend),
            critic_fisher: save_fisher(&self.critic_fisher, &self.backend),
            actor_last_phase_reliable: self.actor_last_phase_reliable,
            critic_last_phase_reliable: self.critic_last_phase_reliable,
            layer_error_ema: copy_of(self.layer_error_ema.as_slice()),
        };
        assert(cl@.actor_fisher.len() == cl.actor_fisher@.len());
        assert(cl@.critic_fisher.len() == cl.critic_fisher@.len());
        if cl.actor_hysteresis.is_none() && cl.critic_hysteresis.is_none()
            && cl.actor_plastic_step_counter == 0 && cl.critic_plastic_step_counter == 0
            && cl.critic_frozen_steps == 0 && cl.actor_frozen_steps == 0 && cl.actor_fisher.len()
            == 0 && cl.critic_fisher.len() == 0 && !cl.actor_last_phase_reliable
            && !cl.critic_last_phase_reliable && cl.layer_error_ema.len() == 0 {
            None
        } else {
            Some(cl)
        }
    }

    /// The state of continual learning after saved state came back: lists that
    /// were saved empty leave the agent's own.
    pub open spec fn cl_after(&self, cl: ClView) -> ClView {
        ClView {
            actor_fisher: if cl.actor_fisher.len() > 0 {
                cl.actor_fisher
            } else {
                fisher_views(self.actor_fisher@)
            },
            critic_fisher: if cl.critic_fisher.len() > 0 {
                cl.critic_fisher
            } else {
                fisher_views(self.critic_fisher@)
            },
            layer_error_ema: if cl.layer_error_ema.len() > 0 {
                cl.layer_error_ema
            } else {
                self.layer_error_ema@
            },
            ..cl
        }
    }

    /// Brings back saved state of continual learning.
    pub fn restore_cl_state(&mut self, cl_state: ClState)
        requires
            all_sound(cl_state@.actor_fisher),
            all_sound(cl_state@.critic_fisher),
        ensures
            final(self).cl_view() == old(self).cl_after(cl_state@),
            *final(self) == (PcActorCritic {
                actor_hysteresis: final(self).actor_hysteresis,
                critic_hysteresis: final(self).critic_hysteresis,
                actor_plastic_step_counter: final(self).actor_plastic_step_counter,
                critic_plastic_step_counter: final(self).critic_plastic_step_counter,
                critic_frozen_steps: final(self).critic_frozen_steps,
                actor_frozen_steps: final(self).actor_frozen_steps,
                actor_fisher: final(self).actor_fisher,
                critic_fisher: final(self).critic_fisher,
                actor_last_phase_reliable: final(self).actor_last_phase_reliable,
                critic_last_phase_reliable: final(self).critic_last_phase_reliable,
                layer_error_ema: final(self).layer_error_ema,
                ..*old(self)
            }),
            old(self).wf() && old(self).takes_back(cl_state@) ==> final(self).wf(),
    {
        self.actor_hysteresis = restore_hysteresis(&cl_state.actor_hysteresis);
        self.critic_hysteresis = restore_hysteresis(&cl_state.critic_hysteresis);
        self.actor_plastic_step_counter = cl_state.actor_plastic_step_counter;
        self.critic_plastic_step_counter = cl_state.critic_plastic_step_counter;
        self.critic_frozen_steps = cl_state.critic_frozen_steps;
        self.actor_frozen_steps = cl_state.actor_frozen_steps;
        self.actor_last_phase_reliable = cl_state.actor_last_phase_reliable;
        self.critic_last_phase_reliable = cl_state.critic_last_phase_reliable;
        assert(cl_state@.actor_fisher.len() == cl_state.actor_fisher@.len());
        assert(cl_state@.critic_fisher.len() == cl_state.critic_fisher@.len());
        if cl_state.layer_error_ema.len() > 0 {
            self.layer_error_ema = cl_state.layer_error_ema;
        }
        if cl_state.actor_fisher.len() > 0 {
            self.actor_fisher = restore_fisher(&cl_state.actor_fisher, &self.backend);
        }
        if cl_state.critic_fisher.len() > 0 {
            self.critic_fisher = restore_fisher(&cl_state.critic_fisher, &self.backend);
        }
    }

    /// Saved state fits the actor: one estimate per layer and one error per
    /// hidden layer, or none.
    pub open spec fn takes_back(&self, cl: ClView) -> bool {
        &&& fisher_fits(cl.actor_fisher, self.actor@.layers)
        &&& cl.layer_error_ema.len() == 0 || cl.layer_error_ema.len()
            >= self.actor.config@.depth()
    }
}

/// State of continual learning that was saved comes back unchanged into an agent
/// whose own lists are empty, and into any agent where no saved list is empty.
pub proof fn law_cl_state_comes_back<L: LinAlg>(
    saved: PcActorCritic<L>,
    fresh: PcActorCritic<L>,
)
    requires
        saved.actor_fisher@.len() > 0 || fresh.actor_fisher@.len() == 0,
        saved.critic_fisher@.len() > 0 || fresh.critic_fisher@.len() == 0,
        saved.layer_error_ema@.len() > 0 || fresh.layer_error_ema@.len() == 0,
    ensures
        fresh.cl_after(saved.cl_view()) == saved.cl_view(),
{
    let back = fresh.cl_after(saved.cl_view());
    assert(back.actor_fisher =~= saved.cl_view().actor_fisher);
    assert(back.critic_fisher =~= saved.cl_view().critic_fisher);
    assert(back.layer_error_ema =~= saved.cl_view().layer_error_ema);
}

} // verus!
