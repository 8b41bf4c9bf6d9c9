//! Acting and stepping in a continuous action space.

use rand::rngs::StdRng;
use vstd::prelude::*;

use crate::error::{ConfigRule, PcError};
use crate::linalg::{v_zeros, LinAlg};
use crate::matrix::{copy_of, zeros};
use crate::pc_actor::{opt_vec, InferResult, SelectionMode};
use crate::pc_actor_critic::agent::{opt_buffer, PcActorCritic};
use crate::pc_actor_critic::config::{same_config, ActionSpace, PcActorCriticConfig};
use crate::pc_actor_critic::policy::{
    deterministic_squashed_action, deviations_of, in_unit_box, means_of, raw_draw,
    sample_squashed_action, sample_uniform_squashed_action, split_mu_log_sigma, squashed,
    uniform_draw, unsquashed, WARMUP_BOUND,
};
use crate::pc_actor_critic::replay::{
    lemma_remembering_fits, Action, ActionView, BufferView, ReplayTransition, TransitionView,
};
use crate::pc_actor_critic::sac::{memories_needed, sac_step, SacView};
use crate::pc_model::inference;
use crate::q_critic::QCritic;
use crate::scalar::{lit, Scalar};

verus! {

/// An action before and after squashing, and the generator that is left.
#[verifier::ext_equal]
pub struct ActionDraw {
    pub raw: Seq<Scalar>,
    pub action: Seq<Scalar>,
    pub rng: StdRng,
}

/// Both slots are empty, or hold critics of one configuration and backend.
pub open spec fn same_slot<L: LinAlg>(a: Option<QCritic<L>>, b: Option<QCritic<L>>) -> bool {
    match (a, b) {
        (Some(x), Some(y)) => x.config == y.config && x.backend == y.backend,
        (None, None) => true,
        _ => false,
    }
}

impl<L: LinAlg> PcActorCritic<L> {
    /// The step that the current observation completes.
    pub open spec fn completed_step(
        &self,
        state: Seq<Scalar>,
        reward: Scalar,
        done: bool,
    ) -> Option<TransitionView> {
        match (self.state_prev, self.action_prev_continuous) {
            (Some(s), Some(a)) => Some(
                TransitionView {
                    state: L::vec_view(s),
                    action: ActionView::Continuous(a@),
                    reward,
                    next_state: state,
                    done,
                    valid_actions: None,
                },
            ),
            _ => None,
        }
    }

    /// The memory after the current observation.
    pub open spec fn memory_after_step(
        &self,
        state: Seq<Scalar>,
        reward: Scalar,
        done: bool,
    ) -> Option<BufferView> {
        match (opt_buffer(self.replay_buffer), self.completed_step(state, reward, done)) {
            (Some(b), Some(t)) => if b.accepts(t.action) {
                Some(b.remembering(t))
            } else {
                Some(b)
            },
            (b, _) => b,
        }
    }

    /// Whether the current observation triggers a learning step.
    pub open spec fn learns_on_step(
        &self,
        state: Seq<Scalar>,
        reward: Scalar,
        done: bool,
    ) -> bool {
        let memory = self.memory_after_step(state, reward, done);
        &&& self.completed_step(state, reward, done) is Some
        &&& self.q1 is Some
        &&& memory is Some
        &&& memory->0.all().len() <= usize::MAX
        &&& memory->0.all().len() >= memories_needed(
            self.config.replay_batch_size,
            self.config.learning_starts,
        )
        &&& self.config.replay_batch_size > 0
    }

    /// Networks, temperature and generator after the learning that the current
    /// observation triggers.
    pub open spec fn sac_after_step(
        &self,
        state: Seq<Scalar>,
        reward: Scalar,
        done: bool,
    ) -> SacView {
        if self.learns_on_step(state, reward, done) {
            sac_step::<L>(
                self.sac_setup(),
                self.sac_view(),
                self.memory_after_step(state, reward, done)->0.all(),
                self.config.replay_batch_size as nat,
            )
        } else {
            self.sac_view()
        }
    }

    /// Whether actions are still drawn uniformly.
    pub open spec fn warming_up(&self, memory: Option<BufferView>) -> bool {
        let n = match memory {
            Some(b) => b.all().len(),
            None => 0,
        };
        self.config.learning_starts > 0 && n < self.config.learning_starts
    }

    /// The action drawn from the actor's output `y`.
    pub open spec fn policy_action(&self, y: Seq<Scalar>, rng: StdRng) -> ActionDraw {
        let (raw, rng) = raw_draw::<L>(
            rng,
            means_of(y, self.action_dim()),
            deviations_of(y, self.action_dim()),
            self.action_dim(),
        );
        ActionDraw { raw, action: squashed::<L>(raw), rng }
    }

    /// The action taken on the current observation: uniform during warm-up, from
    /// the policy as it was before this step's learning afterwards.
    pub open spec fn step_action(
        &self,
        state: Seq<Scalar>,
        reward: Scalar,
        done: bool,
    ) -> ActionDraw {
        let rng = self.sac_after_step(state, reward, done).rng;
        if self.warming_up(self.memory_after_step(state, reward, done)) {
            let (action, rng) = uniform_draw::<L>(rng, self.action_dim());
            ActionDraw { raw: unsquashed::<L>(action), action, rng }
        } else {
            self.policy_action(inference::<L>(self.actor@, self.actor.config@, state).y_conv, rng)
        }
    }

    /// What a step of training does: `next` is the agent after it, `action` what
    /// it returned.
    pub open spec fn stepped(
        &self,
        next: PcActorCritic<L>,
        state: Seq<Scalar>,
        reward: Scalar,
        done: bool,
        action: Seq<Scalar>,
    ) -> bool {
        let draw = self.step_action(state, reward, done);
        &&& action == draw.action
        &&& action.len() == self.action_dim()
        &&& opt_buffer(next.replay_buffer) == self.memory_after_step(state, reward, done)
        &&& next.sac_view() == (SacView {
            rng: draw.rng,
            ..self.sac_after_step(state, reward, done)
        })
        &&& done ==> next.between_episodes() && next.actor_trace@ == v_zeros(
            self.actor_trace@.len(),
        )
        &&& !done ==> {
            &&& next.state_prev is Some
            &&& L::vec_view(next.state_prev->0) == state
            &&& next.action_prev_continuous is Some
            &&& next.action_prev_continuous->0@ == draw.raw
            &&& next.infer_prev is Some
            &&& next.infer_prev->0@ == inference::<L>(self.actor@, self.actor.config@, state)
            &&& next.action_prev is None
            &&& next.valid_actions_prev is None
            &&& next.actor_trace == self.actor_trace
        }
        &&& next == (PcActorCritic {
            actor: next.actor,
            q1: next.q1,
            q2: next.q2,
            q1_target: next.q1_target,
            q2_target: next.q2_target,
            log_alpha: next.log_alpha,
            rng: next.rng,
            sac_skipped_critic_updates: next.sac_skipped_critic_updates,
            sac_skipped_actor_updates: next.sac_skipped_actor_updates,
            replay_buffer: next.replay_buffer,
            state_prev: next.state_prev,
            action_prev: next.action_prev,
            action_prev_continuous: next.action_prev_continuous,
            infer_prev: next.infer_prev,
            valid_actions_prev: next.valid_actions_prev,
            actor_trace: next.actor_trace,
            ..*self
        })
        &&& next.actor.config == self.actor.config
        &&& next.actor.backend == self.actor.backend
        &&& same_slot(self.q1, next.q1)
        &&& same_slot(self.q2, next.q2)
        &&& same_slot(self.q1_target, next.q1_target)
        &&& same_slot(self.q2_target, next.q2_target)
    }

    /// A warm-up action lies within the warm-up bound, every other action in
    /// `[-1, 1]` unless it is NaN before squashing.
    pub open spec fn action_bounded(
        &self,
        state: Seq<Scalar>,
        reward: Scalar,
        done: bool,
        action: Seq<Scalar>,
    ) -> bool {
        if self.warming_up(self.memory_after_step(state, reward, done)) {
            forall|i: int|
                0 <= i < action.len() ==> (#[trigger] action[i]).within(
                    lit(WARMUP_BOUND).neg(),
                    lit(WARMUP_BOUND),
                )
        } else {
            in_unit_box(self.step_action(state, reward, done).raw, action)
        }
    }

    /// One step of training: completes and remembers the previous step, learns
    /// from memory, and acts on the observation `state`.
    #[verifier::rlimit(60)]
    #[verifier::spinoff_prover]
    pub fn step_continuous(&mut self, state: &[Scalar], reward: Scalar, done: bool) -> (r: Result<
        Vec<Scalar>,
        PcError,
    >)
        requires
            old(self).wf(),
            old(self).config.action_space == ActionSpace::Continuous ==> state@.len()
                == old(self).actor.config.input_size,
            old(self).config.action_space == ActionSpace::Continuous ==> old(self).sac_ready() && (
            old(self).learns_on_step(state@, reward, done) ==> old(self).teachable()),
        ensures
            old(self).config.action_space != ActionSpace::Continuous ==> r == Err::<
                Vec<Scalar>,
                PcError,
            >(PcError::ConfigValidation(ConfigRule::NotContinuous)) && *final(self) == *old(self),
            old(self).config.action_space == ActionSpace::Continuous ==> r is Ok,
            r matches Ok(action) ==> {
                &&& old(self).stepped(*final(self), state@, reward, done, action@)
                &&& old(self).action_bounded(state@, reward, done, action@)
                &&& final(self).wf()
                &&& final(self).sac_ready()
                &&& final(self).teachable() == old(self).teachable()
            },
    {
        if self.config.action_space != ActionSpace::Continuous {
            return Err(PcError::ConfigValidation(ConfigRule::NotContinuous));
        }
        let ghost before = *self;
        let current_infer = self.actor.infer(state);
        let y_conv = self.backend.vec_to_vec(&current_infer.y_conv);
        let action_dim: usize = match &self.config.q_critic {
            Some(q) => q.action_dim,
            None => y_conv.len(),
        };

        let prev_state = self.state_prev.take();
        let prev_action = self.action_prev_continuous.take();
        self.infer_prev = None;
        let completed = match (prev_state, prev_action) {
            (Some(s), Some(a)) => Some(
                ReplayTransition {
                    state: self.backend.vec_to_vec(&s),
                    action: Action::Continuous(a),
                    reward,
                    next_state: copy_of(state),
                    done,
                    valid_actions: None,
                },
            ),
            _ => None,
        };
        match completed {
            Some(t) => {
                assert(Some(t@) == before.completed_step(state@, reward, done));
                match &mut self.replay_buffer {
                    Some(buffer) => {
                        proof {
                            lemma_remembering_fits(
                                before.replay_buffer->0@,
                                t@,
                                before.state_dim(),
                                before.action_dim(),
                            );
                        }
                        let _ = buffer.push(t);
                    },
                    None => {},
                }
                assert(opt_buffer(self.replay_buffer) == before.memory_after_step(
                    state@,
                    reward,
                    done,
                ));
                self.sac_learn_step();
            },
            None => {},
        }
        assert(self.sac_view() == before.sac_after_step(state@, reward, done));

        let memories: usize = match &self.replay_buffer {
            Some(buffer) => buffer.total_len(),
            None => 0,
        };
        let learning_starts: usize = self.config.learning_starts;
        let (a_raw, action) = if learning_starts > 0 && memories < learning_starts {
            sample_uniform_squashed_action::<L>(action_dim, &mut self.rng)
        } else {
            let (mu, log_sigma) = split_mu_log_sigma(y_conv.as_slice(), action_dim);
            sample_squashed_action::<L>(mu.as_slice(), log_sigma.as_slice(), &mut self.rng)
        };

        self.valid_actions_prev = None;
        self.action_prev = None;
        if done {
            self.state_prev = None;
            self.action_prev_continuous = None;
            self.infer_prev = None;
            self.actor_trace = zeros(self.actor_trace.len());
        } else {
            self.state_prev = Some(self.backend.vec_from_slice(state));
            self.action_prev_continuous = Some(a_raw);
            self.infer_prev = Some(current_infer);
        }
        Ok(action)
    }

    /// Like [`PcActorCritic::step_continuous`], with the action as a vector of
    /// the backend.
    pub fn step_continuous_raw_device(
        &mut self,
        state: &[Scalar],
        reward: Scalar,
        done: bool,
    ) -> (r: Result<L::Vector, PcError>)
        requires
            old(self).wf(),
            old(self).config.action_space == ActionSpace::Continuous ==> state@.len()
                == old(self).actor.config.input_size,
            old(self).config.action_space == ActionSpace::Continuous ==> old(self).sac_ready() && (
            old(self).learns_on_step(state@, reward, done) ==> old(self).teachable()),
        ensures
            old(self).config.action_space != ActionSpace::Continuous ==> r == Err::<
                L::Vector,
                PcError,
            >(PcError::ConfigValidation(ConfigRule::NotContinuous)) && *final(self) == *old(self),
            old(self).config.action_space == ActionSpace::Continuous ==> r is Ok,
            r matches Ok(action) ==> {
                &&& old(self).stepped(*final(self), state@, reward, done, L::vec_view(action))
                &&& old(self).action_bounded(state@, reward, done, L::vec_view(action))
                &&& final(self).wf()
                &&& final(self).sac_ready()
                &&& final(self).teachable() == old(self).teachable()
            },
    {
        match self.step_continuous(state, reward, done) {
            Ok(action) => Ok(self.backend.vec_from_slice(action.as_slice())),
            Err(e) => Err(e),
        }
    }

    /// Acts without learning: the noiseless action in play, a draw from the
    /// policy in training. Only a draw advances the generator.
    pub fn act_continuous(&mut self, state: &[Scalar], mode: SelectionMode) -> (r: Result<
        (Vec<Scalar>, InferResult<L>),
        PcError,
    >)
        requires
            old(self).wf(),
            old(self).config.action_space == ActionSpace::Continuous ==> state@.len()
                == old(self).actor.config.input_size,
            old(self).config.action_space == ActionSpace::Continuous ==> old(self).sac_ready(),
        ensures
            old(self).config.action_space != ActionSpace::Continuous ==> r == Err::<
                (Vec<Scalar>, InferResult<L>),
                PcError,
            >(PcError::ConfigValidation(ConfigRule::NotContinuous)) && *final(self) == *old(self),
            old(self).config.action_space == ActionSpace::Continuous ==> r is Ok,
            r matches Ok((action, infer)) ==> {
                let inferred = inference::<L>(old(self).actor@, old(self).actor.config@, state@);
                let mu = means_of(inferred.y_conv, old(self).action_dim());
                let draw = old(self).policy_action(inferred.y_conv, old(self).rng);
                &&& infer@ == inferred
                &&& mode == SelectionMode::Play ==> action@ == squashed::<L>(mu) && in_unit_box(
                    mu,
                    action@,
                ) && *final(self) == *old(self)
                &&& mode == SelectionMode::Training ==> action@ == draw.action && in_unit_box(
                    draw.raw,
                    action@,
                ) && *final(self) == (PcActorCritic { rng: draw.rng, ..*old(self) })
                &&& action@.len() == old(self).action_dim()
            },
    {
        if self.config.action_space != ActionSpace::Continuous {
            return Err(PcError::ConfigValidation(ConfigRule::NotContinuous));
        }
        let infer = self.actor.infer(state);
        let y_conv = self.backend.vec_to_vec(&infer.y_conv);
        let action_dim: usize = match &self.config.q_critic {
            Some(q) => q.action_dim,
            None => 0,
        };
        let (mu, log_sigma) = split_mu_log_sigma(y_conv.as_slice(), action_dim);
        let action = match mode {
            SelectionMode::Play => deterministic_squashed_action::<L>(mu.as_slice()),
            SelectionMode::Training => {
                let (_raw, a) = sample_squashed_action::<L>(
                    mu.as_slice(),
                    log_sigma.as_slice(),
                    &mut self.rng,
                );
                a
            },
        };
        Ok((action, infer))
    }
}

/// Both slots are empty, or hold critics of equal content.
pub open spec fn alike_slots<L: LinAlg>(a: Option<QCritic<L>>, b: Option<QCritic<L>>) -> bool {
    match (a, b) {
        (Some(x), Some(y)) => x@ == y@ && x.config@ == y.config@,
        (None, None) => true,
        _ => false,
    }
}

/// Equal content in everything that stepping reads.
pub open spec fn alike<L: LinAlg>(a: PcActorCritic<L>, b: PcActorCritic<L>) -> bool {
    &&& same_config(a.config, b.config)
    &&& a.actor@ == b.actor@
    &&& a.actor.config@ == b.actor.config@
    &&& alike_slots(a.q1, b.q1)
    &&& alike_slots(a.q2, b.q2)
    &&& alike_slots(a.q1_target, b.q1_target)
    &&& alike_slots(a.q2_target, b.q2_target)
    &&& a.q1 is Some ==> a.q2 is Some && a.q1_target is Some && a.q2_target is Some
    &&& a.config.q_critic is Some
    &&& a.log_alpha == b.log_alpha
    &&& a.rng == b.rng
    &&& a.sac_skipped_critic_updates == b.sac_skipped_critic_updates
    &&& a.sac_skipped_actor_updates == b.sac_skipped_actor_updates
    &&& opt_buffer(a.replay_buffer) == opt_buffer(b.replay_buffer)
    &&& opt_vec::<L>(a.state_prev) == opt_vec::<L>(b.state_prev)
    &&& opt_list(a.action_prev_continuous) == opt_list(b.action_prev_continuous)
}

/// The content of an optional list.
pub open spec fn opt_list(o: Option<Vec<Scalar>>) -> Option<Seq<Scalar>> {
    match o {
        Some(v) => Some(v@),
        None => None,
    }
}

/// Agents built from one seed and equal configurations are alike.
pub proof fn law_same_seed_same_agent<L: LinAlg>(
    a: PcActorCritic<L>,
    b: PcActorCritic<L>,
    config_a: PcActorCriticConfig,
    config_b: PcActorCriticConfig,
    seed: u64,
)
    requires
        same_config(config_a, config_b),
        config_a.q_critic is Some,
        a.born_of(config_a, seed),
        b.born_of(config_b, seed),
    ensures
        alike(a, b),
{
}

/// Between episodes, that is at first, after a reset and after the end of an
/// episode, a step completes no earlier one and remembers nothing.
pub proof fn law_first_step_is_not_remembered<L: LinAlg>(
    agent: PcActorCritic<L>,
    next: PcActorCritic<L>,
    state: Seq<Scalar>,
    reward: Scalar,
    done: bool,
    action: Seq<Scalar>,
)
    requires
        agent.between_episodes(),
        agent.stepped(next, state, reward, done, action),
    ensures
        opt_buffer(next.replay_buffer) == opt_buffer(agent.replay_buffer),
        done ==> next.between_episodes(),
{
}

/// Of two steps in a row within an episode, the second one remembers exactly
/// one transition: from the first observation, by the raw action that was drawn
/// there, to the second observation, with the reward and the end of episode that
/// came with it.
pub proof fn law_each_later_step_is_remembered_once<L: LinAlg>(
    agent: PcActorCritic<L>,
    next: PcActorCritic<L>,
    last: PcActorCritic<L>,
    state: Seq<Scalar>,
    reward: Scalar,
    action: Seq<Scalar>,
    later_state: Seq<Scalar>,
    later_reward: Scalar,
    later_done: bool,
    later_action: Seq<Scalar>,
)
    requires
        agent.stepped(next, state, reward, false, action),
        next.stepped(last, later_state, later_reward, later_done, later_action),
        next.sac_ready(),
        next.replay_buffer is Some,
    ensures
        opt_buffer(last.replay_buffer) == Some(
            next.replay_buffer->0@.with(
                TransitionView {
                    state,
                    action: ActionView::Continuous(agent.step_action(state, reward, false).raw),
                    reward: later_reward,
                    next_state: later_state,
                    done: later_done,
                    valid_actions: None,
                },
            ),
        ),
{
}

/// Alike agents with working critics that see the same observation, reward and
/// end of episode return the same action and stay alike. By repetition, equal
/// seeds and equal inputs give equal trajectories.
pub proof fn law_alike_agents_stay_alike<L: LinAlg>(
    a: PcActorCritic<L>,
    b: PcActorCritic<L>,
    next_a: PcActorCritic<L>,
    next_b: PcActorCritic<L>,
    state: Seq<Scalar>,
    reward: Scalar,
    done: bool,
    action_a: Seq<Scalar>,
    action_b: Seq<Scalar>,
)
    requires
        alike(a, b),
        a.q1 is Some,
        a.stepped(next_a, state, reward, done, action_a),
        b.stepped(next_b, state, reward, done, action_b),
    ensures
        action_a == action_b,
        alike(next_a, next_b),
{
    assert(a.completed_step(state, reward, done) == b.completed_step(state, reward, done));
    assert(a.memory_after_step(state, reward, done) == b.memory_after_step(state, reward, done));
    assert(a.sac_view() == b.sac_view());
    assert(a.sac_setup() == b.sac_setup());
    assert(a.sac_after_step(state, reward, done) == b.sac_after_step(state, reward, done));
    assert(next_a.sac_view() == next_b.sac_view());
}

} // verus!
