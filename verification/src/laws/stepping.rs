//! Laws of an agent's steps.

use vstd::prelude::*;

use crate::linalg::LinAlg;
use crate::pc_actor_critic::agent::{opt_buffer, PcActorCritic};
use crate::pc_actor_critic::config::ActionSpace;
use crate::pc_actor_critic::policy::{
    deviations_of, means_of, raw_draw, squashed, uniform_draw, unsquashed,
};
use crate::pc_actor_critic::replay::{ActionView, TransitionView};
use crate::pc_actor_critic::sac::{sac_step, SacSetup, SacView};
use crate::pc_model::inference;
use crate::scalar::Scalar;

verus! {

/// What an agent brings to learning from memory: its actor, both critics and both slow
/// copies, each under its own name, its temperature, its generator and its counters; and
/// from its configuration the discount, the rate of following, the entropy goal and the
/// rates.
pub proof fn law_agent_in_learning_from_memory<L: LinAlg>(agent: PcActorCritic<L>)
    requires
        agent.has_working_critics(),
    ensures
        agent.sac_view() == (SacView {
            actor: agent.actor@,
            q1: agent.q1->0@,
            q2: agent.q2->0@,
            q1_target: agent.q1_target->0@,
            q2_target: agent.q2_target->0@,
            log_alpha: agent.log_alpha,
            rng: agent.rng,
            skipped_critic: agent.sac_skipped_critic_updates,
            skipped_actor: agent.sac_skipped_actor_updates,
        }),
        agent.sac_setup() == (SacSetup {
            actor: agent.actor.config@,
            action_dim: agent.config.q_critic->0.action_dim as nat,
            q1_lr: agent.q1->0.config.lr,
            q2_lr: agent.q2->0.config.lr,
            gamma: agent.config.gamma,
            tau: agent.config.polyak_tau,
            target_entropy: agent.config.target_entropy,
            alpha_lr: agent.config.alpha_lr,
        }),
{
}

/// An observation that completes a step of a continuous agent puts it into the memory;
/// one that completes none leaves the memory alone.
pub proof fn law_memory_after_a_step<L: LinAlg>(
    agent: PcActorCritic<L>,
    state: Seq<Scalar>,
    reward: Scalar,
    done: bool,
)
    requires
        agent.replay_buffer is Some,
        agent.replay_buffer->0@.action_space == ActionSpace::Continuous,
    ensures
        ({
            let after = agent.memory_after_step(state, reward, done);
            let acted = agent.state_prev is Some && agent.action_prev_continuous is Some;
            &&& !acted ==> after == Some(agent.replay_buffer->0@)
            &&& acted ==> after == Some(
                agent.replay_buffer->0@.remembering(
                    TransitionView {
                        state: L::vec_view(agent.state_prev->0),
                        action: ActionView::Continuous(agent.action_prev_continuous->0@),
                        reward,
                        next_state: state,
                        done,
                        valid_actions: None,
                    },
                ),
            )
        }),
{
}

/// An observation triggers learning exactly where it completes a step, there are critics
/// and, with that step in it, the memory holds at least a batch and at least as many
/// steps as learning starts at. Then one learning step is made on all that is remembered,
/// training memories first.
pub proof fn law_when_a_step_learns<L: LinAlg>(
    agent: PcActorCritic<L>,
    state: Seq<Scalar>,
    reward: Scalar,
    done: bool,
)
    requires
        agent.replay_buffer is Some,
    ensures
        ({
            let memory = agent.memory_after_step(state, reward, done)->0;
            let n = memory.training.len() + memory.recent.len();
            let learns = agent.state_prev is Some && agent.action_prev_continuous is Some
                && agent.q1 is Some && n <= usize::MAX && n >= agent.config.replay_batch_size && n
                >= agent.config.learning_starts && agent.config.replay_batch_size > 0;
            &&& agent.memory_after_step(state, reward, done) is Some
            &&& agent.learns_on_step(state, reward, done) == learns
            &&& !learns ==> agent.sac_after_step(state, reward, done) == agent.sac_view()
            &&& learns ==> agent.sac_after_step(state, reward, done) == sac_step::<L>(
                agent.sac_setup(),
                agent.sac_view(),
                memory.training + memory.recent,
                agent.config.replay_batch_size as nat,
            )
        }),
{
}

/// An agent is ready to learn from memory exactly where it has critics and its memory
/// holds at least a batch and at least as many steps as learning starts at.
pub proof fn law_when_an_agent_can_learn<L: LinAlg>(agent: PcActorCritic<L>)
    ensures
        agent.learns_now() <==> {
            let b = agent.replay_buffer->0@;
            let n = b.training.len() + b.recent.len();
            &&& agent.q1 is Some
            &&& agent.replay_buffer is Some
            &&& agent.config.replay_batch_size > 0
            &&& agent.config.replay_batch_size <= n <= usize::MAX
            &&& agent.config.learning_starts <= n
        },
{
}

/// The action of a step. While the memory, with the completed step in it, holds fewer
/// steps than learning starts at, it is drawn uniformly; afterwards it is drawn from the
/// policy in the new state, with the actor as it was before this step's learning and the
/// generator as learning left it.
pub proof fn law_action_of_a_step<L: LinAlg>(
    agent: PcActorCritic<L>,
    state: Seq<Scalar>,
    reward: Scalar,
    done: bool,
)
    ensures
        ({
            let memory = agent.memory_after_step(state, reward, done);
            let n = match memory {
                Some(b) => b.training.len() + b.recent.len(),
                None => 0,
            };
            let left = agent.sac_after_step(state, reward, done).rng;
            let draw = agent.step_action(state, reward, done);
            let y = inference::<L>(agent.actor@, agent.actor.config@, state).y_conv;
            let dim = agent.config.q_critic->0.action_dim as nat;
            let warms_up = agent.config.learning_starts > 0 && n < agent.config.learning_starts;
            &&& agent.warming_up(memory) == warms_up
            &&& warms_up ==> {
                &&& (draw.action, draw.rng) == uniform_draw::<L>(left, dim)
                &&& draw.raw == unsquashed::<L>(draw.action)
            }
            &&& !warms_up ==> {
                &&& (draw.raw, draw.rng) == raw_draw::<L>(
                    left,
                    means_of(y, dim),
                    deviations_of(y, dim),
                    dim,
                )
                &&& draw.action == squashed::<L>(draw.raw)
            }
        }),
{
}

/// A step within an episode leaves behind what the next one completes; a step that ends
/// it leaves nothing, so that the next observation completes no step.
pub proof fn law_what_a_step_leaves_behind<L: LinAlg>(
    agent: PcActorCritic<L>,
    next: PcActorCritic<L>,
    state: Seq<Scalar>,
    reward: Scalar,
    done: bool,
    action: Seq<Scalar>,
    later: Seq<Scalar>,
    later_reward: Scalar,
    later_done: bool,
)
    requires
        agent.stepped(next, state, reward, done, action),
    ensures
        ({
            let completed = next.completed_step(later, later_reward, later_done);
            &&& done ==> completed is None && !next.learns_on_step(
                later,
                later_reward,
                later_done,
            ) && next.memory_after_step(later, later_reward, later_done) == opt_buffer(
                next.replay_buffer,
            )
            &&& !done ==> {
                &&& completed is Some
                &&& completed->0.state == state
                &&& completed->0.action->Continuous_0 == agent.step_action(
                    state,
                    reward,
                    done,
                ).raw
                &&& completed->0.reward == later_reward
                &&& completed->0.next_state == later
                &&& completed->0.done == later_done
            }
        }),
{
}

} // verus!
