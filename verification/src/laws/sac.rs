//! Laws of learning from memory.

use rand::rngs::StdRng;
use vstd::prelude::*;

use crate::laws::learning::lemma_zero_changes_no_number;
use crate::laws::policy::{deviation_direction, mean_direction};
use crate::layer::LayerView;
use crate::linalg::LinAlg;
use crate::mlp_critic::{critic_trained, critic_value};
use crate::pc_actor_critic::distillation::all_finite;
use crate::pc_actor_critic::policy::{actor_delta, log_prob, squashed};
use crate::pc_actor_critic::replay::TransitionView;
use crate::pc_actor_critic::sac::{
    actor_lesson, actor_taught_upto, batch_draw, counted, critics_taught, critics_taught_upto,
    law_actor_learns_alone, law_critics_learn_alone, mean_logp, min_gradient, noise_of,
    policy_deviations, policy_draw, policy_means, sac_step, stack_following, SacSetup, SacView,
};
use crate::pc_model::{inference, learned, Evidence};
use crate::q_critic::action_gradient_of;
use crate::rng::index_draw;
use crate::scalar::{lit, Scalar, ONE, ZERO};

verus! {

/// What a remembered step teaches the critics. An action is drawn from the policy in
/// the next state and valued by both slow copies there. The soft value is the lower of
/// the two values less the temperature times the log-density of that action. The
/// target of a step that did not end its episode is its reward plus the discounted
/// soft value; the target of a step that did is its reward. Both critics are trained
/// towards it at the remembered state and the squashed remembered action, each at its
/// own rate, in the share that one step has in the batch. Where the drawn action, the
/// remembered action, the log-density, the lower value or the target is not finite,
/// both are left alone and the event is counted. Nothing else changes but the
/// generator. Returns the lower value and the target.
pub proof fn law_target_of_the_critics<L: LinAlg>(
    setup: SacSetup,
    s: SacView,
    t: TransitionView,
    batch_len: nat,
) -> (r: (Scalar, Scalar))
    ensures
        ({
            let (lower, target) = r;
            let (raw, rng) = policy_draw::<L>(s.actor, setup, t.next_state, s.rng);
            let drawn = squashed::<L>(raw);
            let first = critic_value::<L>(s.q1_target, t.next_state + drawn);
            let second = critic_value::<L>(s.q2_target, t.next_state + drawn);
            let logp = log_prob::<L>(
                policy_means::<L>(s.actor, setup, t.next_state),
                policy_deviations::<L>(s.actor, setup, t.next_state),
                raw,
            );
            let soft = L::minus(lower, L::times(L::exp(s.log_alpha), logp));
            let action = squashed::<L>(t.action->Continuous_0);
            let usable = all_finite(drawn) && all_finite(action) && logp.is_finite()
                && lower.is_finite() && target.is_finite();
            let share = L::over(lit(ONE), L::count(batch_len));
            let after = critics_taught::<L>(setup, s, t, batch_len);
            &&& lower == first || lower == second
            &&& !first.is_nan() && !second.is_nan() ==> lower.le(first) && lower.le(second)
            &&& !t.done && !setup.gamma.is_nan() ==> target == L::plus(
                t.reward,
                L::times(setup.gamma, soft),
            )
            &&& t.done && setup.gamma.is_finite() && soft.is_finite() && !t.reward.is_nan()
                ==> target.num_eq(t.reward)
            &&& usable ==> after == (SacView {
                q1: critic_trained::<L>(
                    s.q1,
                    t.state + action,
                    target,
                    setup.q1_lr,
                    share,
                    Seq::empty(),
                ),
                q2: critic_trained::<L>(
                    s.q2,
                    t.state + action,
                    target,
                    setup.q2_lr,
                    share,
                    Seq::empty(),
                ),
                rng,
                ..s
            })
            &&& !usable ==> after == (SacView {
                rng,
                skipped_critic: counted(s.skipped_critic),
                ..s
            })
        }),
{
    let mu = policy_means::<L>(s.actor, setup, t.next_state);
    let log_sigma = policy_deviations::<L>(s.actor, setup, t.next_state);
    let (raw, rng) = policy_draw::<L>(s.actor, setup, t.next_state, s.rng);
    let drawn = squashed::<L>(raw);
    let logp = log_prob::<L>(mu, log_sigma, raw);
    let lower = critic_value::<L>(s.q1_target, t.next_state + drawn).min(
        critic_value::<L>(s.q2_target, t.next_state + drawn),
    );
    let soft = L::minus(lower, L::times(L::exp(s.log_alpha), logp));
    let discount = L::times(
        setup.gamma,
        if t.done {
            lit(ZERO)
        } else {
            lit(ONE)
        },
    );
    let target = L::plus(t.reward, L::times(discount, soft));
    if t.done {
        if setup.gamma.is_finite() && soft.is_finite() && !t.reward.is_nan() {
            L::zero_absorbs(setup.gamma, lit(ZERO));
            L::zero_absorbs(soft, discount);
            L::equals_agree(discount, soft, discount, soft);
            lemma_zero_changes_no_number::<L>(t.reward, L::times(discount, soft));
        }
    } else {
        L::equals_agree(setup.gamma, lit(ONE), setup.gamma, lit(ONE));
    }
    (lower, target)
}

/// A counter goes up by one with each event, until it can go no further. A list counts
/// as finite exactly where each of its numbers is.
pub proof fn law_counting(n: u64, list: Seq<Scalar>)
    ensures
        n < u64::MAX ==> counted(n) == n + 1,
        n == u64::MAX ==> counted(n) == n,
        all_finite(list) <==> forall|i: int|
            0 <= i < list.len() ==> (#[trigger] list[i]).is_finite(),
{
}

/// The critics are taught step by step, each step on what the steps before it left.
pub proof fn law_critics_learn_in_order<L: LinAlg>(
    setup: SacSetup,
    s: SacView,
    batch: Seq<TransitionView>,
    k: nat,
)
    requires
        k < batch.len(),
    ensures
        critics_taught_upto::<L>(setup, s, batch, 0) == s,
        critics_taught_upto::<L>(setup, s, batch, k + 1) == critics_taught::<L>(
            setup,
            critics_taught_upto::<L>(setup, s, batch, k),
            batch[k as int],
            batch.len(),
        ),
{
}

/// What a step teaches the actor depends on its state alone: two steps in one state
/// give the same actor, the same log-density and the same everything else, whatever
/// their actions, rewards, next states and ends of episode are.
pub proof fn law_actor_learns_from_the_state_alone<L: LinAlg>(
    setup: SacSetup,
    s: SacView,
    t: TransitionView,
    u: TransitionView,
    batch_len: nat,
)
    requires
        t.state == u.state,
    ensures
        actor_lesson::<L>(setup, s, t, batch_len) == actor_lesson::<L>(setup, s, u, batch_len),
{
}

/// Batches of the same states teach the actor the same, and tune the temperature by
/// the same mean.
pub proof fn law_actor_learns_from_the_states_alone<L: LinAlg>(
    setup: SacSetup,
    s: SacView,
    batch: Seq<TransitionView>,
    other: Seq<TransitionView>,
    k: nat,
)
    requires
        batch.len() == other.len(),
        k <= batch.len(),
        forall|i: int|
            #![trigger batch[i]]
            0 <= i < batch.len() ==> batch[i].state == other[i].state,
    ensures
        actor_taught_upto::<L>(setup, s, batch, k) == actor_taught_upto::<L>(setup, s, other, k),
    decreases k,
{
    if k > 0 {
        law_actor_learns_from_the_states_alone::<L>(setup, s, batch, other, (k - 1) as nat);
        assert(batch[k - 1].state == other[k - 1].state);
        law_actor_learns_from_the_state_alone::<L>(
            setup,
            actor_taught_upto::<L>(setup, s, batch, (k - 1) as nat).s,
            batch[k - 1],
            other[k - 1],
            batch.len(),
        );
    }
}

/// What a remembered step teaches the actor. An action is drawn from the policy in
/// the remembered state. The critic that values it lower there, the first of two equal
/// ones, gives the gradient of the value with respect to the action. The actor takes
/// one weight update from its inference in that state, in the share that one step has
/// in the batch and without decay; what it descends on is `delta`, which is returned.
/// Where the log-density or a part of `delta` is not finite, the actor is left alone
/// and the event is counted.
pub proof fn law_lesson_of_the_actor<L: LinAlg>(
    setup: SacSetup,
    s: SacView,
    t: TransitionView,
    batch_len: nat,
) -> (delta: Seq<Scalar>)
    ensures
        ({
            let mu = policy_means::<L>(s.actor, setup, t.state);
            let log_sigma = policy_deviations::<L>(s.actor, setup, t.state);
            let (raw, rng) = policy_draw::<L>(s.actor, setup, t.state, s.rng);
            let drawn = squashed::<L>(raw);
            let logp = log_prob::<L>(mu, log_sigma, raw);
            let slope = if critic_value::<L>(s.q1, t.state + drawn).le(
                critic_value::<L>(s.q2, t.state + drawn),
            ) {
                action_gradient_of::<L>(s.q1, t.state, drawn)
            } else {
                action_gradient_of::<L>(s.q2, t.state, drawn)
            };
            let inferred = inference::<L>(s.actor, setup.actor, t.state);
            let (after, sampled) = actor_lesson::<L>(setup, s, t, batch_len);
            let usable = logp.is_finite() && all_finite(delta);
            let n = setup.action_dim as int;
            &&& delta.len() == 2 * n
            &&& forall|j: int|
                #![trigger delta[j]]
                0 <= j < n && j < mu.len() ==> delta[j] == mean_direction::<L>(
                    raw[j],
                    slope[j],
                    L::exp(s.log_alpha),
                )
            &&& forall|j: int|
                #![trigger log_sigma[j]]
                0 <= j < n && j < mu.len() ==> delta[n + j] == deviation_direction::<L>(
                    log_sigma[j],
                    raw[j],
                    L::over(L::minus(raw[j], mu[j]), L::exp(log_sigma[j])),
                    slope[j],
                    L::exp(s.log_alpha),
                )
            &&& usable ==> sampled == Some(logp) && after == (SacView {
                actor: learned::<L>(
                    s.actor,
                    setup.actor,
                    Evidence {
                        input: t.state,
                        inferred,
                        output_delta: delta,
                        surprise_scale: L::over(lit(ONE), L::count(batch_len)),
                        lambda: setup.actor.local_lambda,
                        decay_factors: Seq::empty(),
                    },
                ),
                rng,
                ..s
            })
            &&& !usable ==> sampled is None && after == (SacView {
                rng,
                skipped_actor: counted(s.skipped_actor),
                ..s
            })
        }),
{
    let mu = policy_means::<L>(s.actor, setup, t.state);
    let log_sigma = policy_deviations::<L>(s.actor, setup, t.state);
    let (raw, rng) = policy_draw::<L>(s.actor, setup, t.state, s.rng);
    actor_delta::<L>(
        log_sigma,
        raw,
        noise_of::<L>(mu, log_sigma, raw),
        min_gradient::<L>(s.q1, s.q2, t.state, squashed::<L>(raw)),
        L::exp(s.log_alpha),
        setup.action_dim,
    )
}

/// The log-densities of the actions that were sampled while the first `k` steps of a
/// batch taught the actor, in order. A skipped step has none.
pub open spec fn sampled_log_densities<L: LinAlg>(
    setup: SacSetup,
    s: SacView,
    batch: Seq<TransitionView>,
    k: nat,
) -> Seq<Scalar>
    decreases k,
{
    if k == 0 {
        Seq::empty()
    } else {
        let earlier = sampled_log_densities::<L>(setup, s, batch, (k - 1) as nat);
        match actor_lesson::<L>(
            setup,
            actor_taught_upto::<L>(setup, s, batch, (k - 1) as nat).s,
            batch[k - 1],
            batch.len(),
        ).1 {
            Some(logp) => earlier.push(logp),
            None => earlier,
        }
    }
}

/// The sum of a list, taken from the front.
pub open spec fn total<L: LinAlg>(list: Seq<Scalar>) -> Scalar
    decreases list.len(),
{
    if list.len() == 0 {
        lit(ZERO)
    } else {
        L::plus(total::<L>(list.drop_last()), list.last())
    }
}

/// The value that tunes the temperature is the sum of the sampled log-densities
/// divided by how many there were, and there is none where none was sampled.
pub proof fn law_mean_of_the_sampled_log_densities<L: LinAlg>(
    setup: SacSetup,
    s: SacView,
    batch: Seq<TransitionView>,
    k: nat,
)
    requires
        k <= batch.len(),
    ensures
        ({
            let list = sampled_log_densities::<L>(setup, s, batch, k);
            mean_logp::<L>(actor_taught_upto::<L>(setup, s, batch, k)) == if list.len() == 0 {
                None::<Scalar>
            } else {
                Some(L::over(total::<L>(list), L::count(list.len())))
            }
        }),
{
    lemma_tally::<L>(setup, s, batch, k);
}

proof fn lemma_tally<L: LinAlg>(setup: SacSetup, s: SacView, batch: Seq<TransitionView>, k: nat)
    requires
        k <= batch.len(),
    ensures
        ({
            let list = sampled_log_densities::<L>(setup, s, batch, k);
            let tally = actor_taught_upto::<L>(setup, s, batch, k);
            tally.samples == list.len() && tally.logp_sum == total::<L>(list)
        }),
    decreases k,
{
    if k > 0 {
        lemma_tally::<L>(setup, s, batch, (k - 1) as nat);
        let earlier = sampled_log_densities::<L>(setup, s, batch, (k - 1) as nat);
        let list = sampled_log_densities::<L>(setup, s, batch, k);
        if list != earlier {
            assert(list.drop_last() =~= earlier);
        }
    }
}

/// Where one action was sampled the mean is its log-density. Where no sampled
/// log-density is negative the mean is not, and where none is positive the mean is
/// not.
pub proof fn law_mean_stays_on_the_side_of_the_log_densities<L: LinAlg>(
    setup: SacSetup,
    s: SacView,
    batch: Seq<TransitionView>,
    k: nat,
)
    requires
        k <= batch.len(),
        sampled_log_densities::<L>(setup, s, batch, k).len() > 0,
    ensures
        ({
            let list = sampled_log_densities::<L>(setup, s, batch, k);
            let mean = mean_logp::<L>(actor_taught_upto::<L>(setup, s, batch, k))->0;
            &&& list.len() == 1 && !list[0].is_nan() ==> mean.num_eq(list[0])
            &&& (forall|i: int| 0 <= i < list.len() ==> lit(ZERO).le(#[trigger] list[i]))
                ==> mean.not_below(lit(ZERO))
            &&& (forall|i: int| 0 <= i < list.len() ==> (#[trigger] list[i]).le(lit(ZERO)))
                ==> mean.not_above(lit(ZERO))
        }),
{
    let list = sampled_log_densities::<L>(setup, s, batch, k);
    let sum = total::<L>(list);
    let n = L::count(list.len());
    law_mean_of_the_sampled_log_densities::<L>(setup, s, batch, k);
    lemma_total_keeps_sides::<L>(list);
    L::equals_agree(sum, n, sum, n);
    if list.len() == 1 && !list[0].is_nan() {
        assert(list.drop_last().len() == 0);
        assert(total::<L>(list.drop_last()) == lit(ZERO));
        lemma_zero_changes_no_number::<L>(list[0], lit(ZERO));
        L::equals_agree(lit(ZERO), list[0], lit(ZERO), list[0]);
    }
}

proof fn lemma_total_keeps_sides<L: LinAlg>(list: Seq<Scalar>)
    ensures
        (forall|i: int| 0 <= i < list.len() ==> lit(ZERO).le(#[trigger] list[i])) ==> total::<L>(
            list,
        ).not_below(lit(ZERO)),
        (forall|i: int| 0 <= i < list.len() ==> (#[trigger] list[i]).le(lit(ZERO))) ==> total::<L>(
            list,
        ).not_above(lit(ZERO)),
    decreases list.len(),
{
    if list.len() > 0 {
        let front = list.drop_last();
        lemma_total_keeps_sides::<L>(front);
        L::equals_agree(total::<L>(front), list.last(), total::<L>(front), list.last());
        if forall|i: int| 0 <= i < list.len() ==> lit(ZERO).le(#[trigger] list[i]) {
            assert forall|i: int| 0 <= i < front.len() implies lit(ZERO).le(
                #[trigger] front[i],
            ) by {
                assert(front[i] == list[i]);
            }
            assert(lit(ZERO).le(list[list.len() - 1]));
        }
        if forall|i: int| 0 <= i < list.len() ==> (#[trigger] list[i]).le(lit(ZERO)) {
            assert forall|i: int| 0 <= i < front.len() implies (#[trigger] front[i]).le(
                lit(ZERO),
            ) by {
                assert(front[i] == list[i]);
            }
            assert(list[list.len() - 1].le(lit(ZERO)));
        }
    }
}

/// One learning step in its order: a batch is drawn, all of it teaches the critics,
/// all of it teaches the actor with the critics as they then stand, the temperature
/// is tuned by the mean of the log-densities sampled on the way, and last the slow
/// copies follow. The log-temperature moves by `alpha_lr` times the temperature times
/// the sum of that mean and the entropy goal, which is minus the number of action
/// components unless one is set.
pub proof fn law_order_of_a_learning_step<L: LinAlg>(
    setup: SacSetup,
    s: SacView,
    memory: Seq<TransitionView>,
    batch_size: nat,
)
    ensures
        ({
            let after = sac_step::<L>(setup, s, memory, batch_size);
            let (batch, rng) = batch_draw(s.rng, memory, batch_size);
            let critics = critics_taught_upto::<L>(
                setup,
                SacView { rng, ..s },
                batch,
                batch_size,
            );
            let taught = actor_taught_upto::<L>(setup, critics, batch, batch_size).s;
            let list = sampled_log_densities::<L>(setup, critics, batch, batch_size);
            let goal = match setup.target_entropy {
                Some(h) => h,
                None => L::count(setup.action_dim).neg(),
            };
            let mean = L::over(total::<L>(list), L::count(list.len()));
            &&& batch.len() == batch_size
            &&& after.q1 == critics.q1
            &&& after.q2 == critics.q2
            &&& after.skipped_critic == critics.skipped_critic
            &&& after.actor == taught.actor
            &&& after.skipped_actor == taught.skipped_actor
            &&& after.rng == taught.rng
            &&& list.len() == 0 ==> after.log_alpha == s.log_alpha
            &&& list.len() > 0 ==> after.log_alpha == L::minus(
                s.log_alpha,
                L::times(
                    setup.alpha_lr,
                    L::times(L::exp(s.log_alpha).neg(), L::plus(mean, goal)),
                ),
            )
        }),
{
    let (batch, rng) = batch_draw(s.rng, memory, batch_size);
    lemma_batch_len(s.rng, memory, batch_size);
    let start = SacView { rng, ..s };
    let critics = critics_taught_upto::<L>(setup, start, batch, batch_size);
    law_critics_learn_alone::<L>(setup, start, batch, batch_size);
    law_actor_learns_alone::<L>(setup, critics, batch, batch_size);
    law_mean_of_the_sampled_log_densities::<L>(setup, critics, batch, batch_size);
}

proof fn lemma_batch_len(rng: StdRng, memory: Seq<TransitionView>, k: nat)
    ensures
        batch_draw(rng, memory, k).0.len() == k,
    decreases k,
{
    if k > 0 {
        lemma_batch_len(rng, memory, (k - 1) as nat);
    }
}

/// The temperature does not fall while the sampled actions are less spread than the
/// goal asks (mean log-density and goal add up to no less than zero), and does not
/// rise while they are more spread.
pub proof fn law_temperature_steers_towards_the_goal<L: LinAlg>(
    setup: SacSetup,
    s: SacView,
    memory: Seq<TransitionView>,
    batch_size: nat,
)
    requires
        lit(ZERO).le(setup.alpha_lr),
        ({
            let (batch, rng) = batch_draw(s.rng, memory, batch_size);
            let critics = critics_taught_upto::<L>(
                setup,
                SacView { rng, ..s },
                batch,
                batch_size,
            );
            sampled_log_densities::<L>(setup, critics, batch, batch_size).len() > 0
        }),
    ensures
        ({
            let after = sac_step::<L>(setup, s, memory, batch_size);
            let (batch, rng) = batch_draw(s.rng, memory, batch_size);
            let critics = critics_taught_upto::<L>(
                setup,
                SacView { rng, ..s },
                batch,
                batch_size,
            );
            let list = sampled_log_densities::<L>(setup, critics, batch, batch_size);
            let goal = match setup.target_entropy {
                Some(h) => h,
                None => L::count(setup.action_dim).neg(),
            };
            let excess = L::plus(L::over(total::<L>(list), L::count(list.len())), goal);
            &&& lit(ZERO).le(excess) ==> after.log_alpha.not_below(s.log_alpha)
            &&& excess.le(lit(ZERO)) ==> after.log_alpha.not_above(s.log_alpha)
        }),
{
    law_order_of_a_learning_step::<L>(setup, s, memory, batch_size);
    let (batch, rng) = batch_draw(s.rng, memory, batch_size);
    let critics = critics_taught_upto::<L>(setup, SacView { rng, ..s }, batch, batch_size);
    let list = sampled_log_densities::<L>(setup, critics, batch, batch_size);
    let goal = match setup.target_entropy {
        Some(h) => h,
        None => L::count(setup.action_dim).neg(),
    };
    let excess = L::plus(L::over(total::<L>(list), L::count(list.len())), goal);
    let alpha = L::exp(s.log_alpha);
    let slope = L::times(alpha.neg(), excess);
    let step = L::times(setup.alpha_lr, slope);
    L::equals_agree(s.log_alpha, s.log_alpha, s.log_alpha, s.log_alpha);
    L::equals_agree(alpha.neg(), excess, alpha.neg(), excess);
    L::equals_agree(excess, alpha.neg(), excess, alpha.neg());
    L::equals_agree(setup.alpha_lr, slope, setup.alpha_lr, slope);
    L::equals_agree(slope, setup.alpha_lr, slope, setup.alpha_lr);
    L::equals_agree(s.log_alpha, step, s.log_alpha, step);
}

/// The slow copies after a learning step. Every weight and bias is `1 - tau` parts of
/// what it was and `tau` parts of the live critic's after the step.
pub proof fn law_slow_copies_blend<L: LinAlg>(
    setup: SacSetup,
    s: SacView,
    memory: Seq<TransitionView>,
    batch_size: nat,
    k: int,
)
    ensures
        ({
            let after = sac_step::<L>(setup, s, memory, batch_size);
            &&& after.q1_target.len() == s.q1_target.len()
            &&& after.q2_target.len() == s.q2_target.len()
            &&& 0 <= k < s.q1_target.len() ==> blends::<L>(
                after.q1_target[k],
                s.q1_target[k],
                after.q1[k],
                setup.tau,
            )
            &&& 0 <= k < s.q2_target.len() ==> blends::<L>(
                after.q2_target[k],
                s.q2_target[k],
                after.q2[k],
                setup.tau,
            )
        }),
{
    crate::pc_actor_critic::sac::law_slow_copies_follow_the_critics::<L>(
        setup,
        s,
        memory,
        batch_size,
    );
}

/// `next` is `1 - tau` parts of `slow` and `tau` parts of `live` in every weight and
/// bias, under the activation of `slow`. At `tau` one it is `live`, at `tau` zero it
/// is `slow`, as far as both are finite.
pub open spec fn blends<L: LinAlg>(
    next: LayerView,
    slow: LayerView,
    live: LayerView,
    tau: Scalar,
) -> bool {
    &&& next.activation == slow.activation
    &&& next.weights.same_shape(slow.weights)
    &&& next.bias.len() == slow.bias.len()
    &&& forall|r: int, c: int|
        #![trigger next.weights.at(r, c)]
        0 <= r < slow.weights.rows && 0 <= c < slow.weights.cols ==> next.weights.at(r, c)
            == L::plus(
            L::times(L::minus(lit(ONE), tau), slow.weights.at(r, c)),
            L::times(tau, live.weights.at(r, c)),
        )
    &&& forall|j: int|
        #![trigger next.bias[j]]
        0 <= j < slow.bias.len() ==> next.bias[j] == L::plus(
            L::times(L::minus(lit(ONE), tau), slow.bias[j]),
            L::times(tau, live.bias[j]),
        )
}

/// A slow copy that follows at rate one becomes the live critic, and one that follows
/// at rate zero stays, as far as all numbers are finite.
pub proof fn law_ends_of_following<L: LinAlg>(
    slow: Seq<LayerView>,
    live: Seq<LayerView>,
    k: int,
    r: int,
    c: int,
)
    requires
        0 <= k < slow.len(),
        0 <= r < slow[k].weights.rows,
        0 <= c < slow[k].weights.cols,
        slow[k].weights.at(r, c).is_finite(),
        live[k].weights.at(r, c).is_finite(),
    ensures
        stack_following::<L>(slow, live, lit(ONE))[k].weights.at(r, c).num_eq(
            live[k].weights.at(r, c),
        ),
        L::minus(lit(ONE), lit(ZERO)) == lit(ONE) ==> stack_following::<L>(
            slow,
            live,
            lit(ZERO),
        )[k].weights.at(r, c).num_eq(slow[k].weights.at(r, c)),
{
    let old_weight = slow[k].weights.at(r, c);
    let weight = live[k].weights.at(r, c);
    let none = L::minus(lit(ONE), lit(ONE));
    L::equals_cancel(lit(ONE), lit(ONE));
    L::zero_absorbs(old_weight, none);
    L::equals_agree(old_weight, none, old_weight, none);
    L::equals_agree(weight, lit(ONE), weight, lit(ONE));
    lemma_zero_changes_no_number::<L>(L::times(lit(ONE), weight), L::times(none, old_weight));
    L::equals_agree(
        L::times(none, old_weight),
        L::times(lit(ONE), weight),
        L::times(none, old_weight),
        L::times(lit(ONE), weight),
    );
    L::zero_absorbs(weight, lit(ZERO));
    L::equals_agree(weight, lit(ZERO), weight, lit(ZERO));
    L::equals_agree(old_weight, lit(ONE), old_weight, lit(ONE));
    lemma_zero_changes_no_number::<L>(
        L::times(lit(ONE), old_weight),
        L::times(lit(ZERO), weight),
    );
}

/// Each member of a batch is the remembered step at an index that is drawn anew, from
/// all that is remembered.
pub proof fn law_batch_is_drawn_from_memory(rng: StdRng, memory: Seq<TransitionView>, k: nat)
    ensures
        batch_draw(rng, memory, 0) == (Seq::<TransitionView>::empty(), rng),
        ({
            let (batch, left) = batch_draw(rng, memory, k);
            let (index, rest) = index_draw(left, memory.len() as u64);
            &&& batch.len() == k
            &&& batch_draw(rng, memory, k + 1) == (batch.push(memory[index as int]), rest)
        }),
{
    lemma_batch_len(rng, memory, k);
}

} // verus!
