//! Soft actor-critic learning from memory.

use rand::rngs::StdRng;
use vstd::prelude::*;

use crate::arith::Arith;
use crate::layer::{layer_views, Layer, LayerView};
use crate::linalg::LinAlg;
use crate::mixing::{weigh_mat, weigh_vec};
use crate::mlp_critic::{critic_trained, critic_value};
use crate::pc_actor::{evidence, InferResult, PcActor};
use crate::pc_actor_critic::agent::PcActorCritic;
use crate::pc_actor_critic::distillation::all_finite;
use crate::pc_actor_critic::fisher::fisher_views;
use crate::pc_actor_critic::learning::lemma_fisher_fits_shape;
use crate::pc_actor_critic::policy::{
    actor_delta, deterministic_squashed_action, deviations_of, log_prob, means_of,
    raw_draw, sac_actor_delta, sample_squashed_action, split_mu_log_sigma, squashed,
    squashed_log_prob,
};
use crate::pc_actor_critic::replay::{
    transition_views, Action, BufferView, ReplayTransition, TransitionView,
};
use crate::pc_model::{inference, learned, pure_backprop, ActorView, PcActorConfigView};
use crate::q_critic::{action_gradient_of, QCritic};
use crate::rng::{draw_index, index_draw};
use crate::scalar::{lit, Scalar, ONE, ZERO};

verus! {

/// What learning from memory changes.
#[verifier::ext_equal]
pub struct SacView {
    pub actor: ActorView,
    pub q1: Seq<LayerView>,
    pub q2: Seq<LayerView>,
    pub q1_target: Seq<LayerView>,
    pub q2_target: Seq<LayerView>,
    pub log_alpha: Scalar,
    pub rng: StdRng,
    pub skipped_critic: u64,
    pub skipped_actor: u64,
}

/// What learning from memory reads and leaves alone.
#[verifier::ext_equal]
pub struct SacSetup {
    pub actor: PcActorConfigView,
    pub action_dim: nat,
    pub q1_lr: Scalar,
    pub q2_lr: Scalar,
    pub gamma: Scalar,
    pub tau: Scalar,
    pub target_entropy: Option<Scalar>,
    pub alpha_lr: Scalar,
}

/// A counter after one more event.
pub open spec fn counted(n: u64) -> u64 {
    if n < u64::MAX {
        (n + 1) as u64
    } else {
        n
    }
}

/// A counter after one more event.
fn count_up(n: u64) -> (r: u64)
    ensures
        r == counted(n),
{
    if n < u64::MAX {
        n + 1
    } else {
        n
    }
}

/// The policy's means in a state.
pub open spec fn policy_means<L: LinAlg>(
    actor: ActorView,
    setup: SacSetup,
    state: Seq<Scalar>,
) -> Seq<Scalar> {
    means_of(inference::<L>(actor, setup.actor, state).y_conv, setup.action_dim)
}

/// The policy's log standard deviations in a state.
pub open spec fn policy_deviations<L: LinAlg>(
    actor: ActorView,
    setup: SacSetup,
    state: Seq<Scalar>,
) -> Seq<Scalar> {
    deviations_of(inference::<L>(actor, setup.actor, state).y_conv, setup.action_dim)
}

/// A draw from the policy in a state, before squashing.
pub open spec fn policy_draw<L: LinAlg>(
    actor: ActorView,
    setup: SacSetup,
    state: Seq<Scalar>,
    rng: StdRng,
) -> (Seq<Scalar>, StdRng) {
    raw_draw::<L>(
        rng,
        policy_means::<L>(actor, setup, state),
        policy_deviations::<L>(actor, setup, state),
        setup.action_dim,
    )
}

/// The soft Bellman target of a step: its reward and, unless the episode ended,
/// the discounted soft value of the next state.
pub open spec fn bellman_target<A: Arith>(
    reward: Scalar,
    gamma: Scalar,
    done: bool,
    q_min: Scalar,
    alpha: Scalar,
    logp: Scalar,
) -> Scalar {
    let mask = if done {
        lit(ZERO)
    } else {
        lit(ONE)
    };
    A::plus(
        reward,
        A::times(A::times(gamma, mask), A::minus(q_min, A::times(alpha, logp))),
    )
}

/// The state after one step of memory taught the critics. Where a number is not
/// finite the critics are left alone and the event is counted.
pub open spec fn critics_taught<L: LinAlg>(
    setup: SacSetup,
    s: SacView,
    t: TransitionView,
    batch_len: nat,
) -> SacView {
    let mu = policy_means::<L>(s.actor, setup, t.next_state);
    let log_sigma = policy_deviations::<L>(s.actor, setup, t.next_state);
    let (raw, rng) = policy_draw::<L>(s.actor, setup, t.next_state, s.rng);
    let next_action = squashed::<L>(raw);
    let logp = log_prob::<L>(mu, log_sigma, raw);
    let q_min = critic_value::<L>(s.q1_target, t.next_state + next_action).min(
        critic_value::<L>(s.q2_target, t.next_state + next_action),
    );
    let target = bellman_target::<L>(
        t.reward,
        setup.gamma,
        t.done,
        q_min,
        L::exp(s.log_alpha),
        logp,
    );
    let action = squashed::<L>(t.action->Continuous_0);
    if all_finite(next_action) && all_finite(action) && logp.is_finite() && q_min.is_finite()
        && target.is_finite() {
        let share = L::over(lit(ONE), L::count(batch_len));
        SacView {
            q1: critic_trained::<L>(
                s.q1,
                t.state + action,
                target,
                setup.q1_lr,
                share,
                Seq::empty(),
            ),
            q2: critic_trained::<L>(
                s.q2,
                t.state + action,
                target,
                setup.q2_lr,
                share,
                Seq::empty(),
            ),
            rng,
            ..s
        }
    } else {
        SacView { rng, skipped_critic: counted(s.skipped_critic), ..s }
    }
}

/// The state after the first `k` steps of a batch taught the critics.
pub open spec fn critics_taught_upto<L: LinAlg>(
    setup: SacSetup,
    s: SacView,
    batch: Seq<TransitionView>,
    k: nat,
) -> SacView
    decreases k,
{
    if k == 0 {
        s
    } else {
        critics_taught::<L>(
            setup,
            critics_taught_upto::<L>(setup, s, batch, (k - 1) as nat),
            batch[k - 1],
            batch.len(),
        )
    }
}

/// The noise that turned `mu` into `raw`.
pub open spec fn noise_of<A: Arith>(
    mu: Seq<Scalar>,
    log_sigma: Seq<Scalar>,
    raw: Seq<Scalar>,
) -> Seq<Scalar> {
    Seq::new(mu.len(), |j: int| A::over(A::minus(raw[j], mu[j]), A::exp(log_sigma[j])))
}

/// The gradient of the smaller of two action values with respect to the action.
pub open spec fn min_gradient<L: LinAlg>(
    q1: Seq<LayerView>,
    q2: Seq<LayerView>,
    state: Seq<Scalar>,
    action: Seq<Scalar>,
) -> Seq<Scalar> {
    if critic_value::<L>(q1, state + action).le(critic_value::<L>(q2, state + action)) {
        action_gradient_of::<L>(q1, state, action)
    } else {
        action_gradient_of::<L>(q2, state, action)
    }
}

/// What the actor's lesson adds up: the log-densities of the sampled actions and
/// how many there were.
#[verifier::ext_equal]
pub struct ActorTally {
    pub s: SacView,
    pub logp_sum: Scalar,
    pub samples: nat,
}

/// The state after one step of memory taught the actor, and the log-density of
/// the action that was sampled. Where a number is not finite the actor is left
/// alone and the event is counted.
pub open spec fn actor_lesson<L: LinAlg>(
    setup: SacSetup,
    s: SacView,
    t: TransitionView,
    batch_len: nat,
) -> (SacView, Option<Scalar>) {
    let inferred = inference::<L>(s.actor, setup.actor, t.state);
    let mu = policy_means::<L>(s.actor, setup, t.state);
    let log_sigma = policy_deviations::<L>(s.actor, setup, t.state);
    let (raw, rng) = policy_draw::<L>(s.actor, setup, t.state, s.rng);
    let logp = log_prob::<L>(mu, log_sigma, raw);
    let delta = actor_delta::<L>(
        log_sigma,
        raw,
        noise_of::<L>(mu, log_sigma, raw),
        min_gradient::<L>(s.q1, s.q2, t.state, squashed::<L>(raw)),
        L::exp(s.log_alpha),
        setup.action_dim,
    );
    if logp.is_finite() && all_finite(delta) {
        (
            SacView {
                actor: learned::<L>(
                    s.actor,
                    setup.actor,
                    evidence::<L>(
                        delta,
                        inferred,
                        t.state,
                        L::over(lit(ONE), L::count(batch_len)),
                        setup.actor.local_lambda,
                        Seq::empty(),
                    ),
                ),
                rng,
                ..s
            },
            Some(logp),
        )
    } else {
        (SacView { rng, skipped_actor: counted(s.skipped_actor), ..s }, None)
    }
}

/// The tally after one more step of memory taught the actor.
pub open spec fn actor_taught<L: LinAlg>(
    setup: SacSetup,
    y: ActorTally,
    t: TransitionView,
    batch_len: nat,
) -> ActorTally {
    let (s, sampled) = actor_lesson::<L>(setup, y.s, t, batch_len);
    match sampled {
        Some(logp) => ActorTally {
            s,
            logp_sum: L::plus(y.logp_sum, logp),
            samples: y.samples + 1,
        },
        None => ActorTally { s, ..y },
    }
}

/// The tally after the first `k` steps of a batch taught the actor.
pub open spec fn actor_taught_upto<L: LinAlg>(
    setup: SacSetup,
    s: SacView,
    batch: Seq<TransitionView>,
    k: nat,
) -> ActorTally
    decreases k,
{
    if k == 0 {
        ActorTally { s, logp_sum: lit(ZERO), samples: 0 }
    } else {
        actor_taught::<L>(
            setup,
            actor_taught_upto::<L>(setup, s, batch, (k - 1) as nat),
            batch[k - 1],
            batch.len(),
        )
    }
}

/// The mean log-density of the sampled actions, if there were any.
pub open spec fn mean_logp<A: Arith>(tally: ActorTally) -> Option<Scalar> {
    if tally.samples > 0 {
        Some(A::over(tally.logp_sum, A::count(tally.samples)))
    } else {
        None
    }
}

/// The entropy that the temperature is tuned towards.
pub open spec fn entropy_goal<A: Arith>(setup: SacSetup) -> Scalar {
    match setup.target_entropy {
        Some(h) => h,
        None => A::count(setup.action_dim).neg(),
    }
}

/// The log-temperature after one descent step: it falls while the policy's
/// entropy is above the goal and rises while it is below.
pub open spec fn cooled<A: Arith>(setup: SacSetup, log_alpha: Scalar, logp_mean: Scalar) -> Scalar {
    let grad = A::times(
        A::exp(log_alpha).neg(),
        A::plus(logp_mean, entropy_goal::<A>(setup)),
    );
    A::minus(log_alpha, A::times(setup.alpha_lr, grad))
}

/// A slow copy after one step towards the live critic.
pub open spec fn stack_following<A: Arith>(
    target: Seq<LayerView>,
    live: Seq<LayerView>,
    tau: Scalar,
) -> Seq<LayerView> {
    Seq::new(
        target.len(),
        |k: int| target[k].weighted::<A>(A::minus(lit(ONE), tau), tau, live[k]),
    )
}

/// The state after both slow copies followed.
pub open spec fn targets_followed<A: Arith>(setup: SacSetup, s: SacView) -> SacView {
    SacView {
        q1_target: stack_following::<A>(s.q1_target, s.q1, setup.tau),
        q2_target: stack_following::<A>(s.q2_target, s.q2, setup.tau),
        ..s
    }
}

/// The first `k` members of a batch drawn from memory, with repetition.
pub open spec fn batch_draw(rng: StdRng, memory: Seq<TransitionView>, k: nat) -> (
    Seq<TransitionView>,
    StdRng,
)
    decreases k,
{
    if k == 0 {
        (Seq::empty(), rng)
    } else {
        let (batch, rng) = batch_draw(rng, memory, (k - 1) as nat);
        let (i, rng) = index_draw(rng, memory.len() as u64);
        (batch.push(memory[i as int]), rng)
    }
}

/// The state after one learning step: critics, actor, temperature, slow copies.
pub open spec fn sac_step<L: LinAlg>(
    setup: SacSetup,
    s: SacView,
    memory: Seq<TransitionView>,
    batch_size: nat,
) -> SacView {
    let (batch, rng) = batch_draw(s.rng, memory, batch_size);
    let after_critics = critics_taught_upto::<L>(
        setup,
        SacView { rng, ..s },
        batch,
        batch.len(),
    );
    let tally = actor_taught_upto::<L>(setup, after_critics, batch, batch.len());
    let tempered = match mean_logp::<L>(tally) {
        Some(logp) => SacView {
            log_alpha: cooled::<L>(setup, tally.s.log_alpha, logp),
            ..tally.s
        },
        None => tally.s,
    };
    targets_followed::<L>(setup, tempered)
}

/// Teaching the critics leaves the actor, the slow copies and the temperature
/// alone. A counted skip leaves the critics alone too.
pub proof fn law_critics_learn_alone<L: LinAlg>(
    setup: SacSetup,
    s: SacView,
    batch: Seq<TransitionView>,
    k: nat,
)
    requires
        k <= batch.len(),
    ensures
        ({
            let after = critics_taught_upto::<L>(setup, s, batch, k);
            &&& after == (SacView {
                q1: after.q1,
                q2: after.q2,
                rng: after.rng,
                skipped_critic: after.skipped_critic,
                ..s
            })
            &&& s.skipped_critic <= after.skipped_critic <= s.skipped_critic + k
            &&& after.skipped_critic == s.skipped_critic + k && k > 0 ==> after.q1 == s.q1
                && after.q2 == s.q2
        }),
    decreases k,
{
    if k > 0 {
        law_critics_learn_alone::<L>(setup, s, batch, (k - 1) as nat);
    }
}

/// Teaching the actor leaves both critics, the slow copies and the temperature
/// alone. Where every step was skipped the actor stays as well.
pub proof fn law_actor_learns_alone<L: LinAlg>(
    setup: SacSetup,
    s: SacView,
    batch: Seq<TransitionView>,
    k: nat,
)
    requires
        k <= batch.len(),
    ensures
        ({
            let tally = actor_taught_upto::<L>(setup, s, batch, k);
            &&& tally.s == (SacView {
                actor: tally.s.actor,
                rng: tally.s.rng,
                skipped_actor: tally.s.skipped_actor,
                ..s
            })
            &&& tally.samples <= k
            &&& s.skipped_actor <= tally.s.skipped_actor <= s.skipped_actor + (k - tally.samples)
            &&& tally.samples == 0 ==> tally.s.actor == s.actor
        }),
    decreases k,
{
    if k > 0 {
        law_actor_learns_alone::<L>(setup, s, batch, (k - 1) as nat);
    }
}

/// A learning step moves the slow copies only towards the critics as they stand
/// at its end, and tunes the temperature only from sampled actions.
pub proof fn law_slow_copies_follow_the_critics<L: LinAlg>(
    setup: SacSetup,
    s: SacView,
    memory: Seq<TransitionView>,
    batch_size: nat,
)
    ensures
        ({
            let after = sac_step::<L>(setup, s, memory, batch_size);
            &&& after.q1_target == stack_following::<L>(s.q1_target, after.q1, setup.tau)
            &&& after.q2_target == stack_following::<L>(s.q2_target, after.q2, setup.tau)
            &&& after.log_alpha == s.log_alpha || exists|logp: Scalar|
                after.log_alpha == #[trigger] cooled::<L>(setup, s.log_alpha, logp)
        }),
{
    let (batch, rng) = batch_draw(s.rng, memory, batch_size);
    let start = SacView { rng, ..s };
    law_critics_learn_alone::<L>(setup, start, batch, batch.len());
    let taught = critics_taught_upto::<L>(setup, start, batch, batch.len());
    law_actor_learns_alone::<L>(setup, taught, batch, batch.len());
    let tally = actor_taught_upto::<L>(setup, taught, batch, batch.len());
    if mean_logp::<L>(tally) is Some {
        let logp = mean_logp::<L>(tally)->0;
        assert(sac_step::<L>(setup, s, memory, batch_size).log_alpha == cooled::<L>(
            setup,
            s.log_alpha,
            logp,
        ));
    }
}

/// Memories that must be there before learning starts.
pub open spec fn memories_needed(batch_size: usize, learning_starts: usize) -> usize {
    if batch_size >= learning_starts {
        batch_size
    } else {
        learning_starts
    }
}

/// Whether every number is finite.
fn finite<A: Arith>(s: &Vec<Scalar>) -> (r: bool)
    ensures
        r == all_finite(s@),
{
    let mut i: usize = 0;
    while i < s.len()
        invariant
            i <= s.len(),
            forall|k: int| 0 <= k < i ==> (#[trigger] s@[k]).is_finite(),
        decreases s.len() - i,
    {
        if !s[i].is_finite() {
            return false;
        }
        i = i + 1;
    }
    true
}

/// Moves one layer of a slow copy towards the live layer.
pub fn polyak_layer<L: LinAlg>(target: &mut Layer<L>, live: &Layer<L>, tau: Scalar, backend: &L)
    requires
        old(target)@.wf(),
        live@.wf(),
        live@.weights.same_shape(old(target)@.weights),
    ensures
        final(target)@ == old(target)@.weighted::<L>(L::minus(lit(ONE), tau), tau, live@),
        final(target)@.wf(),
        final(target)@.weights.same_shape(old(target)@.weights),
{
    let rest = L::r_sub(lit(ONE), tau);
    let weights = weigh_mat(backend, rest, &target.weights, tau, &live.weights);
    let bias = weigh_vec(backend, rest, &target.bias, tau, &live.bias);
    target.weights = weights;
    target.bias = bias;
}

/// Moves a slow copy towards the live critic.
fn follow<L: LinAlg>(target: &mut QCritic<L>, live: &QCritic<L>, tau: Scalar, backend: &L)
    requires
        old(target).wf(),
        live.wf(),
        old(target).config@.shape() == live.config@.shape(),
    ensures
        final(target)@ == stack_following::<L>(old(target)@, live@, tau),
        final(target).wf(),
        final(target).config == old(target).config,
        final(target).backend == old(target).backend,
{
    let ghost start = target@;
    let ghost goal = stack_following::<L>(start, live@, tau);
    let ghost shape = target.config@.shape();
    let n: usize = target.layers.len();
    let mut i: usize = 0;
    while i < n
        invariant
            i <= n,
            n == target.layers@.len(),
            n == live.layers@.len(),
            n == start.len(),
            target.config == old(target).config,
            target.backend == old(target).backend,
            shape == target.config@.shape(),
            shape.fits(start),
            shape.fits(live@),
            shape.fits(target@),
            goal == stack_following::<L>(start, live@, tau),
            forall|k: int| 0 <= k < i ==> #[trigger] target@[k] == goal[k],
            forall|k: int| i <= k < n ==> #[trigger] target@[k] == start[k],
        decreases n - i,
    {
        let ghost before = target.layers@;
        assert(target@[i as int] == target.layers@[i as int]@);
        assert(target@[i as int] == start[i as int]);
        assert(live@[i as int] == live.layers@[i as int]@);
        polyak_layer(&mut target.layers[i], &live.layers[i], tau, backend);
        assert(target@ =~= layer_views(before).update(i as int, target.layers@[i as int]@));
        i = i + 1;
    }
    assert(target@ =~= goal);
}

/// A draw from the policy, with what it was drawn from.
pub struct PolicySample<L: LinAlg> {
    pub infer: InferResult<L>,
    pub mu: Vec<Scalar>,
    pub log_sigma: Vec<Scalar>,
    pub a_raw: Vec<Scalar>,
    pub action: Vec<Scalar>,
}

/// Draws from the policy in a state.
fn sample_policy<L: LinAlg>(
    actor: &PcActor<L>,
    backend: &L,
    state: &[Scalar],
    action_dim: usize,
    rng: &mut StdRng,
    Ghost(setup): Ghost<SacSetup>,
) -> (r: PolicySample<L>)
    requires
        actor.wf(),
        state@.len() == actor.config.input_size,
        actor.config.output_size == 2 * action_dim,
        setup.actor == actor.config@,
        setup.action_dim == action_dim,
    ensures
        r.infer@ == inference::<L>(actor@, actor.config@, state@),
        r.infer@.fits(actor.config@),
        r.mu@ == policy_means::<L>(actor@, setup, state@),
        r.log_sigma@ == policy_deviations::<L>(actor@, setup, state@),
        (r.a_raw@, *final(rng)) == policy_draw::<L>(actor@, setup, state@, *old(rng)),
        r.action@ == squashed::<L>(r.a_raw@),
        r.mu@.len() == action_dim,
        r.log_sigma@.len() == action_dim,
        r.a_raw@.len() == action_dim,
{
    let infer = actor.infer(state);
    let y = backend.vec_to_vec(&infer.y_conv);
    let (mu, log_sigma) = split_mu_log_sigma(y.as_slice(), action_dim);
    let (a_raw, action) = sample_squashed_action::<L>(mu.as_slice(), log_sigma.as_slice(), rng);
    PolicySample { infer, mu, log_sigma, a_raw, action }
}

/// The noise behind a draw.
fn noise<A: Arith>(mu: &Vec<Scalar>, log_sigma: &Vec<Scalar>, raw: &Vec<Scalar>) -> (r: Vec<Scalar>)
    requires
        log_sigma@.len() == mu@.len(),
        raw@.len() == mu@.len(),
    ensures
        r@ == noise_of::<A>(mu@, log_sigma@, raw@),
{
    let mut out: Vec<Scalar> = Vec::new();
    let mut j: usize = 0;
    while j < mu.len()
        invariant
            j <= mu.len(),
            log_sigma@.len() == mu@.len(),
            raw@.len() == mu@.len(),
            out@ == noise_of::<A>(mu@, log_sigma@, raw@).take(j as int),
        decreases mu.len() - j,
    {
        out.push(A::r_div(A::r_sub(raw[j], mu[j]), A::r_exp(log_sigma[j])));
        j = j + 1;
        assert(out@ =~= noise_of::<A>(mu@, log_sigma@, raw@).take(j as int));
    }
    assert(out@ =~= noise_of::<A>(mu@, log_sigma@, raw@));
    out
}

/// The contents of a batch.
pub open spec fn batch_views(batch: Seq<ReplayTransition>) -> Seq<TransitionView> {
    transition_views(batch)
}

/// Every step of a batch is one of a continuous agent with the given sizes.
pub open spec fn batch_fits(batch: Seq<TransitionView>, state_dim: nat, action_dim: nat) -> bool {
    forall|i: int| 0 <= i < batch.len() ==> (#[trigger] batch[i]).fits(state_dim, action_dim)
}

/// Both slots hold a critic, with one configuration and backend.
pub open spec fn same_settings<L: LinAlg>(a: Option<QCritic<L>>, b: Option<QCritic<L>>) -> bool {
    match (a, b) {
        (Some(x), Some(y)) => x.config == y.config && x.backend == y.backend,
        _ => false,
    }
}

/// A slow copy and its live critic, where both are there, work and have the
/// same layers.
pub open spec fn can_follow<L: LinAlg>(
    target: Option<QCritic<L>>,
    live: Option<QCritic<L>>,
) -> bool {
    match (target, live) {
        (Some(t), Some(l)) => t.wf() && l.wf() && t.config@.shape() == l.config@.shape(),
        _ => true,
    }
}

/// `next` is the slow copy `target` after it moved towards `live`; without a
/// live critic it stays.
pub open spec fn followed<L: LinAlg>(
    next: Option<QCritic<L>>,
    target: Option<QCritic<L>>,
    live: Option<QCritic<L>>,
    tau: Scalar,
) -> bool {
    match (target, live) {
        (Some(t), Some(l)) => {
            &&& next is Some
            &&& next->0@ == stack_following::<L>(t@, l@, tau)
            &&& next->0.wf()
            &&& next->0.config == t.config
            &&& next->0.backend == t.backend
        },
        _ => next == target,
    }
}

impl<L: LinAlg> PcActorCritic<L> {
    /// What learning from memory changes.
    pub open spec fn sac_view(&self) -> SacView {
        SacView {
            actor: self.actor@,
            q1: self.q1->0@,
            q2: self.q2->0@,
            q1_target: self.q1_target->0@,
            q2_target: self.q2_target->0@,
            log_alpha: self.log_alpha,
            rng: self.rng,
            skipped_critic: self.sac_skipped_critic_updates,
            skipped_actor: self.sac_skipped_actor_updates,
        }
    }

    /// What learning from memory reads and leaves alone.
    pub open spec fn sac_setup(&self) -> SacSetup {
        SacSetup {
            actor: self.actor.config@,
            action_dim: self.action_dim(),
            q1_lr: self.q1->0.config.lr,
            q2_lr: self.q2->0.config.lr,
            gamma: self.config.gamma,
            tau: self.config.polyak_tau,
            target_entropy: self.config.target_entropy,
            alpha_lr: self.config.alpha_lr,
        }
    }

    /// Inference leaves the prediction errors that learning needs.
    pub open spec fn teachable(&self) -> bool {
        pure_backprop::<L>(self.actor.config.local_lambda) || self.actor.config.max_steps > 0
            || self.actor.config@.depth() == 0
    }

    /// The agent has critics, and its parts fit together.
    pub open spec fn has_working_critics(&self) -> bool {
        &&& self.wf()
        &&& self.sac_ready()
        &&& self.q1 is Some
    }

    /// The agent has critics and everything it needs to learn from memory.
    pub open spec fn sac_learns(&self) -> bool {
        self.has_working_critics() && self.teachable()
    }

    /// Nothing else changed.
    pub open spec fn same_but_sac(&self, other: PcActorCritic<L>) -> bool {
        &&& *self == (PcActorCritic {
            actor: self.actor,
            q1: self.q1,
            q2: self.q2,
            q1_target: self.q1_target,
            q2_target: self.q2_target,
            log_alpha: self.log_alpha,
            rng: self.rng,
            sac_skipped_critic_updates: self.sac_skipped_critic_updates,
            sac_skipped_actor_updates: self.sac_skipped_actor_updates,
            ..other
        })
        &&& self.actor.config == other.actor.config
        &&& self.actor.backend == other.actor.backend
        &&& same_settings(self.q1, other.q1)
        &&& same_settings(self.q2, other.q2)
        &&& same_settings(self.q1_target, other.q1_target)
        &&& same_settings(self.q2_target, other.q2_target)
    }

    /// Whether the agent has action-value critics.
    pub fn has_sac_critics(&self) -> (r: bool)
        ensures
            r == self.q1 is Some,
    {
        self.q1.is_some()
    }

    /// The entropy temperature of an agent with action-value critics. It is never
    /// negative.
    pub fn sac_alpha(&self) -> (r: Option<Scalar>)
        ensures
            r == if self.q1 is Some {
                Some(L::exp(self.log_alpha))
            } else {
                None
            },
            r matches Some(alpha) ==> alpha.is_nan() || lit(ZERO).le(alpha),
    {
        if self.q1.is_some() {
            Some(L::r_exp(self.log_alpha))
        } else {
            None
        }
    }

    /// The smaller of the two action values, if there are critics.
    pub fn sac_q_min(&self, state: &[Scalar], action: &[Scalar]) -> (r: Option<Scalar>)
        requires
            self.q1 is Some && self.q2 is Some ==> {
                &&& self.q1->0.wf() && self.q2->0.wf()
                &&& state@.len() == self.q1->0.config.state_dim
                &&& state@.len() == self.q2->0.config.state_dim
                &&& action@.len() == self.q1->0.config.action_dim
                &&& action@.len() == self.q2->0.config.action_dim
            },
        ensures
            r == if self.q1 is Some && self.q2 is Some {
                Some(
                    critic_value::<L>(self.q1->0@, state@ + action@).min(
                        critic_value::<L>(self.q2->0@, state@ + action@),
                    ),
                )
            } else {
                None
            },
    {
        match (&self.q1, &self.q2) {
            (Some(q1), Some(q2)) => {
                let v1 = q1.forward(state, action);
                let v2 = q2.forward(state, action);
                Some(v1.min(v2))
            },
            _ => None,
        }
    }

    /// The gradient of the smaller action value with respect to the action, if
    /// there are critics.
    pub fn sac_action_gradient_min(&self, state: &[Scalar], action: &[Scalar]) -> (r: Option<
        Vec<Scalar>,
    >)
        requires
            self.q1 is Some && self.q2 is Some ==> {
                &&& self.q1->0.wf() && self.q2->0.wf()
                &&& state@.len() == self.q1->0.config.state_dim
                &&& state@.len() == self.q2->0.config.state_dim
                &&& action@.len() == self.q1->0.config.action_dim
                &&& action@.len() == self.q2->0.config.action_dim
            },
        ensures
            match r {
                Some(g) => self.q1 is Some && self.q2 is Some && g@ == min_gradient::<L>(
                    self.q1->0@,
                    self.q2->0@,
                    state@,
                    action@,
                ) && g@.len() == action@.len(),
                None => self.q1 is None || self.q2 is None,
            },
    {
        match (&self.q1, &self.q2) {
            (Some(q1), Some(q2)) => {
                let v1 = q1.forward(state, action);
                let v2 = q2.forward(state, action);
                if v1.le(v2) {
                    Some(q1.action_gradient(state, action))
                } else {
                    Some(q2.action_gradient(state, action))
                }
            },
            _ => None,
        }
    }

    /// Critic updates left out because a number was not finite.
    pub fn sac_skipped_critic_updates(&self) -> (r: u64)
        ensures
            r == self.sac_skipped_critic_updates,
    {
        self.sac_skipped_critic_updates
    }

    /// Actor updates left out because a number was not finite.
    pub fn sac_skipped_actor_updates(&self) -> (r: u64)
        ensures
            r == self.sac_skipped_actor_updates,
    {
        self.sac_skipped_actor_updates
    }

    /// Moves both slow copies towards their live critics. Nothing happens
    /// without critics.
    pub fn polyak_update_targets(&mut self)
        requires
            old(self).q1 is Some ==> can_follow(old(self).q1_target, old(self).q1),
            old(self).q1 is Some ==> can_follow(old(self).q2_target, old(self).q2),
        ensures
            old(self).q1 is None ==> *final(self) == *old(self),
            old(self).q1 is Some ==> {
                let tau = old(self).config.polyak_tau;
                &&& followed(final(self).q1_target, old(self).q1_target, old(self).q1, tau)
                &&& followed(final(self).q2_target, old(self).q2_target, old(self).q2, tau)
                &&& *final(self) == (PcActorCritic {
                    q1_target: final(self).q1_target,
                    q2_target: final(self).q2_target,
                    ..*old(self)
                })
            },
            old(self).has_working_critics() ==> {
                &&& final(self).sac_view() == targets_followed::<L>(
                    old(self).sac_setup(),
                    old(self).sac_view(),
                )
                &&& final(self).same_but_sac(*old(self))
                &&& final(self).has_working_critics()
            },
    {
        if !self.has_sac_critics() {
            return;
        }
        let tau = self.config.polyak_tau;
        match (&mut self.q1_target, &self.q1) {
            (Some(target), Some(live)) => {
                follow(target, live, tau, &self.backend);
            },
            _ => {},
        }
        match (&mut self.q2_target, &self.q2) {
            (Some(target), Some(live)) => {
                follow(target, live, tau, &self.backend);
            },
            _ => {},
        }
    }

    /// Teaches the critics one step of memory.
    fn teach_critics(&mut self, t: &ReplayTransition, batch_len: usize)
        requires
            old(self).has_working_critics(),
            t@.fits(old(self).state_dim(), old(self).action_dim()),
        ensures
            final(self).sac_view() == critics_taught::<L>(
                old(self).sac_setup(),
                old(self).sac_view(),
                t@,
                batch_len as nat,
            ),
            final(self).same_but_sac(*old(self)),
            final(self).actor == old(self).actor,
            final(self).has_working_critics(),
    {
        let ghost setup = self.sac_setup();
        let ghost s = self.sac_view();
        let action_dim: usize = match &self.config.q_critic {
            Some(q) => q.action_dim,
            None => 0,
        };
        let sample = sample_policy(
            &self.actor,
            &self.backend,
            t.next_state.as_slice(),
            action_dim,
            &mut self.rng,
            Ghost(setup),
        );
        let logp = squashed_log_prob::<L>(
            sample.mu.as_slice(),
            sample.log_sigma.as_slice(),
            sample.a_raw.as_slice(),
        );
        let next_state = t.next_state.as_slice();
        let next_action = sample.action.as_slice();
        let q_min = match (&self.q1_target, &self.q2_target) {
            (Some(q1), Some(q2)) => {
                let v1 = q1.forward(next_state, next_action);
                let v2 = q2.forward(next_state, next_action);
                v1.min(v2)
            },
            _ => lit(ZERO),
        };
        let alpha = L::r_exp(self.log_alpha);
        let mask = if t.done {
            lit(ZERO)
        } else {
            lit(ONE)
        };
        let target = L::r_add(
            t.reward,
            L::r_mul(
                L::r_mul(self.config.gamma, mask),
                L::r_sub(q_min, L::r_mul(alpha, logp)),
            ),
        );
        let action = match &t.action {
            Action::Continuous(raw) => deterministic_squashed_action::<L>(raw.as_slice()),
            Action::Discrete(_) => Vec::new(),
        };
        assert(action@ == squashed::<L>(t@.action->Continuous_0));
        if finite::<L>(&sample.action) && finite::<L>(&action) && logp.is_finite()
            && q_min.is_finite() && target.is_finite() {
            let share = L::r_div(lit(ONE), L::r_count(batch_len));
            match &mut self.q1 {
                Some(q1) => {
                    let _ = q1.update_scaled(t.state.as_slice(), action.as_slice(), target, share);
                },
                None => {},
            }
            match &mut self.q2 {
                Some(q2) => {
                    let _ = q2.update_scaled(t.state.as_slice(), action.as_slice(), target, share);
                },
                None => {},
            }
        } else {
            self.sac_skipped_critic_updates = count_up(self.sac_skipped_critic_updates);
        }
    }

    /// Teaches the critics a batch of memories, each with an equal share of the
    /// learning rate.
    pub fn sac_critic_update(&mut self, batch: &[ReplayTransition])
        requires
            old(self).has_working_critics(),
            batch_fits(batch_views(batch@), old(self).state_dim(), old(self).action_dim()),
        ensures
            final(self).sac_view() == critics_taught_upto::<L>(
                old(self).sac_setup(),
                old(self).sac_view(),
                batch_views(batch@),
                batch@.len(),
            ),
            final(self).same_but_sac(*old(self)),
            final(self).actor == old(self).actor,
            final(self).has_working_critics(),
    {
        let n: usize = batch.len();
        let ghost views = batch_views(batch@);
        let mut i: usize = 0;
        while i < n
            invariant
                i <= n,
                n == batch@.len(),
                views == batch_views(batch@),
                batch_fits(views, old(self).state_dim(), old(self).action_dim()),
                self.has_working_critics(),
                self.same_but_sac(*old(self)),
                self.actor == old(self).actor,
                self.sac_view() == critics_taught_upto::<L>(
                    old(self).sac_setup(),
                    old(self).sac_view(),
                    views,
                    i as nat,
                ),
            decreases n - i,
        {
            assert(views[i as int] == batch@[i as int]@);
            self.teach_critics(&batch[i], n);
            i = i + 1;
        }
    }

    /// Teaches the actor one step of memory. Returns the log-density of the
    /// action it sampled, if the step was used.
    fn teach_actor(&mut self, t: &ReplayTransition, batch_len: usize) -> (r: Option<Scalar>)
        requires
            old(self).sac_learns(),
            t@.fits(old(self).state_dim(), old(self).action_dim()),
        ensures
            final(self).same_but_sac(*old(self)),
            final(self).q1 == old(self).q1,
            final(self).q2 == old(self).q2,
            final(self).sac_learns(),
            (final(self).sac_view(), r) == actor_lesson::<L>(
                old(self).sac_setup(),
                old(self).sac_view(),
                t@,
                batch_len as nat,
            ),
    {
        let ghost setup = self.sac_setup();
        let ghost s = self.sac_view();
        let ghost cfg = self.actor.config@;
        let action_dim: usize = match &self.config.q_critic {
            Some(q) => q.action_dim,
            None => 0,
        };
        let state = t.state.as_slice();
        let sample = sample_policy(
            &self.actor,
            &self.backend,
            state,
            action_dim,
            &mut self.rng,
            Ghost(setup),
        );
        let logp = squashed_log_prob::<L>(
            sample.mu.as_slice(),
            sample.log_sigma.as_slice(),
            sample.a_raw.as_slice(),
        );
        let g_a = match self.sac_action_gradient_min(state, sample.action.as_slice()) {
            Some(g) => g,
            None => Vec::new(),
        };
        let eps = noise::<L>(&sample.mu, &sample.log_sigma, &sample.a_raw);
        let alpha = L::r_exp(self.log_alpha);
        let delta = sac_actor_delta::<L>(
            sample.mu.as_slice(),
            sample.log_sigma.as_slice(),
            sample.a_raw.as_slice(),
            eps.as_slice(),
            g_a.as_slice(),
            alpha,
        );
        if logp.is_finite() && finite::<L>(&delta) {
            let share = L::r_div(lit(ONE), L::r_count(batch_len));
            let no_decay: Vec<Scalar> = Vec::new();
            assert(no_decay@ =~= Seq::empty());
            let ghost layers = self.actor@.layers;
            self.actor.update_weights(
                delta.as_slice(),
                &sample.infer,
                state,
                share,
                no_decay.as_slice(),
            );
            proof {
                lemma_fisher_fits_shape(
                    fisher_views(self.actor_fisher@),
                    layers,
                    self.actor@.layers,
                    cfg,
                );
            }
            Some(logp)
        } else {
            self.sac_skipped_actor_updates = count_up(self.sac_skipped_actor_updates);
            None
        }
    }

    /// Teaches the actor a batch of memories, each with an equal share of the
    /// learning rate. Returns the mean log-density of the actions it sampled, if
    /// any step was used.
    pub fn sac_actor_update(&mut self, batch: &[ReplayTransition]) -> (r: Option<Scalar>)
        requires
            old(self).has_working_critics(),
            batch@.len() > 0 ==> old(self).teachable(),
            batch_fits(batch_views(batch@), old(self).state_dim(), old(self).action_dim()),
        ensures
            ({
                let tally = actor_taught_upto::<L>(
                    old(self).sac_setup(),
                    old(self).sac_view(),
                    batch_views(batch@),
                    batch@.len(),
                );
                final(self).sac_view() == tally.s && r == mean_logp::<L>(tally)
            }),
            final(self).same_but_sac(*old(self)),
            final(self).q1 == old(self).q1,
            final(self).q2 == old(self).q2,
            final(self).has_working_critics(),
    {
        let n: usize = batch.len();
        let ghost views = batch_views(batch@);
        let mut logp_sum = lit(ZERO);
        let mut samples: usize = 0;
        let mut i: usize = 0;
        while i < n
            invariant
                i <= n,
                samples <= i,
                n == batch@.len(),
                views == batch_views(batch@),
                batch_fits(views, old(self).state_dim(), old(self).action_dim()),
                self.has_working_critics(),
                n > 0 ==> self.teachable(),
                self.same_but_sac(*old(self)),
                self.q1 == old(self).q1,
                self.q2 == old(self).q2,
                (ActorTally { s: self.sac_view(), logp_sum, samples: samples as nat })
                    == actor_taught_upto::<L>(
                    old(self).sac_setup(),
                    old(self).sac_view(),
                    views,
                    i as nat,
                ),
            decreases n - i,
        {
            assert(views[i as int] == batch@[i as int]@);
            let sampled = self.teach_actor(&batch[i], n);
            match sampled {
                Some(logp) => {
                    logp_sum = L::r_add(logp_sum, logp);
                    samples = samples + 1;
                },
                None => {},
            }
            i = i + 1;
        }
        if samples > 0 {
            Some(L::r_div(logp_sum, L::r_count(samples)))
        } else {
            None
        }
    }

    /// Tunes the temperature towards the entropy goal.
    pub fn sac_temperature_update(&mut self, logp_mean: Scalar)
        requires
            old(self).config.q_critic is Some,
        ensures
            final(self).log_alpha == cooled::<L>(
                old(self).sac_setup(),
                old(self).log_alpha,
                logp_mean,
            ),
            *final(self) == (PcActorCritic { log_alpha: final(self).log_alpha, ..*old(self) }),
    {
        let action_dim: usize = match &self.config.q_critic {
            Some(q) => q.action_dim,
            None => 0,
        };
        let goal = match self.config.target_entropy {
            Some(h) => h,
            None => L::r_count(action_dim).neg(),
        };
        let alpha = L::r_exp(self.log_alpha);
        let grad = L::r_mul(alpha.neg(), L::r_add(logp_mean, goal));
        self.log_alpha = L::r_sub(self.log_alpha, L::r_mul(self.config.alpha_lr, grad));
    }

    /// Whether there are critics and enough memories to learn from.
    pub open spec fn learns_now(&self) -> bool {
        &&& self.q1 is Some
        &&& self.replay_buffer is Some
        &&& self.replay_buffer->0@.all().len() <= usize::MAX
        &&& self.replay_buffer->0@.all().len() >= memories_needed(
            self.config.replay_batch_size,
            self.config.learning_starts,
        )
        &&& self.config.replay_batch_size > 0
    }

    /// Draws a batch of memories.
    fn draw_batch(&mut self, n: usize) -> (batch: Vec<ReplayTransition>)
        requires
            old(self).replay_buffer is Some,
            0 < old(self).replay_buffer->0@.all().len() <= usize::MAX,
        ensures
            (batch_views(batch@), final(self).rng) == batch_draw(
                old(self).rng,
                old(self).replay_buffer->0@.all(),
                n as nat,
            ),
            batch@.len() == n,
            forall|i: int|
                0 <= i < n ==> old(self).replay_buffer->0@.all().contains(
                    #[trigger] batch_views(batch@)[i],
                ),
            *final(self) == (PcActorCritic { rng: final(self).rng, ..*old(self) }),
    {
        let ghost start = self.rng;
        let ghost memory = self.replay_buffer->0@.all();
        let mut batch: Vec<ReplayTransition> = Vec::new();
        assert(batch_views(batch@) =~= Seq::empty());
        match &self.replay_buffer {
            Some(buffer) => {
                let size: usize = buffer.total_len();
                let mut i: usize = 0;
                while i < n
                    invariant
                        i <= n,
                        memory == buffer@.all(),
                        size == memory.len(),
                        size > 0,
                        batch@.len() == i,
                        (batch_views(batch@), self.rng) == batch_draw(start, memory, i as nat),
                        self.replay_buffer == old(self).replay_buffer,
                        *self == (PcActorCritic { rng: self.rng, ..*old(self) }),
                        forall|k: int|
                            0 <= k < i ==> memory.contains(#[trigger] batch_views(batch@)[k]),
                    decreases n - i,
                {
                    let ghost before = batch@;
                    let j: usize = draw_index(&mut self.rng, size as u64) as usize;
                    let t = buffer.get(j).duplicate();
                    batch.push(t);
                    assert(batch_views(batch@) =~= batch_views(before).push(t@));
                    assert(t@ == memory[j as int]);
                    assert forall|k: int| 0 <= k < i + 1 implies memory.contains(
                        #[trigger] batch_views(batch@)[k],
                    ) by {
                        if k < i {
                            assert(batch_views(batch@)[k] == batch_views(before)[k]);
                        }
                    }
                    i = i + 1;
                }
            },
            None => {},
        }
        batch
    }

    /// One learning step from memory: critics, actor, temperature, slow copies.
    /// Nothing happens before there are enough memories.
    pub fn sac_learn_step(&mut self)
        requires
            old(self).q1 is Some ==> old(self).has_working_critics(),
            old(self).learns_now() ==> old(self).teachable(),
        ensures
            !old(self).learns_now() ==> *final(self) == *old(self),
            old(self).learns_now() ==> {
                &&& final(self).sac_view() == sac_step::<L>(
                    old(self).sac_setup(),
                    old(self).sac_view(),
                    old(self).replay_buffer->0@.all(),
                    old(self).config.replay_batch_size as nat,
                )
                &&& final(self).same_but_sac(*old(self))
                &&& final(self).sac_learns()
            },
    {
        if !self.has_sac_critics() {
            return;
        }
        let batch_size: usize = self.config.replay_batch_size;
        let learning_starts: usize = self.config.learning_starts;
        let needed: usize = if batch_size >= learning_starts {
            batch_size
        } else {
            learning_starts
        };
        let enough = match &self.replay_buffer {
            Some(buffer) => batch_size > 0 && buffer.countable() && buffer.total_len() >= needed,
            None => false,
        };
        if !enough {
            return;
        }
        let ghost memory = self.replay_buffer->0@.all();
        let ghost setup = self.sac_setup();
        let ghost s = self.sac_view();
        let batch = self.draw_batch(batch_size);
        let ghost views = batch_views(batch@);
        let ghost after_draw = *self;
        proof {
            lemma_batch_fits(
                self.replay_buffer->0@,
                views,
                self.state_dim(),
                self.action_dim(),
            );
        }
        self.sac_critic_update(batch.as_slice());
        let ghost after_critics = *self;
        let logp = self.sac_actor_update(batch.as_slice());
        match logp {
            Some(logp_mean) => {
                self.sac_temperature_update(logp_mean);
            },
            None => {},
        }
        self.polyak_update_targets();
    }
}

/// Steps taken from a fitting memory fit.
proof fn lemma_batch_fits(
    b: BufferView,
    batch: Seq<TransitionView>,
    state_dim: nat,
    action_dim: nat,
)
    requires
        b.fits(state_dim, action_dim),
        forall|i: int|
            0 <= i < batch.len() ==> b.all().contains(#[trigger] batch[i]),
    ensures
        batch_fits(batch, state_dim, action_dim),
{
    assert forall|i: int| 0 <= i < batch.len() implies (#[trigger] batch[i]).fits(
        state_dim,
        action_dim,
    ) by {
        assert(b.all().contains(batch[i]));
        let j = choose|j: int| 0 <= j < b.all().len() && b.all()[j] == batch[i];
        if j < b.training.len() {
            assert(b.all()[j] == b.training[j]);
        } else {
            assert(b.all()[j] == b.recent[j - b.training.len()]);
        }
    }
}

} // verus!
