//! Learning of the actor: rates, distillation, consolidation and bookkeeping.

use std::collections::VecDeque;
use vstd::prelude::*;

use crate::arith::Arith;
use crate::layer::{layer_views, Layer, LayerView};
use crate::linalg::LinAlg;
use crate::matrix::copy_of;
use crate::mixing::weighted;
use crate::pc_actor::{evidence, InferResult, PcActor};
use crate::pc_actor_critic::agent::{opt_actor, PcActorCritic};
use crate::pc_actor_critic::config::{
    is_replay_floor_sentinel, replay_floor_sentinel, ActionSpace,
};
use crate::pc_actor_critic::distillation::{
    kl_gradient, kl_gradient_of, pulls_towards, sum_upto,
};
use crate::pc_actor_critic::fisher::{consolidate, fisher_fits, fisher_views, FisherView};
use crate::pc_actor_critic::plasticity::{HysteresisState, PlasticityState};
use crate::pc_model::{
    inference, layer_gradient, learned, ActorView, Evidence, PcActorConfigView,
};
use crate::pc_topology::topology_gap;
use crate::scalar::{lit, Scalar, HALF, ONE, ONE_AND_HALF, ZERO};
use crate::stack::{decayed_scale, duplicate_stack};

verus! {

/// Where the experience that an agent learns from comes from.
#[derive(Clone, Copy, Debug, PartialEq, Eq, Structural)]
pub enum LearnMode {
    /// From the step just taken.
    Online,
    /// From memory.
    Replay,
}

/// The mean of a list.
pub open spec fn mean_of<A: Arith>(s: Seq<Scalar>) -> Scalar {
    A::over(sum_upto::<A>(s, s.len()), A::count(s.len()))
}

/// The squared distances of a list from `mean`.
pub open spec fn squared_distances<A: Arith>(s: Seq<Scalar>, mean: Scalar) -> Seq<Scalar> {
    Seq::new(s.len(), |i: int| A::times(A::minus(s[i], mean), A::minus(s[i], mean)))
}

/// Below the first threshold a value is unsurprising, above the second it is
/// surprising: half a standard deviation below, one and a half above the mean.
pub open spec fn adaptive_thresholds<A: Arith>(s: Seq<Scalar>) -> (Scalar, Scalar) {
    let mean = mean_of::<A>(s);
    let std = A::root(mean_of::<A>(squared_distances::<A>(s, mean)));
    (
        A::minus(mean, A::times(lit(HALF), std)).max(lit(ZERO)),
        A::plus(mean, A::times(lit(ONE_AND_HALF), std)),
    )
}

/// The thresholds in force: adaptive ones once ten values are known.
pub open spec fn thresholds<A: Arith>(
    adaptive: bool,
    history: Seq<Scalar>,
    low: Scalar,
    high: Scalar,
) -> (Scalar, Scalar) {
    if adaptive && history.len() >= 10 {
        adaptive_thresholds::<A>(history)
    } else {
        (low, high)
    }
}

/// The factor on the learning rate: the floor up to the lower threshold, the
/// ceiling from the upper one, linear in between.
pub open spec fn rate_scale<A: Arith>(
    x: Scalar,
    low: Scalar,
    high: Scalar,
    floor: Scalar,
    ceil: Scalar,
) -> Scalar {
    if x.le(low) {
        floor
    } else if high.le(x) {
        ceil
    } else {
        A::plus(
            floor,
            A::times(A::over(A::minus(x, low), A::minus(high, low)), A::minus(ceil, floor)),
        )
    }
}

fn deque_sum<A: Arith>(s: &VecDeque<Scalar>) -> (r: Scalar)
    ensures
        r == sum_upto::<A>(s@, s@.len()),
{
    let mut sum = lit(ZERO);
    let mut i: usize = 0;
    while i < s.len()
        invariant
            i <= s@.len(),
            sum == sum_upto::<A>(s@, i as nat),
        decreases s@.len() - i,
    {
        sum = A::r_add(sum, s[i]);
        i = i + 1;
    }
    sum
}

fn deque_squares<A: Arith>(s: &VecDeque<Scalar>, mean: Scalar) -> (r: Scalar)
    ensures
        r == sum_upto::<A>(squared_distances::<A>(s@, mean), s@.len()),
{
    let mut sum = lit(ZERO);
    let mut i: usize = 0;
    while i < s.len()
        invariant
            i <= s@.len(),
            sum == sum_upto::<A>(squared_distances::<A>(s@, mean), i as nat),
        decreases s@.len() - i,
    {
        let d = A::r_sub(s[i], mean);
        sum = A::r_add(sum, A::r_mul(d, d));
        i = i + 1;
    }
    sum
}

/// The factor on the learning rate that `x` earns against its history.
fn scale_against<A: Arith>(
    x: Scalar,
    adaptive: bool,
    history: &VecDeque<Scalar>,
    low: Scalar,
    high: Scalar,
    floor: Scalar,
    ceil: Scalar,
) -> (r: Scalar)
    ensures
        ({
            let t = thresholds::<A>(adaptive, history@, low, high);
            r == rate_scale::<A>(x, t.0, t.1, floor, ceil)
        }),
{
    let (lo, hi) = if adaptive && history.len() >= 10 {
        let n = A::r_count(history.len());
        let mean = A::r_div(deque_sum::<A>(history), n);
        let variance = A::r_div(deque_squares::<A>(history, mean), n);
        assert(squared_distances::<A>(history@, mean).len() == history@.len());
        let std = A::r_sqrt(variance);
        (
            A::r_sub(mean, A::r_mul(lit(HALF), std)).max(lit(ZERO)),
            A::r_add(mean, A::r_mul(lit(ONE_AND_HALF), std)),
        )
    } else {
        (low, high)
    };
    if x.le(lo) {
        floor
    } else if hi.le(x) {
        ceil
    } else {
        let t = A::r_div(A::r_sub(x, lo), A::r_sub(hi, lo));
        A::r_add(floor, A::r_mul(t, A::r_sub(ceil, floor)))
    }
}

/// A bounded history after a value came in: values that are not finite stay
/// out; at capacity the oldest value makes room.
pub open spec fn recorded(history: Seq<Scalar>, x: Scalar, capacity: nat) -> Seq<Scalar> {
    if !x.is_finite() {
        history
    } else if history.len() >= capacity && history.len() > 0 {
        history.skip(1).push(x)
    } else {
        history.push(x)
    }
}

/// A history within its capacity stays within it, and holds finite values only
/// if it did before.
pub proof fn law_history_is_bounded_and_finite(history: Seq<Scalar>, x: Scalar, capacity: nat)
    requires
        capacity > 0,
        history.len() <= capacity,
        forall|i: int| 0 <= i < history.len() ==> (#[trigger] history[i]).is_finite(),
    ensures
        recorded(history, x, capacity).len() <= capacity,
        forall|i: int|
            0 <= i < recorded(history, x, capacity).len() ==> (#[trigger] recorded(
                history,
                x,
                capacity,
            )[i]).is_finite(),
{
}

fn record(history: &mut VecDeque<Scalar>, x: Scalar, capacity: usize)
    ensures
        final(history)@ == recorded(old(history)@, x, capacity as nat),
{
    if !x.is_finite() {
        return;
    }
    if history.len() >= capacity {
        let _ = history.pop_front();
    }
    history.push_back(x);
    assert(history@ =~= recorded(old(history)@, x, capacity as nat));
}

/// Whether a switch has put its network to rest.
pub open spec fn resting(h: Option<HysteresisState>) -> bool {
    h is Some && h->0.state == PlasticityState::Frozen
}

/// How much a layer with running error `e` may still learn.
pub open spec fn adaptive_decay<A: Arith>(e: Scalar, slope: Scalar, threshold: Scalar) -> Scalar {
    let x = A::times(slope.neg(), A::minus(e, threshold));
    A::minus(lit(ONE), A::over(lit(ONE), A::plus(lit(ONE), A::exp(x.neg()))))
}

/// The squares of the first `k` numbers, summed from the left.
pub open spec fn squares_sum_upto<A: Arith>(s: Seq<Scalar>, k: nat) -> Scalar
    decreases k,
{
    if k == 0 {
        lit(ZERO)
    } else {
        A::plus(squares_sum_upto::<A>(s, (k - 1) as nat), A::times(s[k - 1], s[k - 1]))
    }
}

/// The root mean square of a list.
pub open spec fn root_mean_square<A: Arith>(s: Seq<Scalar>) -> Scalar {
    A::root(
        A::over(
            squares_sum_upto::<A>(s, s.len()),
            A::count(
                if s.len() == 0 {
                    1
                } else {
                    s.len()
                },
            ),
        ),
    )
}

/// The root mean square of a list.
fn rms_of<A: Arith>(s: &Vec<Scalar>) -> (r: Scalar)
    ensures
        r == root_mean_square::<A>(s@),
{
    let mut sum = lit(ZERO);
    let mut i: usize = 0;
    while i < s.len()
        invariant
            i <= s.len(),
            sum == squares_sum_upto::<A>(s@, i as nat),
        decreases s.len() - i,
    {
        sum = A::r_add(sum, A::r_mul(s[i], s[i]));
        i = i + 1;
    }
    let n: usize = if s.len() == 0 {
        1
    } else {
        s.len()
    };
    A::r_sqrt(A::r_div(sum, A::r_count(n)))
}

/// Running layer errors after an inference. Prediction errors come from the
/// topmost hidden layer down, running errors from the input upwards.
pub open spec fn layer_errors_after<A: Arith>(
    ema: Seq<Scalar>,
    errors: Seq<Seq<Scalar>>,
    beta: Scalar,
) -> Seq<Scalar> {
    Seq::new(
        ema.len(),
        |i: int|
            if i < errors.len() {
                weighted::<A>(
                    beta,
                    ema[i],
                    A::minus(lit(ONE), beta),
                    root_mean_square::<A>(errors[errors.len() - 1 - i]),
                )
            } else {
                ema[i]
            },
    )
}

/// `d + lambda * g`, entry by entry.
pub open spec fn nudged<A: Arith>(d: Seq<Scalar>, lambda: Scalar, g: Seq<Scalar>) -> Seq<Scalar> {
    Seq::new(d.len(), |i: int| A::plus(d[i], A::times(lambda, g[i])))
}

fn nudge<A: Arith>(d: &Vec<Scalar>, lambda: Scalar, g: &Vec<Scalar>) -> (r: Vec<Scalar>)
    requires
        d@.len() == g@.len(),
    ensures
        r@ == nudged::<A>(d@, lambda, g@),
{
    let mut out: Vec<Scalar> = Vec::new();
    let mut i: usize = 0;
    while i < d.len()
        invariant
            i <= d.len(),
            d@.len() == g@.len(),
            out@ == nudged::<A>(d@, lambda, g@).take(i as int),
        decreases d.len() - i,
    {
        out.push(A::r_add(d[i], A::r_mul(lambda, g[i])));
        i = i + 1;
        assert(out@ =~= nudged::<A>(d@, lambda, g@).take(i as int));
    }
    assert(out@ =~= nudged::<A>(d@, lambda, g@));
    out
}

/// The outputs of a reference policy.
pub open spec fn reference_output<L: LinAlg>(anchor: PcActor<L>, input: Seq<Scalar>) -> Seq<
    Scalar,
> {
    inference::<L>(anchor@, anchor.config@, input).y_conv
}

/// An error signal at the output with the pull of an existing reference.
pub open spec fn distilled<L: LinAlg>(
    delta: Seq<Scalar>,
    anchor: Option<PcActor<L>>,
    lambda: Scalar,
    input: Seq<Scalar>,
    y: Seq<Scalar>,
    valid: Seq<usize>,
    temp: Scalar,
) -> Seq<Scalar> {
    match anchor {
        Some(a) => if lit(ZERO).lt(lambda) {
            nudged::<L>(
                delta,
                lambda,
                kl_gradient::<L>(y, reference_output::<L>(a, input), valid, temp),
            )
        } else {
            delta
        },
        None => delta,
    }
}

/// Every layer of `a` after its consolidation. `before` is the actor from before
/// the weight update.
pub open spec fn consolidated_actor<L: LinAlg>(
    a: ActorView,
    before: ActorView,
    fisher: Seq<FisherView>,
    cfg: PcActorConfigView,
    scale: Scalar,
    decay: Seq<Scalar>,
    ewc_lambda: Scalar,
) -> ActorView {
    ActorView {
        layers: Seq::new(
            a.layers.len(),
            |i: int|
                a.layers[i].consolidated::<L>(
                    before.layers[i],
                    fisher[i],
                    L::times(
                        cfg.lr_weights,
                        decayed_scale::<L>(cfg.depth(), scale, decay, i),
                    ),
                    ewc_lambda,
                ),
        ),
        ..a
    }
}

/// Running importance estimates after an update.
pub open spec fn fisher_after<L: LinAlg>(
    fisher: Seq<FisherView>,
    a: ActorView,
    cfg: PcActorConfigView,
    e: Evidence,
    beta: Scalar,
) -> Seq<FisherView> {
    Seq::new(
        fisher.len(),
        |i: int| fisher[i].observed::<L>(beta, layer_gradient::<L>(a, cfg, e, i)),
    )
}

/// A slow copy after the actor moved: it follows where the actor could move at
/// all and the sizes agree.
pub open spec fn follower_after<L: LinAlg>(
    follower: ActorView,
    actor: ActorView,
    tau: Scalar,
    scale: Scalar,
) -> ActorView {
    if lit(ZERO).lt(scale) && topology_gap(follower, actor) is None && !tau.num_eq(lit(ZERO)) {
        follower.polyak::<L>(actor, tau)
    } else {
        follower
    }
}

impl<L: LinAlg> PcActorCritic<L> {
    /// The factor on the learning rate for a surprise score.
    pub open spec fn scale_for_surprise(&self, surprise: Scalar) -> Scalar {
        let t = thresholds::<L>(
            self.config.adaptive_surprise,
            self.surprise_buffer@,
            self.config.surprise_low,
            self.config.surprise_high,
        );
        rate_scale::<L>(surprise, t.0, t.1, self.config.scale_floor, self.config.scale_ceil)
    }

    /// The factor on the critic's learning rate for a value error.
    pub open spec fn scale_for_td_error(&self, td_error: Scalar) -> Scalar {
        let t = thresholds::<L>(
            self.config.adaptive_surprise,
            self.td_error_buffer@,
            self.config.surprise_low,
            self.config.surprise_high,
        );
        rate_scale::<L>(td_error, t.0, t.1, self.config.scale_floor, self.config.scale_ceil)
    }

    /// The factor on the actor's learning rate: one in a continuous agent, a
    /// floor while the actor rests, and what the surprise earns otherwise.
    pub open spec fn actor_scale(&self, surprise: Scalar, mode: LearnMode) -> Scalar {
        if self.config.action_space == ActionSpace::Continuous {
            lit(ONE)
        } else if resting(self.actor_hysteresis) {
            if mode == LearnMode::Replay && !replay_floor_sentinel::<L>(
                self.config.scale_floor_replay,
            ) {
                self.config.scale_floor_replay
            } else {
                self.config.scale_floor
            }
        } else {
            self.scale_for_surprise(surprise)
        }
    }

    /// The decay of the actor's learning rate per hidden layer.
    pub open spec fn actor_decay(&self) -> Seq<Scalar> {
        if self.config.adaptive_consolidation {
            Seq::new(
                self.layer_error_ema@.len(),
                |i: int|
                    adaptive_decay::<L>(
                        self.layer_error_ema@[i],
                        self.config.consolidation_sigmoid_k,
                        self.config.consolidation_error_threshold,
                    ),
            )
        } else {
            self.actor_decay_factors@
        }
    }

    /// Whether references pull on the actor: there must be a choice of actions,
    /// and the actor must not rest, unless a positive replay floor wakes it.
    pub open spec fn distils(&self, choices: nat, mode: LearnMode) -> bool {
        choices > 1 && (!resting(self.actor_hysteresis) || (mode == LearnMode::Replay && lit(
            ZERO,
        ).lt(self.config.scale_floor_replay)))
    }

    /// The error signal at the output with the pull of both references.
    pub open spec fn pulled_delta(
        &self,
        delta: Seq<Scalar>,
        input: Seq<Scalar>,
        y: Seq<Scalar>,
        valid: Seq<usize>,
        mode: LearnMode,
    ) -> Seq<Scalar> {
        if self.distils(valid.len(), mode) {
            let temp = self.actor.config.temperature;
            let once = distilled::<L>(
                delta,
                self.polyak_target,
                self.config.distillation_lambda_polyak,
                input,
                y,
                valid,
                temp,
            );
            distilled::<L>(
                once,
                self.frozen_champion,
                self.config.distillation_lambda_frozen,
                input,
                y,
                valid,
                temp,
            )
        } else {
            delta
        }
    }

    /// Whether an update is consolidated.
    pub open spec fn consolidates(&self, mode: LearnMode) -> bool {
        mode == LearnMode::Online && lit(ZERO).lt(self.config.ewc_lambda)
            && self.actor_fisher@.len() > 0
    }

    /// What the actor learns from.
    pub open spec fn actor_evidence(
        &self,
        delta: Seq<Scalar>,
        infer: InferResult<L>,
        input: Seq<Scalar>,
        y: Seq<Scalar>,
        valid: Seq<usize>,
        mode: LearnMode,
    ) -> Evidence {
        evidence::<L>(
            self.pulled_delta(delta, input, y, valid, mode),
            infer@,
            input,
            self.actor_scale(infer.surprise_score, mode),
            self.actor.config.local_lambda,
            self.actor_decay(),
        )
    }

    /// The actor after it learned from `e`.
    pub open spec fn actor_after(&self, e: Evidence, mode: LearnMode) -> ActorView {
        let trained = learned::<L>(self.actor@, self.actor.config@, e);
        if self.consolidates(mode) {
            consolidated_actor::<L>(
                trained,
                self.actor@,
                fisher_after::<L>(
                    fisher_views(self.actor_fisher@),
                    self.actor@,
                    self.actor.config@,
                    e,
                    self.config.fisher_ema_beta,
                ),
                self.actor.config@,
                e.surprise_scale,
                e.decay_factors,
                self.config.ewc_lambda,
            )
        } else {
            trained
        }
    }

    /// The factor on the learning rate for a surprise score.
    pub fn surprise_scale(&self, surprise: Scalar) -> (r: Scalar)
        ensures
            r == self.scale_for_surprise(surprise),
    {
        scale_against::<L>(
            surprise,
            self.config.adaptive_surprise,
            &self.surprise_buffer,
            self.config.surprise_low,
            self.config.surprise_high,
            self.config.scale_floor,
            self.config.scale_ceil,
        )
    }

    /// The factor on the critic's learning rate for a value error.
    pub fn critic_surprise_scale(&self, td_error: Scalar) -> (r: Scalar)
        ensures
            r == self.scale_for_td_error(td_error),
    {
        scale_against::<L>(
            td_error,
            self.config.adaptive_surprise,
            &self.td_error_buffer,
            self.config.surprise_low,
            self.config.surprise_high,
            self.config.scale_floor,
            self.config.scale_ceil,
        )
    }

    /// Remembers a surprise score.
    fn push_surprise(&mut self, surprise: Scalar)
        ensures
            final(self).surprise_buffer@ == recorded(
                old(self).surprise_buffer@,
                surprise,
                old(self).config.surprise_buffer_size as nat,
            ),
            *final(self) == (PcActorCritic {
                surprise_buffer: final(self).surprise_buffer,
                ..*old(self)
            }),
    {
        let capacity: usize = self.config.surprise_buffer_size;
        record(&mut self.surprise_buffer, surprise, capacity);
    }

    /// Remembers an absolute value error.
    fn push_td_error(&mut self, td_error: Scalar)
        ensures
            final(self).td_error_buffer@ == recorded(
                old(self).td_error_buffer@,
                td_error,
                old(self).config.surprise_buffer_size as nat,
            ),
            *final(self) == (PcActorCritic {
                td_error_buffer: final(self).td_error_buffer,
                ..*old(self)
            }),
    {
        let capacity: usize = self.config.surprise_buffer_size;
        record(&mut self.td_error_buffer, td_error, capacity);
    }

    /// Whether the actor rests.
    fn is_actor_frozen(&self) -> (r: bool)
        ensures
            r == resting(self.actor_hysteresis),
    {
        match &self.actor_hysteresis {
            Some(h) => h.state == PlasticityState::Frozen,
            None => false,
        }
    }

    /// The factor on the actor's learning rate.
    pub fn effective_actor_scale_for_mode(&self, surprise: Scalar, mode: LearnMode) -> (r: Scalar)
        ensures
            r == self.actor_scale(surprise, mode),
    {
        if self.config.action_space == ActionSpace::Continuous {
            return lit(ONE);
        }
        if self.is_actor_frozen() {
            match mode {
                LearnMode::Online => self.config.scale_floor,
                LearnMode::Replay => {
                    if is_replay_floor_sentinel::<L>(self.config.scale_floor_replay) {
                        self.config.scale_floor
                    } else {
                        self.config.scale_floor_replay
                    }
                },
            }
        } else {
            self.surprise_scale(surprise)
        }
    }

    /// Whether replay lets references pull on a resting actor.
    fn replay_bypasses_hysteresis(&self) -> (r: bool)
        ensures
            r == lit(ZERO).lt(self.config.scale_floor_replay),
    {
        lit(ZERO).lt(self.config.scale_floor_replay)
    }

    /// The decay of the actor's learning rate per hidden layer.
    pub fn effective_actor_decay(&self) -> (r: Vec<Scalar>)
        ensures
            r@ == self.actor_decay(),
    {
        if !self.config.adaptive_consolidation {
            return copy_of(self.actor_decay_factors.as_slice());
        }
        let mut out: Vec<Scalar> = Vec::new();
        let mut i: usize = 0;
        while i < self.layer_error_ema.len()
            invariant
                i <= self.layer_error_ema.len(),
                self.config.adaptive_consolidation,
                out@ == self.actor_decay().take(i as int),
            decreases self.layer_error_ema.len() - i,
        {
            let e = self.layer_error_ema[i];
            let x = L::r_mul(
                self.config.consolidation_sigmoid_k.neg(),
                L::r_sub(e, self.config.consolidation_error_threshold),
            );
            let sigmoid = L::r_div(lit(ONE), L::r_add(lit(ONE), L::r_exp(x.neg())));
            out.push(L::r_sub(lit(ONE), sigmoid));
            i = i + 1;
            assert(out@ =~= self.actor_decay().take(i as int));
        }
        assert(out@ =~= self.actor_decay());
        out
    }

    /// The gradient of the divergence of the actor from `target`.
    fn compute_kl_gradient(
        &self,
        target: &PcActor<L>,
        input: &[Scalar],
        y_conv: &[Scalar],
        valid_actions: &[usize],
    ) -> (r: Vec<Scalar>)
        requires
            target.wf(),
            input@.len() == target.config.input_size,
            y_conv@.len() == target.config.output_size,
            forall|i: int|
                0 <= i < valid_actions@.len() ==> #[trigger] valid_actions@[i] < y_conv@.len(),
        ensures
            r@ == kl_gradient::<L>(
                y_conv@,
                reference_output::<L>(*target, input@),
                valid_actions@,
                self.actor.config.temperature,
            ),
            pulls_towards(
                r@,
                y_conv@,
                reference_output::<L>(*target, input@),
                valid_actions@,
            ),
    {
        let inferred = target.infer(input);
        let reference = self.backend.vec_to_vec(&inferred.y_conv);
        kl_gradient_of::<L>(
            y_conv,
            reference.as_slice(),
            valid_actions,
            self.actor.config.temperature,
        )
    }

    /// The gradient of the divergence from the slow copy.
    fn compute_kl_polyak_gradient(
        &self,
        input: &[Scalar],
        y_conv: &[Scalar],
        valid_actions: &[usize],
    ) -> (r: Vec<Scalar>)
        requires
            self.wf(),
            self.polyak_target is Some,
            input@.len() == self.actor.config.input_size,
            y_conv@.len() == self.actor.config.output_size,
            forall|i: int|
                0 <= i < valid_actions@.len() ==> #[trigger] valid_actions@[i] < y_conv@.len(),
        ensures
            r@ == kl_gradient::<L>(
                y_conv@,
                reference_output::<L>(self.polyak_target->0, input@),
                valid_actions@,
                self.actor.config.temperature,
            ),
            pulls_towards(
                r@,
                y_conv@,
                reference_output::<L>(self.polyak_target->0, input@),
                valid_actions@,
            ),
    {
        match &self.polyak_target {
            Some(target) => self.compute_kl_gradient(target, input, y_conv, valid_actions),
            None => Vec::new(),
        }
    }

    /// The gradient of the divergence from the frozen champion.
    fn compute_kl_frozen_gradient(
        &self,
        input: &[Scalar],
        y_conv: &[Scalar],
        valid_actions: &[usize],
    ) -> (r: Vec<Scalar>)
        requires
            self.wf(),
            self.frozen_champion is Some,
            input@.len() == self.actor.config.input_size,
            y_conv@.len() == self.actor.config.output_size,
            forall|i: int|
                0 <= i < valid_actions@.len() ==> #[trigger] valid_actions@[i] < y_conv@.len(),
        ensures
            r@ == kl_gradient::<L>(
                y_conv@,
                reference_output::<L>(self.frozen_champion->0, input@),
                valid_actions@,
                self.actor.config.temperature,
            ),
            pulls_towards(
                r@,
                y_conv@,
                reference_output::<L>(self.frozen_champion->0, input@),
                valid_actions@,
            ),
    {
        match &self.frozen_champion {
            Some(target) => self.compute_kl_gradient(target, input, y_conv, valid_actions),
            None => Vec::new(),
        }
    }

    /// The error signal at the output with the pull of both references.
    fn pull_delta(
        &self,
        delta: &[Scalar],
        input: &[Scalar],
        y_conv: &[Scalar],
        valid_actions: &[usize],
        mode: LearnMode,
    ) -> (r: Vec<Scalar>)
        requires
            self.wf(),
            delta@.len() == self.actor.config.output_size,
            input@.len() == self.actor.config.input_size,
            y_conv@.len() == self.actor.config.output_size,
            forall|i: int|
                0 <= i < valid_actions@.len() ==> #[trigger] valid_actions@[i] < y_conv@.len(),
        ensures
            r@ == self.pulled_delta(delta@, input@, y_conv@, valid_actions@, mode),
            r@.len() == delta@.len(),
    {
        let replay_opt_in = mode == LearnMode::Replay && self.replay_bypasses_hysteresis();
        let mut out = copy_of(delta);
        if valid_actions.len() <= 1 || (self.is_actor_frozen() && !replay_opt_in) {
            return out;
        }
        if lit(ZERO).lt(self.config.distillation_lambda_polyak) && self.polyak_target.is_some() {
            let g = self.compute_kl_polyak_gradient(input, y_conv, valid_actions);
            out = nudge::<L>(&out, self.config.distillation_lambda_polyak, &g);
        }
        if lit(ZERO).lt(self.config.distillation_lambda_frozen) && self.frozen_champion.is_some() {
            let g = self.compute_kl_frozen_gradient(input, y_conv, valid_actions);
            out = nudge::<L>(&out, self.config.distillation_lambda_frozen, &g);
        }
        out
    }

    /// Takes the gradients of an update into the running importance estimates.
    fn accumulate_actor_fisher_ema(
        &mut self,
        output_delta: &[Scalar],
        infer: &InferResult<L>,
        Ghost(e): Ghost<Evidence>,
    )
        requires
            old(self).actor.wf(),
            e.wf::<L>(old(self).actor.config@),
            e.output_delta == output_delta@,
            e.inferred == infer@,
            e.lambda == old(self).actor.config.local_lambda,
            fisher_fits(fisher_views(old(self).actor_fisher@), old(self).actor@.layers),
            old(self).actor_fisher@.len() > 0,
        ensures
            fisher_views(final(self).actor_fisher@) == fisher_after::<L>(
                fisher_views(old(self).actor_fisher@),
                old(self).actor@,
                old(self).actor.config@,
                e,
                old(self).config.fisher_ema_beta,
            ),
            fisher_fits(fisher_views(final(self).actor_fisher@), old(self).actor@.layers),
            *final(self) == (PcActorCritic {
                actor_fisher: final(self).actor_fisher,
                ..*old(self)
            }),
    {
        let ghost start = fisher_views(self.actor_fisher@);
        let ghost a = self.actor@;
        let ghost cfg = self.actor.config@;
        let grads = self.actor.layer_gradients(output_delta, infer, Ghost(e));
        let beta = self.config.fisher_ema_beta;
        let n: usize = self.actor_fisher.len();
        let mut i: usize = 0;
        while i < n
            invariant
                i <= n,
                n == self.actor_fisher@.len(),
                n == start.len(),
                n == cfg.depth() + 1,
                n == a.layers.len(),
                a == old(self).actor@,
                cfg == old(self).actor.config@,
                beta == old(self).config.fisher_ema_beta,
                fisher_fits(start, a.layers),
                cfg.shape().fits(a.layers),
                grads@.len() == n,
                forall|k: int|
                    #![trigger grads@[k]]
                    0 <= k < n ==> {
                        &&& L::vec_view(grads@[k]) == layer_gradient::<L>(
                            a,
                            cfg,
                            e,
                            cfg.depth() - k,
                        )
                        &&& L::vec_view(grads@[k]).len() == a.layers[cfg.depth() - k].outputs()
                    },
                *self == (PcActorCritic { actor_fisher: self.actor_fisher, ..*old(self) }),
                forall|k: int|
                    0 <= k < i ==> (#[trigger] self.actor_fisher@[k])@ == start[k].observed::<L>(
                        beta,
                        layer_gradient::<L>(a, cfg, e, k),
                    ),
                forall|k: int| i <= k < n ==> (#[trigger] self.actor_fisher@[k])@ == start[k],
            decreases n - i,
        {
            assert(self.actor_fisher@[i as int]@ == start[i as int]);
            assert(start[i as int].fits(a.layers[i as int]));
            assert(a.layers[i as int].wf());
            assert(L::vec_view(grads@[n - 1 - i]) == layer_gradient::<L>(a, cfg, e, i as int));
            self.actor_fisher[i].observe(&self.backend, beta, &grads[n - 1 - i]);
            i = i + 1;
        }
        let ghost done = fisher_views(self.actor_fisher@);
        assert(done =~= fisher_after::<L>(start, a, cfg, e, beta));
        assert forall|k: int| #![trigger done[k]] 0 <= k < done.len() implies done[k].fits(
            a.layers[k],
        ) by {
            assert(start[k].fits(a.layers[k]));
        }
    }

    /// Pulls every layer of the actor towards its snapshot. `before` holds the
    /// layers from before the weight update.
    fn apply_actor_ewc_correction(
        &mut self,
        before: &Vec<Layer<L>>,
        surprise_scale: Scalar,
        decay_factors: &[Scalar],
        Ghost(start): Ghost<ActorView>,
    )
        requires
            old(self).actor.wf(),
            layer_views(before@) == start.layers,
            old(self).actor.config@.shape().fits(start.layers),
            fisher_fits(fisher_views(old(self).actor_fisher@), start.layers),
            old(self).actor_fisher@.len() > 0,
            decay_factors@.len() == 0 || decay_factors@.len() >= old(self).actor.config@.depth(),
        ensures
            final(self).actor@ == consolidated_actor::<L>(
                old(self).actor@,
                start,
                fisher_views(old(self).actor_fisher@),
                old(self).actor.config@,
                surprise_scale,
                decay_factors@,
                old(self).config.ewc_lambda,
            ),
            final(self).actor.wf(),
            final(self).actor.config == old(self).actor.config,
            final(self).actor.backend == old(self).actor.backend,
            *final(self) == (PcActorCritic { actor: final(self).actor, ..*old(self) }),
    {
        let ghost trained = self.actor@;
        let ghost cfg = self.actor.config@;
        let ghost fisher = fisher_views(self.actor_fisher@);
        let ghost target = consolidated_actor::<L>(
            trained,
            start,
            fisher,
            cfg,
            surprise_scale,
            decay_factors@,
            self.config.ewc_lambda,
        );
        let n_hidden: usize = self.actor.config.hidden_layers.len();
        let n: usize = self.actor.layers.len();
        let lr = self.actor.config.lr_weights;
        let ewc_lambda = self.config.ewc_lambda;
        let mut i: usize = 0;
        while i < n
            invariant
                i <= n,
                n == trained.layers.len(),
                n == self.actor.layers@.len(),
                n == before@.len(),
                n == fisher.len(),
                n == n_hidden + 1,
                n_hidden == cfg.depth(),
                cfg == old(self).actor.config@,
                lr == cfg.lr_weights,
                ewc_lambda == old(self).config.ewc_lambda,
                layer_views(before@) == start.layers,
                cfg.shape().fits(start.layers),
                cfg.shape().fits(trained.layers),
                fisher == fisher_views(old(self).actor_fisher@),
                fisher_fits(fisher, start.layers),
                decay_factors@.len() == 0 || decay_factors@.len() >= n_hidden,
                target == consolidated_actor::<L>(
                    trained,
                    start,
                    fisher,
                    cfg,
                    surprise_scale,
                    decay_factors@,
                    ewc_lambda,
                ),
                *self == (PcActorCritic { actor: self.actor, ..*old(self) }),
                self.actor == (PcActor { layers: self.actor.layers, ..old(self).actor }),
                cfg.shape().fits(self.actor@.layers),
                forall|k: int| 0 <= k < i ==> #[trigger] self.actor@.layers[k] == target.layers[k],
                forall|k: int| i <= k < n ==> #[trigger] self.actor@.layers[k] == trained.layers[k],
            decreases n - i,
        {
            let ghost layers_before = self.actor.layers@;
            let layer_surprise = if i < n_hidden && decay_factors.len() > 0 {
                L::r_mul(surprise_scale, decay_factors[i])
            } else {
                surprise_scale
            };
            let rate = L::r_mul(lr, layer_surprise);
            assert(self.actor@.layers[i as int] == self.actor.layers@[i as int]@);
            assert(self.actor@.layers[i as int] == trained.layers[i as int]);
            assert(start.layers[i as int] == before@[i as int]@);
            assert(fisher[i as int] == self.actor_fisher@[i as int]@);
            assert(fisher[i as int].fits(start.layers[i as int]));
            consolidate(
                &self.backend,
                &mut self.actor.layers[i],
                &before[i],
                &self.actor_fisher[i],
                rate,
                ewc_lambda,
            );
            assert(self.actor@.layers =~= layer_views(layers_before).update(
                i as int,
                self.actor.layers@[i as int]@,
            ));
            assert(self.actor@.layers[i as int] == target.layers[i as int]);
            i = i + 1;
        }
        assert(self.actor@.layers =~= target.layers);
        assert(self.actor@ =~= target);
    }

    /// Updates the running layer errors.
    fn update_layer_errors(&mut self, infer: &InferResult<L>)
        ensures
            final(self).layer_error_ema@ == layer_errors_after::<L>(
                old(self).layer_error_ema@,
                infer@.prediction_errors,
                old(self).config.consolidation_ema_beta,
            ),
            *final(self) == (PcActorCritic {
                layer_error_ema: final(self).layer_error_ema,
                ..*old(self)
            }),
    {
        let ghost start = self.layer_error_ema@;
        let beta = self.config.consolidation_ema_beta;
        let rest = L::r_sub(lit(ONE), beta);
        let ghost target = layer_errors_after::<L>(start, infer@.prediction_errors, beta);
        let mut out: Vec<Scalar> = Vec::new();
        let mut i: usize = 0;
        while i < self.layer_error_ema.len()
            invariant
                i <= self.layer_error_ema.len(),
                start == self.layer_error_ema@,
                *self == *old(self),
                rest == L::minus(lit(ONE), beta),
                target == layer_errors_after::<L>(start, infer@.prediction_errors, beta),
                out@ == target.take(i as int),
            decreases self.layer_error_ema.len() - i,
        {
            let n: usize = infer.prediction_errors.len();
            if i < n {
                assert(infer@.prediction_errors[n - 1 - i] == L::vec_view(
                    infer.prediction_errors@[n - 1 - i],
                ));
                let v = self.backend.vec_to_vec(&infer.prediction_errors[n - 1 - i]);
                let rms = rms_of::<L>(&v);
                out.push(
                    L::r_add(L::r_mul(beta, self.layer_error_ema[i]), L::r_mul(rest, rms)),
                );
            } else {
                out.push(self.layer_error_ema[i]);
            }
            i = i + 1;
            assert(out@ =~= target.take(i as int));
        }
        assert(out@ =~= target);
        self.layer_error_ema = out;
    }

    /// Lets the actor learn from the error signal `delta` at its output and
    /// keeps the books: references, importance estimates, slow copy, layer
    /// errors and histories. Returns `loss`.
    #[verifier::rlimit(60)]
    #[verifier::spinoff_prover]
    pub fn apply_actor_update_and_bookkeeping(
        &mut self,
        delta: &[Scalar],
        infer: &InferResult<L>,
        input: &[Scalar],
        y_conv: &[Scalar],
        valid_actions: &[usize],
        td_error: Scalar,
        loss: Scalar,
        mode: LearnMode,
    ) -> (r: Scalar)
        requires
            old(self).wf(),
            delta@.len() == old(self).actor.config.output_size,
            y_conv@.len() == old(self).actor.config.output_size,
            forall|i: int|
                0 <= i < valid_actions@.len() ==> #[trigger] valid_actions@[i] < y_conv@.len(),
            old(self).actor_evidence(delta@, *infer, input@, y_conv@, valid_actions@, mode).wf::<
                L,
            >(old(self).actor.config@),
        ensures
            r == loss,
            ({
                let e = old(self).actor_evidence(
                    delta@,
                    *infer,
                    input@,
                    y_conv@,
                    valid_actions@,
                    mode,
                );
                &&& final(self).actor@ == old(self).actor_after(e, mode)
                &&& final(self).actor.config == old(self).actor.config
                &&& final(self).actor.backend == old(self).actor.backend
                &&& fisher_views(final(self).actor_fisher@) == if old(self).consolidates(mode) {
                    fisher_after::<L>(
                        fisher_views(old(self).actor_fisher@),
                        old(self).actor@,
                        old(self).actor.config@,
                        e,
                        old(self).config.fisher_ema_beta,
                    )
                } else {
                    fisher_views(old(self).actor_fisher@)
                }
                &&& opt_actor(final(self).polyak_target) == match old(self).polyak_target {
                    Some(p) => Some(
                        follower_after::<L>(
                            p@,
                            old(self).actor_after(e, mode),
                            old(self).config.polyak_tau,
                            e.surprise_scale,
                        ),
                    ),
                    None => None,
                }
            }),
            final(self).layer_error_ema@ == if old(self).config.adaptive_consolidation {
                layer_errors_after::<L>(
                    old(self).layer_error_ema@,
                    infer@.prediction_errors,
                    old(self).config.consolidation_ema_beta,
                )
            } else {
                old(self).layer_error_ema@
            },
            final(self).surprise_buffer@ == if old(self).config.adaptive_surprise {
                recorded(
                    old(self).surprise_buffer@,
                    infer.surprise_score,
                    old(self).config.surprise_buffer_size as nat,
                )
            } else {
                old(self).surprise_buffer@
            },
            mode == LearnMode::Online ==> final(self).last_td_error == td_error
                && final(self).td_error_buffer@ == recorded(
                old(self).td_error_buffer@,
                td_error.abs(),
                old(self).config.surprise_buffer_size as nat,
            ),
            mode == LearnMode::Replay ==> final(self).last_td_error == old(self).last_td_error
                && final(self).td_error_buffer == old(self).td_error_buffer,
            *final(self) == (PcActorCritic {
                actor: final(self).actor,
                actor_fisher: final(self).actor_fisher,
                polyak_target: final(self).polyak_target,
                layer_error_ema: final(self).layer_error_ema,
                surprise_buffer: final(self).surprise_buffer,
                last_td_error: final(self).last_td_error,
                td_error_buffer: final(self).td_error_buffer,
                ..*old(self)
            }),
            final(self).wf(),
    {
        let ghost e = self.actor_evidence(delta@, *infer, input@, y_conv@, valid_actions@, mode);
        let ghost start = self.actor@;
        let ghost cfg = self.actor.config@;
        let s_scale = self.effective_actor_scale_for_mode(infer.surprise_score, mode);
        let actor_decay = self.effective_actor_decay();
        let pulled = self.pull_delta(delta, input, y_conv, valid_actions, mode);

        if mode == LearnMode::Online && lit(ZERO).lt(self.config.ewc_lambda)
            && self.actor_fisher.len() > 0 {
            self.accumulate_actor_fisher_ema(pulled.as_slice(), infer, Ghost(e));
            let before = duplicate_stack(&self.actor.layers);
            self.actor.update_weights(
                pulled.as_slice(),
                infer,
                input,
                s_scale,
                actor_decay.as_slice(),
            );
            self.apply_actor_ewc_correction(
                &before,
                s_scale,
                actor_decay.as_slice(),
                Ghost(start),
            );
        } else {
            self.actor.update_weights(
                pulled.as_slice(),
                infer,
                input,
                s_scale,
                actor_decay.as_slice(),
            );
        }
        assert(self.actor@ == old(self).actor_after(e, mode));
        proof {
            lemma_fisher_fits_shape(
                fisher_views(self.actor_fisher@),
                start.layers,
                self.actor@.layers,
                cfg,
            );
        }
        if lit(ZERO).lt(s_scale) {
            match &mut self.polyak_target {
                Some(polyak) => {
                    let _ = polyak.polyak_update_from(&self.actor, self.config.polyak_tau);
                },
                None => {},
            }
        }
        if self.config.adaptive_consolidation {
            self.update_layer_errors(infer);
        }
        if self.config.adaptive_surprise {
            self.push_surprise(infer.surprise_score);
        }
        if mode == LearnMode::Online {
            self.last_td_error = td_error;
            self.push_td_error(td_error.abs());
        }
        loss
    }
}

/// Importance estimates that fit one stack fit every stack of its shape.
pub proof fn lemma_fisher_fits_shape(
    fisher: Seq<FisherView>,
    a: Seq<LayerView>,
    b: Seq<LayerView>,
    cfg: PcActorConfigView,
)
    requires
        fisher_fits(fisher, a),
        cfg.shape().fits(a),
        cfg.shape().fits(b),
    ensures
        fisher_fits(fisher, b),
{
    if fisher.len() > 0 {
        assert forall|k: int| #![trigger fisher[k]] 0 <= k < fisher.len() implies fisher[k].fits(
            b[k],
        ) by {
            assert(fisher[k].fits(a[k]));
            assert(a[k].inputs() == b[k].inputs());
            assert(a[k].wf() && b[k].wf());
        }
    }
}

} // verus!
