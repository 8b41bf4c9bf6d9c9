//! The squashed Gaussian policy.

use rand::rngs::StdRng;
use vstd::prelude::*;

use crate::arith::Arith;
use crate::scalar::{lit, Scalar, EPSILON, HALF, ONE, PI, TWO, ZERO};

verus! {

/// Least log standard deviation: `-5.0`.
pub const LOG_SIG_MIN: u64 = 0xC014_0000_0000_0000;

/// Largest log standard deviation: `2.0`.
pub const LOG_SIG_MAX: u64 = 0x4000_0000_0000_0000;

/// Keeps the logarithm of the squashing slope finite: `1e-6`.
pub const SQUASH_JAC_EPS: u64 = 0x3EB0_C6F7_A0B5_ED8D;

/// Largest magnitude of a warm-up action: `0.999`.
pub const WARMUP_BOUND: u64 = 0x3FEF_F7CE_D916_872B;

/// `log(2 * pi) / 2`
pub open spec fn half_log_two_pi<A: Arith>() -> Scalar {
    A::times(lit(HALF), A::log(A::times(lit(TWO), lit(PI))))
}

/// The slope of squashing at `t`, the squashed value.
pub open spec fn squash_slope<A: Arith>(t: Scalar) -> Scalar {
    A::minus(lit(ONE), A::times(t, t))
}

/// The log-density of the first `k` components of `a_raw` after squashing.
pub open spec fn log_prob_upto<A: Arith>(
    mu: Seq<Scalar>,
    log_sigma: Seq<Scalar>,
    a_raw: Seq<Scalar>,
    k: nat,
) -> Scalar
    decreases k,
{
    if k == 0 {
        lit(ZERO)
    } else {
        let j = k - 1;
        let z = A::over(A::minus(a_raw[j], mu[j]), A::exp(log_sigma[j]));
        let gaussian = A::minus(
            A::minus(A::times(A::times(lit(HALF).neg(), z), z), log_sigma[j]),
            half_log_two_pi::<A>(),
        );
        A::minus(
            A::plus(log_prob_upto::<A>(mu, log_sigma, a_raw, (k - 1) as nat), gaussian),
            A::log(A::plus(squash_slope::<A>(A::tanh(a_raw[j])), lit(SQUASH_JAC_EPS))),
        )
    }
}

/// The log-density of the squashed action `tanh(a_raw)`.
pub open spec fn log_prob<A: Arith>(
    mu: Seq<Scalar>,
    log_sigma: Seq<Scalar>,
    a_raw: Seq<Scalar>,
) -> Scalar {
    log_prob_upto::<A>(mu, log_sigma, a_raw, mu.len())
}

/// The log-density of the squashed action `tanh(a_raw)`.
pub fn squashed_log_prob<A: Arith>(
    mu_raw: &[Scalar],
    log_sigma: &[Scalar],
    a_raw: &[Scalar],
) -> (r: Scalar)
    requires
        log_sigma@.len() >= mu_raw@.len(),
        a_raw@.len() >= mu_raw@.len(),
    ensures
        r == log_prob::<A>(mu_raw@, log_sigma@, a_raw@),
{
    let half_log_2pi = A::r_mul(lit(HALF), A::r_ln(A::r_mul(lit(TWO), lit(PI))));
    let mut lp = lit(ZERO);
    let mut j: usize = 0;
    while j < mu_raw.len()
        invariant
            j <= mu_raw.len(),
            log_sigma@.len() >= mu_raw@.len(),
            a_raw@.len() >= mu_raw@.len(),
            half_log_2pi == half_log_two_pi::<A>(),
            lp == log_prob_upto::<A>(mu_raw@, log_sigma@, a_raw@, j as nat),
        decreases mu_raw.len() - j,
    {
        let s = log_sigma[j];
        let z = A::r_div(A::r_sub(a_raw[j], mu_raw[j]), A::r_exp(s));
        let gaussian = A::r_sub(
            A::r_sub(A::r_mul(A::r_mul(lit(HALF).neg(), z), z), s),
            half_log_2pi,
        );
        lp = A::r_add(lp, gaussian);
        let t = A::r_tanh(a_raw[j]);
        let jac = A::r_sub(lit(ONE), A::r_mul(t, t));
        lp = A::r_sub(lp, A::r_ln(A::r_add(jac, lit(SQUASH_JAC_EPS))));
        j = j + 1;
    }
    lp
}

/// The entropy part of the descent direction on one component's mean.
pub open spec fn entropy_slope<A: Arith>(a_raw: Scalar) -> Scalar {
    let t = A::tanh(a_raw);
    let jac = squash_slope::<A>(t);
    A::over(A::times(A::times(lit(TWO), t), jac), A::plus(jac, lit(SQUASH_JAC_EPS)))
}

/// The descent direction on one component's mean.
pub open spec fn mean_delta<A: Arith>(a_raw: Scalar, g_a: Scalar, alpha: Scalar) -> Scalar {
    A::minus(
        A::times(alpha, entropy_slope::<A>(a_raw)),
        A::times(g_a, squash_slope::<A>(A::tanh(a_raw))),
    )
}

/// The descent direction on one component's log standard deviation.
pub open spec fn deviation_delta<A: Arith>(
    log_sigma: Scalar,
    a_raw: Scalar,
    eps: Scalar,
    g_a: Scalar,
    alpha: Scalar,
) -> Scalar {
    let sigma = A::exp(log_sigma);
    let jac = squash_slope::<A>(A::tanh(a_raw));
    A::minus(
        A::times(
            alpha,
            A::plus(
                lit(ONE).neg(),
                A::times(A::times(entropy_slope::<A>(a_raw), sigma), eps),
            ),
        ),
        A::times(A::times(A::times(g_a, jac), sigma), eps),
    )
}

/// The descent direction on all means followed by all log standard deviations.
pub open spec fn actor_delta<A: Arith>(
    log_sigma: Seq<Scalar>,
    a_raw: Seq<Scalar>,
    eps: Seq<Scalar>,
    g_a: Seq<Scalar>,
    alpha: Scalar,
    n: nat,
) -> Seq<Scalar> {
    Seq::new(n, |j: int| mean_delta::<A>(a_raw[j], g_a[j], alpha)) + Seq::new(
        n,
        |j: int| deviation_delta::<A>(log_sigma[j], a_raw[j], eps[j], g_a[j], alpha),
    )
}

/// The descent direction that lowers `alpha * logp - min(Q1, Q2)`: one entry per
/// mean, then one per log standard deviation.
pub fn sac_actor_delta<A: Arith>(
    mu: &[Scalar],
    log_sigma: &[Scalar],
    a_raw: &[Scalar],
    eps: &[Scalar],
    g_a: &[Scalar],
    alpha: Scalar,
) -> (r: Vec<Scalar>)
    requires
        log_sigma@.len() >= mu@.len(),
        a_raw@.len() >= mu@.len(),
        eps@.len() >= mu@.len(),
        g_a@.len() >= mu@.len(),
    ensures
        r@ == actor_delta::<A>(log_sigma@, a_raw@, eps@, g_a@, alpha, mu@.len()),
        r@.len() == 2 * mu@.len(),
{
    let n: usize = mu.len();
    let ghost target = actor_delta::<A>(log_sigma@, a_raw@, eps@, g_a@, alpha, n as nat);
    let mut means: Vec<Scalar> = Vec::new();
    let mut deviations: Vec<Scalar> = Vec::new();
    let mut j: usize = 0;
    while j < n
        invariant
            j <= n,
            log_sigma@.len() >= n,
            a_raw@.len() >= n,
            eps@.len() >= n,
            g_a@.len() >= n,
            target == actor_delta::<A>(log_sigma@, a_raw@, eps@, g_a@, alpha, n as nat),
            means@ == target.take(j as int),
            deviations@ == target.subrange(n as int, n + j),
        decreases n - j,
    {
        let t = A::r_tanh(a_raw[j]);
        let jac = A::r_sub(lit(ONE), A::r_mul(t, t));
        let sigma = A::r_exp(log_sigma[j]);
        let jac_ent = A::r_div(
            A::r_mul(A::r_mul(lit(TWO), t), jac),
            A::r_add(jac, lit(SQUASH_JAC_EPS)),
        );
        means.push(A::r_sub(A::r_mul(alpha, jac_ent), A::r_mul(g_a[j], jac)));
        deviations.push(
            A::r_sub(
                A::r_mul(
                    alpha,
                    A::r_add(lit(ONE).neg(), A::r_mul(A::r_mul(jac_ent, sigma), eps[j])),
                ),
                A::r_mul(A::r_mul(A::r_mul(g_a[j], jac), sigma), eps[j]),
            ),
        );
        j = j + 1;
        assert(means@ =~= target.take(j as int));
        assert(deviations@ =~= target.subrange(n as int, n + j));
    }
    means.append(&mut deviations);
    assert(means@ =~= target);
    means
}

/// A standard normal draw and the generator it leaves behind.
pub open spec fn normal_draw<A: Arith>(rng: StdRng) -> (Scalar, StdRng) {
    let (u1, rng) = A::uniform_closed(rng, lit(EPSILON), lit(ONE));
    let (u2, rng) = A::uniform_open(rng, lit(ZERO), lit(ONE));
    (
        A::times(
            A::root(A::times(lit(TWO).neg(), A::log(u1))),
            A::cosine(A::times(A::times(lit(TWO), lit(PI)), u2)),
        ),
        rng,
    )
}

/// Draws from the standard normal distribution.
pub fn sample_standard_normal<A: Arith>(rng: &mut StdRng) -> (r: Scalar)
    ensures
        (r, *final(rng)) == normal_draw::<A>(*old(rng)),
{
    let u1 = A::r_uniform_closed(rng, lit(EPSILON), lit(ONE));
    let u2 = A::r_uniform_open(rng, lit(ZERO), lit(ONE));
    A::r_mul(
        A::r_sqrt(A::r_mul(lit(TWO).neg(), A::r_ln(u1))),
        A::r_cos(A::r_mul(A::r_mul(lit(TWO), lit(PI)), u2)),
    )
}

/// The means in an actor's output.
pub open spec fn means_of(y: Seq<Scalar>, n: nat) -> Seq<Scalar> {
    y.take(n as int)
}

/// The clamped log standard deviations in an actor's output.
pub open spec fn deviations_of(y: Seq<Scalar>, n: nat) -> Seq<Scalar> {
    Seq::new(n, |i: int| y[n + i].clamp(lit(LOG_SIG_MIN), lit(LOG_SIG_MAX)))
}

/// Splits an actor's output into means and clamped log standard deviations.
pub fn split_mu_log_sigma(y_conv: &[Scalar], action_dim: usize) -> (r: (Vec<Scalar>, Vec<Scalar>))
    requires
        y_conv@.len() >= 2 * action_dim,
    ensures
        r.0@ == means_of(y_conv@, action_dim as nat),
        r.1@ == deviations_of(y_conv@, action_dim as nat),
{
    let mut mu: Vec<Scalar> = Vec::new();
    let mut log_sigma: Vec<Scalar> = Vec::new();
    let mut i: usize = 0;
    while i < action_dim
        invariant
            i <= action_dim,
            y_conv@.len() >= 2 * action_dim,
            mu@ == means_of(y_conv@, action_dim as nat).take(i as int),
            log_sigma@ == deviations_of(y_conv@, action_dim as nat).take(i as int),
        decreases action_dim - i,
    {
        mu.push(y_conv[i]);
        log_sigma.push(y_conv[action_dim + i].clamp(lit(LOG_SIG_MIN), lit(LOG_SIG_MAX)));
        i = i + 1;
        assert(mu@ =~= means_of(y_conv@, action_dim as nat).take(i as int));
        assert(log_sigma@ =~= deviations_of(y_conv@, action_dim as nat).take(i as int));
    }
    assert(mu@ =~= means_of(y_conv@, action_dim as nat));
    assert(log_sigma@ =~= deviations_of(y_conv@, action_dim as nat));
    (mu, log_sigma)
}

/// Every log standard deviation lies in its interval, except where it is NaN.
pub proof fn law_deviations_are_clamped(y: Seq<Scalar>, n: nat, i: int)
    requires
        0 <= i < n,
    ensures
        deviations_of(y, n)[i].is_nan() || deviations_of(y, n)[i].within(
            lit(LOG_SIG_MIN),
            lit(LOG_SIG_MAX),
        ),
{
}

/// Every component squashed.
pub open spec fn squashed<A: Arith>(raw: Seq<Scalar>) -> Seq<Scalar> {
    Seq::new(raw.len(), |i: int| A::tanh(raw[i]))
}

/// Component by component in `[-1, 1]`, except where `raw` is NaN.
pub open spec fn in_unit_box(raw: Seq<Scalar>, action: Seq<Scalar>) -> bool {
    forall|i: int|
        #![trigger action[i]]
        0 <= i < action.len() && !raw[i].is_nan() ==> action[i].within(
            lit(ONE).neg(),
            lit(ONE),
        )
}

/// The action without noise: `tanh(mu)`.
pub fn deterministic_squashed_action<A: Arith>(mu_raw: &[Scalar]) -> (r: Vec<Scalar>)
    ensures
        r@ == squashed::<A>(mu_raw@),
        in_unit_box(mu_raw@, r@),
{
    let mut out: Vec<Scalar> = Vec::new();
    let mut i: usize = 0;
    while i < mu_raw.len()
        invariant
            i <= mu_raw.len(),
            out@ == squashed::<A>(mu_raw@).take(i as int),
            in_unit_box(mu_raw@, out@),
        decreases mu_raw.len() - i,
    {
        out.push(A::r_tanh(mu_raw[i]));
        i = i + 1;
        assert(out@ =~= squashed::<A>(mu_raw@).take(i as int));
    }
    assert(out@ =~= squashed::<A>(mu_raw@));
    out
}

/// The first `k` components of a draw before squashing.
pub open spec fn raw_draw<A: Arith>(
    rng: StdRng,
    mu: Seq<Scalar>,
    log_sigma: Seq<Scalar>,
    k: nat,
) -> (Seq<Scalar>, StdRng)
    decreases k,
{
    if k == 0 {
        (Seq::empty(), rng)
    } else {
        let (raw, rng) = raw_draw::<A>(rng, mu, log_sigma, (k - 1) as nat);
        let (eps, rng) = normal_draw::<A>(rng);
        (raw.push(A::plus(mu[k - 1], A::times(A::exp(log_sigma[k - 1]), eps))), rng)
    }
}

/// Draws an action: the value before squashing and the squashed value.
pub fn sample_squashed_action<A: Arith>(
    mu_raw: &[Scalar],
    log_sigma: &[Scalar],
    rng: &mut StdRng,
) -> (r: (Vec<Scalar>, Vec<Scalar>))
    requires
        log_sigma@.len() >= mu_raw@.len(),
    ensures
        (r.0@, *final(rng)) == raw_draw::<A>(*old(rng), mu_raw@, log_sigma@, mu_raw@.len()),
        r.0@.len() == mu_raw@.len(),
        r.1@ == squashed::<A>(r.0@),
        in_unit_box(r.0@, r.1@),
{
    let ghost start = *rng;
    let mut raw: Vec<Scalar> = Vec::new();
    let mut i: usize = 0;
    while i < mu_raw.len()
        invariant
            i <= mu_raw.len(),
            log_sigma@.len() >= mu_raw@.len(),
            raw@.len() == i,
            (raw@, *rng) == raw_draw::<A>(start, mu_raw@, log_sigma@, i as nat),
        decreases mu_raw.len() - i,
    {
        let eps = sample_standard_normal::<A>(rng);
        raw.push(A::r_add(mu_raw[i], A::r_mul(A::r_exp(log_sigma[i]), eps)));
        i = i + 1;
    }
    let action = deterministic_squashed_action::<A>(raw.as_slice());
    (raw, action)
}

/// The first `k` components of a warm-up action.
pub open spec fn uniform_draw<A: Arith>(rng: StdRng, k: nat) -> (Seq<Scalar>, StdRng)
    decreases k,
{
    if k == 0 {
        (Seq::empty(), rng)
    } else {
        let (action, rng) = uniform_draw::<A>(rng, (k - 1) as nat);
        let (u, rng) = A::uniform_closed(rng, lit(WARMUP_BOUND).neg(), lit(WARMUP_BOUND));
        (action.push(u), rng)
    }
}

/// The value before squashing of every component.
pub open spec fn unsquashed<A: Arith>(action: Seq<Scalar>) -> Seq<Scalar> {
    Seq::new(action.len(), |i: int| A::atanh(action[i]))
}

/// Draws a warm-up action uniformly: the value before squashing and the action.
pub fn sample_uniform_squashed_action<A: Arith>(action_dim: usize, rng: &mut StdRng) -> (r: (
    Vec<Scalar>,
    Vec<Scalar>,
))
    ensures
        (r.1@, *final(rng)) == uniform_draw::<A>(*old(rng), action_dim as nat),
        r.1@.len() == action_dim,
        r.0@ == unsquashed::<A>(r.1@),
        forall|i: int|
            0 <= i < action_dim ==> (#[trigger] r.1@[i]).within(
                lit(WARMUP_BOUND).neg(),
                lit(WARMUP_BOUND),
            ),
{
    let ghost start = *rng;
    let mut action: Vec<Scalar> = Vec::new();
    let mut i: usize = 0;
    while i < action_dim
        invariant
            i <= action_dim,
            action@.len() == i,
            (action@, *rng) == uniform_draw::<A>(start, i as nat),
            forall|k: int|
                0 <= k < i ==> (#[trigger] action@[k]).within(
                    lit(WARMUP_BOUND).neg(),
                    lit(WARMUP_BOUND),
                ),
        decreases action_dim - i,
    {
        action.push(A::r_uniform_closed(rng, lit(WARMUP_BOUND).neg(), lit(WARMUP_BOUND)));
        i = i + 1;
    }
    let mut raw: Vec<Scalar> = Vec::new();
    let mut j: usize = 0;
    while j < action.len()
        invariant
            j <= action.len(),
            raw@ == unsquashed::<A>(action@).take(j as int),
        decreases action.len() - j,
    {
        raw.push(A::r_atanh(action[j]));
        j = j + 1;
        assert(raw@ =~= unsquashed::<A>(action@).take(j as int));
    }
    assert(raw@ =~= unsquashed::<A>(action@));
    (raw, action)
}

} // verus!
