//! Laws of the squashed Gaussian policy.

use rand::rngs::StdRng;
use vstd::prelude::*;

use crate::linalg::LinAlg;
use crate::pc_actor_critic::policy::{
    actor_delta, deviations_of, log_prob, log_prob_upto, means_of, normal_draw, raw_draw, squashed,
    uniform_draw, unsquashed, LOG_SIG_MAX, LOG_SIG_MIN, SQUASH_JAC_EPS, WARMUP_BOUND,
};
use crate::scalar::{lit, Scalar, EPSILON, HALF, ONE, PI, TWO, ZERO};

verus! {

/// How the log-density of a squashed action grows with the value `raw` before
/// squashing, at a fixed noise: `2 t (1 - t^2) / (1 - t^2 + eps)` with `t = tanh(raw)`.
pub open spec fn density_slope<L: LinAlg>(raw: Scalar) -> Scalar {
    let t = L::tanh(raw);
    L::over(
        L::times(L::times(lit(TWO), t), L::minus(lit(ONE), L::times(t, t))),
        L::plus(L::minus(lit(ONE), L::times(t, t)), lit(SQUASH_JAC_EPS)),
    )
}

/// What the policy descends on in a mean: the temperature times the slope of the
/// log-density, less the slope of the value, which reaches the mean through the
/// squashing.
pub open spec fn mean_direction<L: LinAlg>(raw: Scalar, slope: Scalar, alpha: Scalar) -> Scalar {
    L::minus(
        L::times(alpha, density_slope::<L>(raw)),
        L::times(slope, L::minus(lit(ONE), L::times(L::tanh(raw), L::tanh(raw)))),
    )
}

/// What the policy descends on in a log standard deviation. A log standard deviation
/// moves the value before squashing by itself times the noise, and widens the density
/// at the rate of one.
pub open spec fn deviation_direction<L: LinAlg>(
    log_sigma: Scalar,
    raw: Scalar,
    noise: Scalar,
    slope: Scalar,
    alpha: Scalar,
) -> Scalar {
    L::minus(
        L::times(
            alpha,
            L::plus(
                lit(ONE).neg(),
                L::times(L::times(density_slope::<L>(raw), L::exp(log_sigma)), noise),
            ),
        ),
        L::times(
            L::times(
                L::times(slope, L::minus(lit(ONE), L::times(L::tanh(raw), L::tanh(raw)))),
                L::exp(log_sigma),
            ),
            noise,
        ),
    )
}

/// The descent direction of the policy: one entry per mean, then one per log standard
/// deviation. At a temperature of zero, where the squashing does not fall, the entry of a
/// mean is not positive for a value that grows with the action and not negative for one
/// that falls, so that descent takes the mean to where the value is higher.
pub proof fn law_direction_of_the_policy<L: LinAlg>(
    log_sigma: Seq<Scalar>,
    raw: Seq<Scalar>,
    noise: Seq<Scalar>,
    slope: Seq<Scalar>,
    alpha: Scalar,
    n: nat,
    j: int,
)
    requires
        0 <= j < n,
    ensures
        ({
            let delta = actor_delta::<L>(log_sigma, raw, noise, slope, alpha, n);
            let flat = L::minus(lit(ONE), L::times(L::tanh(raw[j]), L::tanh(raw[j])));
            &&& delta.len() == 2 * n
            &&& delta[j] == mean_direction::<L>(raw[j], slope[j], alpha)
            &&& delta[n + j] == deviation_direction::<L>(
                log_sigma[j],
                raw[j],
                noise[j],
                slope[j],
                alpha,
            )
            &&& alpha.num_eq(lit(ZERO)) && density_slope::<L>(raw[j]).is_finite() && lit(ZERO).le(
                flat,
            ) ==> {
                &&& lit(ZERO).le(slope[j]) ==> delta[j].not_above(lit(ZERO))
                &&& slope[j].le(lit(ZERO)) ==> delta[j].not_below(lit(ZERO))
            }
        }),
{
    let flat = L::minus(lit(ONE), L::times(L::tanh(raw[j]), L::tanh(raw[j])));
    let dense = density_slope::<L>(raw[j]);
    let spread = L::times(alpha, dense);
    let value = L::times(slope[j], flat);
    if alpha.num_eq(lit(ZERO)) && dense.is_finite() {
        L::zero_absorbs(dense, alpha);
        L::equals_agree(alpha, dense, alpha, dense);
    }
    L::equals_agree(slope[j], flat, slope[j], flat);
    L::equals_agree(spread, value, spread, value);
}

/// The log-density of a squashed action adds up component by component. Each adds the
/// log-density of a normal distribution at the value before squashing, less the
/// logarithm of the slope of the squashing there.
pub proof fn law_log_density<L: LinAlg>(
    mu: Seq<Scalar>,
    log_sigma: Seq<Scalar>,
    raw: Seq<Scalar>,
    k: nat,
)
    ensures
        log_prob_upto::<L>(mu, log_sigma, raw, 0) == lit(ZERO),
        log_prob::<L>(mu, log_sigma, raw) == log_prob_upto::<L>(mu, log_sigma, raw, mu.len()),
        ({
            let j = k as int;
            let z = L::over(L::minus(raw[j], mu[j]), L::exp(log_sigma[j]));
            let t = L::tanh(raw[j]);
            log_prob_upto::<L>(mu, log_sigma, raw, k + 1) == L::minus(
                L::plus(
                    log_prob_upto::<L>(mu, log_sigma, raw, k),
                    L::minus(
                        L::minus(L::times(L::times(lit(HALF).neg(), z), z), log_sigma[j]),
                        L::times(lit(HALF), L::log(L::times(lit(TWO), lit(PI)))),
                    ),
                ),
                L::log(
                    L::plus(L::minus(lit(ONE), L::times(t, t)), lit(SQUASH_JAC_EPS)),
                ),
            )
        }),
{
}

/// The first half of an actor's output are the means, the second half the log standard
/// deviations, held within their bounds.
pub proof fn law_head_of_the_policy(y: Seq<Scalar>, n: nat, j: int)
    requires
        y.len() == 2 * n,
        0 <= j < n,
    ensures
        means_of(y, n).len() == n,
        deviations_of(y, n).len() == n,
        means_of(y, n)[j] == y[j],
        y[n + j].within(lit(LOG_SIG_MIN), lit(LOG_SIG_MAX)) ==> deviations_of(y, n)[j] == y[n + j],
        y[n + j].lt(lit(LOG_SIG_MIN)) ==> deviations_of(y, n)[j] == lit(LOG_SIG_MIN),
        lit(LOG_SIG_MAX).lt(y[n + j]) ==> deviations_of(y, n)[j] == lit(LOG_SIG_MAX),
{
}

/// Squashing keeps the number of components and the sign of each, and brings each into
/// `[-1, 1]`. Unsquashing takes the inverse hyperbolic tangent of each.
pub proof fn law_squashing<L: LinAlg>(raw: Seq<Scalar>, j: int)
    requires
        0 <= j < raw.len(),
    ensures
        squashed::<L>(raw).len() == raw.len(),
        squashed::<L>(raw)[j] == L::tanh(raw[j]),
        !raw[j].is_nan() ==> squashed::<L>(raw)[j].within(lit(ONE).neg(), lit(ONE)),
        lit(ZERO).le(raw[j]) ==> lit(ZERO).le(squashed::<L>(raw)[j]),
        raw[j].le(lit(ZERO)) ==> squashed::<L>(raw)[j].le(lit(ZERO)),
        unsquashed::<L>(raw).len() == raw.len(),
        unsquashed::<L>(raw)[j] == L::atanh(raw[j]),
{
    L::equals_agree(raw[j], raw[j], raw[j], raw[j]);
}

/// A draw from the policy takes one standard normal number per component, in order, and
/// puts it on the component's mean and standard deviation. A noise that is not negative
/// takes the component no lower than its mean, one that is not positive no higher.
pub proof fn law_draw_from_the_policy<L: LinAlg>(
    rng: StdRng,
    mu: Seq<Scalar>,
    log_sigma: Seq<Scalar>,
    k: nat,
)
    ensures
        raw_draw::<L>(rng, mu, log_sigma, 0) == (Seq::<Scalar>::empty(), rng),
        ({
            let (earlier, left) = raw_draw::<L>(rng, mu, log_sigma, k);
            let (noise, rest) = normal_draw::<L>(left);
            let (raw, end) = raw_draw::<L>(rng, mu, log_sigma, k + 1);
            let x = raw.last();
            &&& end == rest
            &&& raw.len() == k + 1
            &&& raw.drop_last() == earlier
            &&& x == L::plus(mu[k as int], L::times(L::exp(log_sigma[k as int]), noise))
            &&& lit(ZERO).le(noise) ==> x.not_below(mu[k as int])
            &&& noise.le(lit(ZERO)) ==> x.not_above(mu[k as int])
        }),
{
    let (earlier, left) = raw_draw::<L>(rng, mu, log_sigma, k);
    let (noise, rest) = normal_draw::<L>(left);
    let (raw, end) = raw_draw::<L>(rng, mu, log_sigma, k + 1);
    lemma_draw_len::<L>(rng, mu, log_sigma, k);
    assert(raw.drop_last() =~= earlier);
    let sigma = L::exp(log_sigma[k as int]);
    let step = L::times(sigma, noise);
    L::equals_agree(log_sigma[k as int], noise, log_sigma[k as int], noise);
    L::equals_agree(sigma, noise, sigma, noise);
    L::equals_agree(noise, sigma, noise, sigma);
    L::equals_agree(mu[k as int], step, mu[k as int], step);
}

proof fn lemma_draw_len<L: LinAlg>(
    rng: StdRng,
    mu: Seq<Scalar>,
    log_sigma: Seq<Scalar>,
    k: nat,
)
    ensures
        raw_draw::<L>(rng, mu, log_sigma, k).0.len() == k,
    decreases k,
{
    if k > 0 {
        lemma_draw_len::<L>(rng, mu, log_sigma, (k - 1) as nat);
    }
}

/// A standard normal number comes from two uniform ones: the root of minus twice the
/// logarithm of the first, which is not zero, times the cosine of the second's share of
/// a full turn.
pub proof fn law_standard_normal_draw<L: LinAlg>(rng: StdRng)
    ensures
        ({
            let (first, left) = L::uniform_closed(rng, lit(EPSILON), lit(ONE));
            let (second, rest) = L::uniform_open(left, lit(ZERO), lit(ONE));
            normal_draw::<L>(rng) == (
                L::times(
                    L::root(L::times(lit(TWO).neg(), L::log(first))),
                    L::cosine(L::times(L::times(lit(TWO), lit(PI)), second)),
                ),
                rest,
            )
        }),
{
}

/// A warm-up action takes one uniform number per component, in order, from the interval
/// between the two warm-up bounds.
pub proof fn law_warm_up_draw<L: LinAlg>(rng: StdRng, k: nat)
    ensures
        uniform_draw::<L>(rng, 0) == (Seq::<Scalar>::empty(), rng),
        ({
            let (earlier, left) = uniform_draw::<L>(rng, k);
            let (x, rest) = L::uniform_closed(left, lit(WARMUP_BOUND).neg(), lit(WARMUP_BOUND));
            uniform_draw::<L>(rng, k + 1) == (earlier.push(x), rest)
        }),
{
}

} // verus!
