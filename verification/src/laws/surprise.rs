//! Laws of how surprise scales learning.

use vstd::prelude::*;

use crate::laws::learning::lemma_zero_changes_no_number;
use crate::linalg::LinAlg;
use crate::pc_actor_critic::distillation::sum_upto;
use crate::pc_actor_critic::learning::{
    adaptive_decay, layer_errors_after, mean_of, rate_scale, recorded, root_mean_square,
    squared_distances, squares_sum_upto, thresholds,
};
use crate::scalar::{lit, Scalar, HALF, ONE, ONE_AND_HALF, ZERO};

verus! {

/// The mean of a list is its sum from the front divided by its length. The mean of one
/// number is that number.
pub proof fn law_mean_of_a_list<L: LinAlg>(list: Seq<Scalar>, k: nat)
    requires
        k < list.len(),
    ensures
        sum_upto::<L>(list, 0) == lit(ZERO),
        sum_upto::<L>(list, k + 1) == L::plus(sum_upto::<L>(list, k), list[k as int]),
        mean_of::<L>(list) == L::over(sum_upto::<L>(list, list.len()), L::count(list.len())),
        list.len() == 1 && !list[0].is_nan() ==> mean_of::<L>(list).num_eq(list[0]),
{
    if list.len() == 1 && !list[0].is_nan() {
        assert(sum_upto::<L>(list, 0) == lit(ZERO));
        let sum = sum_upto::<L>(list, 1);
        lemma_zero_changes_no_number::<L>(list[0], lit(ZERO));
        L::equals_agree(lit(ZERO), list[0], lit(ZERO), list[0]);
        L::equals_agree(sum, lit(ONE), sum, lit(ONE));
    }
}

/// Once ten values are known, adaptive thresholds lie half a standard deviation below
/// the mean, but not below zero, and one and a half above it. The standard deviation is
/// the root of the mean squared distance from the mean. Otherwise the configured
/// thresholds are in force. Returns the mean and the standard deviation.
pub proof fn law_thresholds<L: LinAlg>(
    adaptive: bool,
    history: Seq<Scalar>,
    low: Scalar,
    high: Scalar,
) -> (r: (Scalar, Scalar))
    ensures
        ({
            let (mean, spread) = r;
            let (lower, upper) = thresholds::<L>(adaptive, history, low, high);
            &&& mean == L::over(
                sum_upto::<L>(history, history.len()),
                L::count(history.len()),
            )
            &&& exists|squares: Seq<Scalar>|
                {
                    &&& squares.len() == history.len()
                    &&& forall|i: int|
                        #![trigger squares[i]]
                        0 <= i < history.len() ==> squares[i] == L::times(
                            L::minus(history[i], mean),
                            L::minus(history[i], mean),
                        )
                    &&& spread == L::root(
                        L::over(
                            #[trigger] sum_upto::<L>(squares, history.len()),
                            L::count(history.len()),
                        ),
                    )
                }
            &&& adaptive && history.len() >= 10 ==> {
                let below = L::minus(mean, L::times(lit(HALF), spread));
                &&& lit(ZERO).le(lower)
                &&& lit(ZERO).le(below) ==> lower.num_eq(below)
                &&& below.le(lit(ZERO)) ==> lower.num_eq(lit(ZERO))
                &&& upper == L::plus(mean, L::times(lit(ONE_AND_HALF), spread))
            }
            &&& !adaptive || history.len() < 10 ==> lower == low && upper == high
        }),
{
    let mean = mean_of::<L>(history);
    let squares = squared_distances::<L>(history, mean);
    let spread = L::root(mean_of::<L>(squares));
    assert(spread == L::root(
        L::over(sum_upto::<L>(squares, history.len()), L::count(history.len())),
    ));
    (mean, spread)
}

/// The factor on a learning rate: the floor up to the lower threshold, the ceiling from
/// the upper one on, and in between as far from the floor to the ceiling as the value is
/// from the lower threshold to the upper. In between it is not below the floor.
pub proof fn law_scale_of_the_rate<L: LinAlg>(
    x: Scalar,
    low: Scalar,
    high: Scalar,
    floor: Scalar,
    ceil: Scalar,
)
    ensures
        ({
            let scale = rate_scale::<L>(x, low, high, floor, ceil);
            &&& x.le(low) ==> scale == floor
            &&& low.lt(x) && high.le(x) ==> scale == ceil
            &&& low.lt(x) && x.lt(high) ==> scale == L::plus(
                floor,
                L::times(
                    L::over(L::minus(x, low), L::minus(high, low)),
                    L::minus(ceil, floor),
                ),
            )
            &&& low.lt(x) && x.lt(high) && floor.le(ceil) ==> scale.not_below(floor)
        }),
{
    let part = L::minus(x, low);
    let whole = L::minus(high, low);
    let share = L::over(part, whole);
    let range = L::minus(ceil, floor);
    L::equals_agree(x, low, x, low);
    L::equals_agree(high, low, high, low);
    L::equals_agree(part, whole, part, whole);
    L::equals_agree(ceil, floor, ceil, floor);
    L::equals_agree(share, range, share, range);
    L::equals_agree(floor, L::times(share, range), floor, L::times(share, range));
}

/// A history takes every finite value at its end. Below capacity it keeps all that came
/// before, at capacity all but the oldest. A value that is not finite changes nothing.
pub proof fn law_history(history: Seq<Scalar>, x: Scalar, capacity: nat)
    ensures
        ({
            let after = recorded(history, x, capacity);
            &&& !x.is_finite() ==> after == history
            &&& x.is_finite() ==> after.len() > 0 && after.last() == x
            &&& x.is_finite() && history.len() < capacity ==> after.drop_last() == history
            &&& x.is_finite() && history.len() >= capacity && history.len() > 0
                ==> after.drop_last() == history.subrange(1, history.len() as int)
        }),
{
    let after = recorded(history, x, capacity);
    if x.is_finite() {
        if history.len() >= capacity && history.len() > 0 {
            assert(after.drop_last() =~= history.subrange(1, history.len() as int));
        } else {
            assert(after.drop_last() =~= history);
        }
    }
}

/// How much a layer may still learn, given its running error: one less the logistic
/// function of minus `slope` times what that error exceeds `threshold` by. It is never
/// above one.
pub proof fn law_adaptive_decay<L: LinAlg>(e: Scalar, slope: Scalar, threshold: Scalar)
    ensures
        ({
            let x = L::times(slope.neg(), L::minus(e, threshold));
            let logistic = L::over(lit(ONE), L::plus(lit(ONE), L::exp(x.neg())));
            let decay = adaptive_decay::<L>(e, slope, threshold);
            &&& decay == L::minus(lit(ONE), logistic)
            &&& decay.not_above(lit(ONE))
        }),
{
    let x = L::times(slope.neg(), L::minus(e, threshold));
    let grown = L::exp(x.neg());
    let below = L::plus(lit(ONE), grown);
    let logistic = L::over(lit(ONE), below);
    L::equals_agree(x.neg(), x.neg(), x.neg(), x.neg());
    L::equals_agree(lit(ONE), grown, lit(ONE), grown);
    L::equals_agree(lit(ONE), below, lit(ONE), below);
    L::equals_agree(lit(ONE), logistic, lit(ONE), logistic);
}

/// The running error of a layer after an inference is `beta` parts of what it was and
/// `1 - beta` parts of the root mean square of the layer's new prediction errors, which
/// are listed from the topmost layer down. A layer without new errors keeps what it had.
pub proof fn law_running_layer_errors<L: LinAlg>(
    ema: Seq<Scalar>,
    errors: Seq<Seq<Scalar>>,
    beta: Scalar,
    i: int,
    k: nat,
)
    requires
        0 <= i < ema.len(),
    ensures
        ({
            let after = layer_errors_after::<L>(ema, errors, beta);
            let own = errors[errors.len() - 1 - i];
            let n = if own.len() == 0 {
                1
            } else {
                own.len()
            };
            &&& after.len() == ema.len()
            &&& i >= errors.len() ==> after[i] == ema[i]
            &&& i < errors.len() ==> after[i] == L::plus(
                L::times(beta, ema[i]),
                L::times(
                    L::minus(lit(ONE), beta),
                    L::root(L::over(squares_sum_upto::<L>(own, own.len()), L::count(n))),
                ),
            )
            &&& root_mean_square::<L>(own) == L::root(
                L::over(squares_sum_upto::<L>(own, own.len()), L::count(n)),
            )
            &&& squares_sum_upto::<L>(own, 0) == lit(ZERO)
            &&& squares_sum_upto::<L>(own, k + 1) == L::plus(
                squares_sum_upto::<L>(own, k),
                L::times(own[k as int], own[k as int]),
            )
        }),
{
}

} // verus!
