//! Rounded arithmetic and random draws on [`Scalar`]s.
//!
//! The library never fixes how a sum, a product or an exponential is rounded:
//! a number system does, and every contract is stated over that system's
//! operations.

use rand::rngs::StdRng;
use vstd::prelude::*;

use crate::scalar::{lit, Scalar, NEG_ZERO, ONE, ZERO};

verus! {

/// The generator behind initial weights and action noise
/// (`rand::rngs::StdRng`). Nothing is claimed of its state.
#[verifier::external_type_specification]
#[verifier::external_body]
pub struct ExStdRng(StdRng);

/// A number system on [`Scalar`]s.
///
/// Each operation is a function of its operands: the spec function of a pair
/// names the result, the executable function computes it. A draw is a function
/// of the generator it is taken from, and names the generator that is left.
pub trait Arith: Sized {
    /// The rounded sum.
    open spec fn plus(a: Scalar, b: Scalar) -> Scalar {
        arbitrary()
    }

    /// The rounded difference.
    open spec fn minus(a: Scalar, b: Scalar) -> Scalar {
        arbitrary()
    }

    /// The rounded product.
    open spec fn times(a: Scalar, b: Scalar) -> Scalar {
        arbitrary()
    }

    /// The rounded quotient.
    open spec fn over(a: Scalar, b: Scalar) -> Scalar {
        arbitrary()
    }

    /// The rounded square root.
    open spec fn root(a: Scalar) -> Scalar {
        arbitrary()
    }

    /// The exponential.
    open spec fn exp(a: Scalar) -> Scalar {
        arbitrary()
    }

    /// The natural logarithm.
    open spec fn log(a: Scalar) -> Scalar {
        arbitrary()
    }

    /// The hyperbolic tangent.
    open spec fn tanh(a: Scalar) -> Scalar {
        arbitrary()
    }

    /// The inverse hyperbolic tangent.
    open spec fn atanh(a: Scalar) -> Scalar {
        arbitrary()
    }

    /// The cosine.
    open spec fn cosine(a: Scalar) -> Scalar {
        arbitrary()
    }

    /// The `n`-th power.
    open spec fn power(a: Scalar, n: nat) -> Scalar {
        arbitrary()
    }

    /// The number nearest to a count.
    open spec fn count(n: nat) -> Scalar {
        arbitrary()
    }

    /// The smallest integer not below, saturated to the range of `u64`.
    open spec fn ceiling(a: Scalar) -> u64 {
        arbitrary()
    }

    /// A uniform draw from `[low, high]` and the generator it leaves behind.
    open spec fn uniform_closed(rng: StdRng, low: Scalar, high: Scalar) -> (Scalar, StdRng) {
        arbitrary()
    }

    /// A uniform draw from `[low, high)` and the generator it leaves behind.
    open spec fn uniform_open(rng: StdRng, low: Scalar, high: Scalar) -> (Scalar, StdRng) {
        arbitrary()
    }

    /// Adding a zero gives a number back unchanged, unless it is the negative
    /// zero.
    proof fn zero_is_neutral(a: Scalar, b: Scalar)
        requires
            !a.is_nan(),
            a != lit(NEG_ZERO),
            b.num_eq(lit(ZERO)),
        ensures
            Self::plus(a, b) == a,
    ;

    /// A finite number times zero is zero.
    proof fn zero_absorbs(a: Scalar, b: Scalar)
        requires
            a.is_finite(),
            b.num_eq(lit(ZERO)),
        ensures
            Self::times(a, b).num_eq(lit(ZERO)),
    ;

    /// No square is negative.
    proof fn square_is_not_negative(a: Scalar)
        ensures
            Self::times(a, a).is_nan() || lit(ZERO).le(Self::times(a, a)),
    ;

    /// A finite number less an equal one is zero.
    proof fn equals_cancel(a: Scalar, b: Scalar)
        requires
            a.is_finite(),
            a.num_eq(b),
        ensures
            Self::minus(a, b).num_eq(lit(ZERO)),
    ;

    /// Of an infinity or a NaN no sum, difference or product is finite. A sum with a
    /// NaN and the exponential of a NaN are NaN.
    proof fn infinities_spread(a: Scalar, b: Scalar)
        requires
            !a.is_finite() || !b.is_finite(),
        ensures
            !Self::plus(a, b).is_finite(),
            !Self::minus(a, b).is_finite(),
            !Self::times(a, b).is_finite(),
            a.is_nan() ==> Self::plus(a, b).is_nan(),
            a.is_nan() ==> Self::exp(a).is_nan(),
    ;

    /// Equal numbers give equal results: the sign of a zero does not matter, unless
    /// it is divided by. Neither does the order of terms or factors. A factor or
    /// divisor of one and a subtracted zero change no number, a NaN stays a NaN, and
    /// rounding never carries a result over to the other side of where it belongs.
    proof fn equals_agree(a: Scalar, b: Scalar, other_a: Scalar, other_b: Scalar)
        requires
            a.same_number(other_a),
            b.same_number(other_b),
        ensures
            Self::plus(a, b).same_number(Self::plus(other_a, other_b)),
            Self::minus(a, b).same_number(Self::minus(other_a, other_b)),
            Self::times(a, b).same_number(Self::times(other_a, other_b)),
            b == other_b || !b.num_eq(lit(ZERO)) ==> Self::over(a, b).same_number(
                Self::over(other_a, other_b),
            ),
            Self::exp(a).same_number(Self::exp(other_a)),
            a.num_eq(other_a) ==> Self::exp(a) == Self::exp(other_a),
            Self::log(a).same_number(Self::log(other_a)),
            Self::tanh(a).same_number(Self::tanh(other_a)),
            Self::plus(a, b).same_number(Self::plus(b, a)),
            Self::times(a, b).same_number(Self::times(b, a)),
            b == lit(ONE) && !a.is_nan() ==> Self::times(a, b) == a && Self::over(a, b) == a,
            b.num_eq(lit(ZERO)) && !a.is_nan() ==> Self::minus(a, b).num_eq(a),
            a.is_nan() || b.is_nan() ==> {
                &&& Self::plus(a, b).is_nan()
                &&& Self::minus(a, b).is_nan()
                &&& Self::times(a, b).is_nan()
                &&& Self::over(a, b).is_nan()
            },
            a.le(b) ==> Self::minus(a, b).not_above(lit(ZERO)),
            b.le(a) ==> Self::minus(a, b).not_below(lit(ZERO)),
            b.lt(a) ==> Self::minus(a, b).above_zero(),
            lit(ZERO).le(b) ==> Self::plus(a, b).not_below(a) && Self::minus(a, b).not_above(a),
            b.le(lit(ZERO)) ==> Self::plus(a, b).not_above(a) && Self::minus(a, b).not_below(a),
            lit(ZERO).le(a) && lit(ZERO).le(b) ==> Self::times(a, b).not_below(lit(ZERO)),
            a.le(lit(ZERO)) && lit(ZERO).le(b) ==> Self::times(a, b).not_above(lit(ZERO)),
            a.le(lit(ZERO)) && b.le(lit(ZERO)) ==> Self::times(a, b).not_below(lit(ZERO)),
            lit(ZERO).le(a) && lit(ZERO).lt(b) ==> Self::over(a, b).not_below(lit(ZERO)),
            a.le(lit(ZERO)) && lit(ZERO).lt(b) ==> Self::over(a, b).not_above(lit(ZERO)),
            Self::exp(a).not_below(lit(ZERO)),
            !a.is_nan() ==> Self::tanh(a).within(lit(ONE).neg(), lit(ONE)),
            lit(ZERO).le(a) ==> lit(ZERO).le(Self::tanh(a)),
            a.le(lit(ZERO)) ==> Self::tanh(a).le(lit(ZERO)),
            Self::count(0) == lit(ZERO),
            Self::count(1) == lit(ONE),
            forall|n: nat| n > 0 ==> (#[trigger] Self::count(n)).above_zero(),
    ;

    /// `a + b`. Adding a zero changes no number.
    fn r_add(a: Scalar, b: Scalar) -> (r: Scalar)
        ensures
            r == Self::plus(a, b),
            b.num_eq(lit(ZERO)) && !a.is_nan() ==> r.num_eq(a),
    ;

    /// `a - b`. A finite number less itself is zero.
    fn r_sub(a: Scalar, b: Scalar) -> (r: Scalar)
        ensures
            r == Self::minus(a, b),
            a.is_finite() && a.num_eq(b) ==> r.num_eq(lit(ZERO)),
    ;

    /// `a * b`. One is neutral and zero annihilates every finite number.
    fn r_mul(a: Scalar, b: Scalar) -> (r: Scalar)
        ensures
            r == Self::times(a, b),
            a == lit(ONE) && !b.is_nan() ==> r == b,
            a.num_eq(lit(ZERO)) && b.is_finite() ==> r.num_eq(lit(ZERO)),
    ;

    /// `a / b`
    fn r_div(a: Scalar, b: Scalar) -> (r: Scalar)
        ensures
            r == Self::over(a, b),
    ;

    /// The square root.
    fn r_sqrt(a: Scalar) -> (r: Scalar)
        ensures
            r == Self::root(a),
    ;

    /// The exponential. It is never negative.
    fn r_exp(a: Scalar) -> (r: Scalar)
        ensures
            r == Self::exp(a),
            r.is_nan() || lit(ZERO).le(r),
    ;

    /// The natural logarithm.
    fn r_ln(a: Scalar) -> (r: Scalar)
        ensures
            r == Self::log(a),
    ;

    /// The hyperbolic tangent, which lies in `[-1, 1]`.
    fn r_tanh(a: Scalar) -> (r: Scalar)
        ensures
            r == Self::tanh(a),
            !a.is_nan() ==> r.within(lit(ONE).neg(), lit(ONE)),
    ;

    /// The inverse hyperbolic tangent.
    fn r_atanh(a: Scalar) -> (r: Scalar)
        ensures
            r == Self::atanh(a),
    ;

    /// The cosine.
    fn r_cos(a: Scalar) -> (r: Scalar)
        ensures
            r == Self::cosine(a),
    ;

    /// `a` to the power of `n`.
    fn r_powi(a: Scalar, n: usize) -> (r: Scalar)
        ensures
            r == Self::power(a, n as nat),
    ;

    /// The number nearest to `n`.
    fn r_count(n: usize) -> (r: Scalar)
        ensures
            r == Self::count(n as nat),
    ;

    /// The smallest integer not below `a`, saturated to the range of `u64`.
    fn r_ceil(a: Scalar) -> (r: u64)
        ensures
            r == Self::ceiling(a),
    ;

    /// Draws uniformly from `[low, high]`, an interval inside `[-1, 1]`.
    fn r_uniform_closed(rng: &mut StdRng, low: Scalar, high: Scalar) -> (r: Scalar)
        requires
            lit(ONE).neg().le(low),
            low.lt(high),
            high.le(lit(ONE)),
        ensures
            (r, *final(rng)) == Self::uniform_closed(*old(rng), low, high),
            r.within(low, high),
    ;

    /// Draws uniformly from `[low, high)`, an interval inside `[-1, 1]`.
    fn r_uniform_open(rng: &mut StdRng, low: Scalar, high: Scalar) -> (r: Scalar)
        requires
            lit(ONE).neg().le(low),
            low.lt(high),
            high.le(lit(ONE)),
        ensures
            (r, *final(rng)) == Self::uniform_open(*old(rng), low, high),
            low.le(r),
            r.lt(high),
    ;
}

} // verus!
