//! A number system without rounding.
//!
//! It shows that the contracts of [`Arith`] can be met together, and runs the
//! library where only neutral and absorbing operands matter.

use rand::rngs::StdRng;
use vstd::prelude::*;

use crate::arith::Arith;
use crate::scalar::{lit, Scalar, ONE, ZERO};

verus! {

/// A NaN, the result where an exact one is not at hand.
pub const UNKNOWN: u64 = 0x7FF8_0000_0000_0000;

/// The coarsest number system: a result is exact where an operand is neutral or
/// absorbing, the hyperbolic tangent is the sign, a draw is the lower end of its
/// interval, and everything else is NaN.
#[derive(Clone, Copy, Debug, PartialEq, Eq, Structural)]
pub struct Coarse;

impl Arith for Coarse {
    open spec fn plus(a: Scalar, b: Scalar) -> Scalar {
        if b.num_eq(lit(ZERO)) {
            a
        } else if a.num_eq(lit(ZERO)) {
            b
        } else {
            lit(UNKNOWN)
        }
    }

    open spec fn minus(a: Scalar, b: Scalar) -> Scalar {
        if a.is_finite() && a.num_eq(b) {
            lit(ZERO)
        } else if b.num_eq(lit(ZERO)) {
            a
        } else {
            lit(UNKNOWN)
        }
    }

    open spec fn times(a: Scalar, b: Scalar) -> Scalar {
        if a == lit(ONE) {
            b
        } else if b == lit(ONE) {
            a
        } else if a.is_finite() && b.is_finite() && (a.num_eq(lit(ZERO)) || b.num_eq(lit(ZERO))) {
            lit(ZERO)
        } else {
            lit(UNKNOWN)
        }
    }

    open spec fn over(a: Scalar, b: Scalar) -> Scalar {
        if b == lit(ONE) {
            a
        } else {
            lit(UNKNOWN)
        }
    }

    open spec fn root(a: Scalar) -> Scalar {
        if a == lit(ONE) || a.num_eq(lit(ZERO)) {
            a
        } else {
            lit(UNKNOWN)
        }
    }

    open spec fn exp(a: Scalar) -> Scalar {
        if a.num_eq(lit(ZERO)) {
            lit(ONE)
        } else {
            lit(UNKNOWN)
        }
    }

    open spec fn log(a: Scalar) -> Scalar {
        if a == lit(ONE) {
            lit(ZERO)
        } else {
            lit(UNKNOWN)
        }
    }

    open spec fn tanh(a: Scalar) -> Scalar {
        if lit(ZERO).lt(a) {
            lit(ONE)
        } else if a.lt(lit(ZERO)) {
            lit(ONE).neg()
        } else {
            a
        }
    }

    open spec fn atanh(a: Scalar) -> Scalar {
        if a.num_eq(lit(ZERO)) {
            a
        } else {
            lit(UNKNOWN)
        }
    }

    open spec fn cosine(a: Scalar) -> Scalar {
        if a.num_eq(lit(ZERO)) {
            lit(ONE)
        } else {
            lit(UNKNOWN)
        }
    }

    open spec fn power(a: Scalar, n: nat) -> Scalar {
        if n == 0 {
            lit(ONE)
        } else if n == 1 || a == lit(ONE) {
            a
        } else {
            lit(UNKNOWN)
        }
    }

    open spec fn count(n: nat) -> Scalar {
        if n == 0 {
            lit(ZERO)
        } else if n == 1 {
            lit(ONE)
        } else {
            lit(UNKNOWN)
        }
    }

    open spec fn ceiling(a: Scalar) -> u64 {
        if a == lit(ONE) {
            1
        } else {
            0
        }
    }

    open spec fn uniform_closed(rng: StdRng, low: Scalar, high: Scalar) -> (Scalar, StdRng) {
        (low, rng)
    }

    open spec fn uniform_open(rng: StdRng, low: Scalar, high: Scalar) -> (Scalar, StdRng) {
        (low, rng)
    }

    proof fn zero_is_neutral(a: Scalar, b: Scalar) {
    }

    proof fn zero_absorbs(a: Scalar, b: Scalar) {
    }

    proof fn square_is_not_negative(a: Scalar) {
    }

    proof fn equals_cancel(a: Scalar, b: Scalar) {
    }

    proof fn infinities_spread(a: Scalar, b: Scalar) {
    }

    proof fn equals_agree(a: Scalar, b: Scalar, other_a: Scalar, other_b: Scalar) {
    }

    fn r_add(a: Scalar, b: Scalar) -> (r: Scalar) {
        if b.num_eq(lit(ZERO)) {
            a
        } else if a.num_eq(lit(ZERO)) {
            b
        } else {
            lit(UNKNOWN)
        }
    }

    fn r_sub(a: Scalar, b: Scalar) -> (r: Scalar) {
        if a.is_finite() && a.num_eq(b) {
            lit(ZERO)
        } else if b.num_eq(lit(ZERO)) {
            a
        } else {
            lit(UNKNOWN)
        }
    }

    fn r_mul(a: Scalar, b: Scalar) -> (r: Scalar) {
        if a == lit(ONE) {
            b
        } else if b == lit(ONE) {
            a
        } else if a.is_finite() && b.is_finite() && (a.num_eq(lit(ZERO)) || b.num_eq(lit(ZERO))) {
            lit(ZERO)
        } else {
            lit(UNKNOWN)
        }
    }

    fn r_div(a: Scalar, b: Scalar) -> (r: Scalar) {
        if b == lit(ONE) {
            a
        } else {
            lit(UNKNOWN)
        }
    }

    fn r_sqrt(a: Scalar) -> (r: Scalar) {
        if a == lit(ONE) || a.num_eq(lit(ZERO)) {
            a
        } else {
            lit(UNKNOWN)
        }
    }

    fn r_exp(a: Scalar) -> (r: Scalar) {
        if a.num_eq(lit(ZERO)) {
            lit(ONE)
        } else {
            lit(UNKNOWN)
        }
    }

    fn r_ln(a: Scalar) -> (r: Scalar) {
        if a == lit(ONE) {
            lit(ZERO)
        } else {
            lit(UNKNOWN)
        }
    }

    fn r_tanh(a: Scalar) -> (r: Scalar) {
        if lit(ZERO).lt(a) {
            lit(ONE)
        } else if a.lt(lit(ZERO)) {
            lit(ONE).neg()
        } else {
            a
        }
    }

    fn r_atanh(a: Scalar) -> (r: Scalar) {
        if a.num_eq(lit(ZERO)) {
            a
        } else {
            lit(UNKNOWN)
        }
    }

    fn r_cos(a: Scalar) -> (r: Scalar) {
        if a.num_eq(lit(ZERO)) {
            lit(ONE)
        } else {
            lit(UNKNOWN)
        }
    }

    fn r_powi(a: Scalar, n: usize) -> (r: Scalar) {
        if n == 0 {
            lit(ONE)
        } else if n == 1 || a == lit(ONE) {
            a
        } else {
            lit(UNKNOWN)
        }
    }

    fn r_count(n: usize) -> (r: Scalar) {
        if n == 0 {
            lit(ZERO)
        } else if n == 1 {
            lit(ONE)
        } else {
            lit(UNKNOWN)
        }
    }

    fn r_ceil(a: Scalar) -> (r: u64) {
        if a == lit(ONE) {
            1
        } else {
            0
        }
    }

    fn r_uniform_closed(rng: &mut StdRng, low: Scalar, high: Scalar) -> (r: Scalar) {
        low
    }

    fn r_uniform_open(rng: &mut StdRng, low: Scalar, high: Scalar) -> (r: Scalar) {
        low
    }
}

} // verus!
