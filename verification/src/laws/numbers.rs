//! Laws of the order of numbers.

use vstd::prelude::*;

use crate::scalar::{lit, Scalar, ZERO};

verus! {

/// The smaller of two numbers is one of them and not above either, the larger is one of
/// them and not below either. A NaN gives way to the other.
pub proof fn law_smaller_and_larger(a: Scalar, b: Scalar)
    ensures
        a.min(b) == a || a.min(b) == b,
        a.max(b) == a || a.max(b) == b,
        !a.is_nan() && !b.is_nan() ==> a.min(b).le(a) && a.min(b).le(b) && a.le(a.max(b)) && b.le(
            a.max(b),
        ),
        a.is_nan() ==> a.min(b) == b && a.max(b) == b,
        !a.is_nan() && b.is_nan() ==> a.min(b) == a && a.max(b) == a,
{
}

/// Negation turns the order round, undoes itself and keeps the magnitude. The absolute
/// value is not negative, and is the number or its negation.
pub proof fn law_signs(a: Scalar, b: Scalar)
    ensures
        a.neg().neg() == a,
        a.lt(b) <==> b.neg().lt(a.neg()),
        a.le(b) <==> b.neg().le(a.neg()),
        a.neg().is_nan() == a.is_nan(),
        a.neg().is_finite() == a.is_finite(),
        a.abs() == a || a.abs() == a.neg(),
        !a.is_nan() ==> lit(ZERO).le(a.abs()) && a.le(a.abs()),
        a.neg().abs() == a.abs(),
{
}

/// The order of numbers: strict where not equal, never with a NaN.
pub proof fn law_order(a: Scalar, b: Scalar, c: Scalar)
    ensures
        a.le(b) <==> a.lt(b) || a.num_eq(b),
        !(a.lt(b) && b.le(a)),
        a.le(b) && b.le(c) ==> a.le(c),
        a.le(b) && b.le(a) <==> a.num_eq(b),
        !a.is_nan() && !b.is_nan() <==> a.le(b) || b.le(a),
        a.within(b, c) <==> b.le(a) && a.le(c),
        a.is_finite() ==> !a.is_nan(),
{
}

/// A number inside the bounds stays where it is clamped, one outside goes to the bound
/// that it is beyond.
pub proof fn law_clamping(a: Scalar, low: Scalar, high: Scalar)
    requires
        low.le(high),
    ensures
        a.within(low, high) ==> a.clamp(low, high) == a,
        a.lt(low) ==> a.clamp(low, high) == low,
        high.lt(a) ==> a.clamp(low, high) == high,
        a.is_nan() ==> a.clamp(low, high) == a,
{
}

} // verus!
