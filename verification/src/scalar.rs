//! IEEE-754 double-precision numbers carried by their bit pattern.
//!
//! Ordering, finiteness tests, sign changes and clamping are exact functions of
//! the bits and are decided here. Rounded arithmetic is supplied by
//! [`Arith`](crate::arith::Arith).

use vstd::prelude::*;

verus! {

/// Weight of the sign bit.
pub const SIGN_WEIGHT: u64 = 0x8000_0000_0000_0000;

/// Magnitude of the two infinities; every larger magnitude is a NaN.
pub const INFINITE_MAGNITUDE: u64 = 0x7FF0_0000_0000_0000;

/// A double-precision number.
///
/// `==` on this type compares bit patterns. [`Scalar::num_eq`] is numeric equality,
/// under which the two zeros are equal and a NaN equals nothing.
#[derive(Clone, Copy, Debug, PartialEq, Eq, Structural)]
pub struct Scalar {
    /// The binary64 encoding.
    pub bits: u64,
}

/// `0.0`
pub const ZERO: u64 = 0x0000_0000_0000_0000;

/// `0.5`
pub const HALF: u64 = 0x3FE0_0000_0000_0000;

/// `1.0`
pub const ONE: u64 = 0x3FF0_0000_0000_0000;

/// `1.5`
pub const ONE_AND_HALF: u64 = 0x3FF8_0000_0000_0000;

/// `2.0`
pub const TWO: u64 = 0x4000_0000_0000_0000;

/// `4.0`
pub const FOUR: u64 = 0x4010_0000_0000_0000;

/// `6.0`
pub const SIX: u64 = 0x4018_0000_0000_0000;

/// `10.0`
pub const TEN: u64 = 0x4024_0000_0000_0000;

/// The double nearest to pi.
pub const PI: u64 = 0x4009_21FB_5444_2D18;

/// The distance from `1.0` to the next larger double.
pub const EPSILON: u64 = 0x3CB0_0000_0000_0000;

/// Minus infinity.
pub const NEG_INFINITY: u64 = 0xFFF0_0000_0000_0000;

/// `-0.0`
pub const NEG_ZERO: u64 = 0x8000_0000_0000_0000;

/// The number with the given encoding.
pub open spec fn spec_lit(bits: u64) -> Scalar {
    Scalar { bits }
}

/// The number with the given encoding.
#[verifier::when_used_as_spec(spec_lit)]
pub fn lit(bits: u64) -> (r: Scalar)
    ensures
        r == lit(bits),
{
    Scalar { bits }
}

impl Scalar {
    /// The encoding without its sign.
    pub open spec fn magnitude(self) -> int {
        if self.bits >= SIGN_WEIGHT {
            self.bits - SIGN_WEIGHT
        } else {
            self.bits as int
        }
    }

    /// Position of the number on the ordered line of all non-NaN doubles.
    /// Both zeros stand at `0`; infinities stand at the two ends.
    pub open spec fn rank(self) -> int {
        if self.bits >= SIGN_WEIGHT {
            -self.magnitude()
        } else {
            self.magnitude()
        }
    }

    pub open spec fn spec_is_nan(self) -> bool {
        self.magnitude() > INFINITE_MAGNITUDE
    }

    pub open spec fn spec_is_finite(self) -> bool {
        self.magnitude() < INFINITE_MAGNITUDE
    }

    pub open spec fn spec_lt(self, other: Scalar) -> bool {
        !self.spec_is_nan() && !other.spec_is_nan() && self.rank() < other.rank()
    }

    pub open spec fn spec_le(self, other: Scalar) -> bool {
        !self.spec_is_nan() && !other.spec_is_nan() && self.rank() <= other.rank()
    }

    pub open spec fn spec_num_eq(self, other: Scalar) -> bool {
        !self.spec_is_nan() && !other.spec_is_nan() && self.rank() == other.rank()
    }

    /// At least `bound`, or NaN on either side.
    pub open spec fn not_below(self, bound: Scalar) -> bool {
        self.spec_is_nan() || bound.spec_is_nan() || bound.spec_le(self)
    }

    /// At most `bound`, or NaN on either side.
    pub open spec fn not_above(self, bound: Scalar) -> bool {
        self.spec_is_nan() || bound.spec_is_nan() || self.spec_le(bound)
    }

    /// Positive, or NaN.
    pub open spec fn above_zero(self) -> bool {
        self.spec_is_nan() || lit(ZERO).spec_lt(self)
    }

    /// Numerically equal, or NaN both.
    pub open spec fn same_number(self, other: Scalar) -> bool {
        self.spec_num_eq(other) || (self.spec_is_nan() && other.spec_is_nan())
    }

    pub open spec fn spec_within(self, low: Scalar, high: Scalar) -> bool {
        low.spec_le(self) && self.spec_le(high)
    }

    pub open spec fn spec_abs(self) -> Scalar {
        Scalar { bits: self.magnitude() as u64 }
    }

    pub open spec fn spec_neg(self) -> Scalar {
        if self.bits >= SIGN_WEIGHT {
            Scalar { bits: (self.bits - SIGN_WEIGHT) as u64 }
        } else {
            Scalar { bits: (self.bits + SIGN_WEIGHT) as u64 }
        }
    }

    pub open spec fn spec_max(self, other: Scalar) -> Scalar {
        if self.spec_is_nan() || self.spec_lt(other) {
            other
        } else {
            self
        }
    }

    pub open spec fn spec_min(self, other: Scalar) -> Scalar {
        if self.spec_is_nan() || other.spec_lt(self) {
            other
        } else {
            self
        }
    }

    pub open spec fn spec_clamp(self, low: Scalar, high: Scalar) -> Scalar {
        if self.spec_lt(low) {
            low
        } else if high.spec_lt(self) {
            high
        } else {
            self
        }
    }

    fn split(self) -> (r: (bool, u64))
        ensures
            r.0 == (self.bits >= SIGN_WEIGHT),
            r.1 == self.magnitude(),
    {
        if self.bits >= SIGN_WEIGHT {
            (true, self.bits - SIGN_WEIGHT)
        } else {
            (false, self.bits)
        }
    }

    /// Whether this encodes no number.
    #[verifier::when_used_as_spec(spec_is_nan)]
    pub fn is_nan(self) -> (r: bool)
        ensures
            r == self.is_nan(),
    {
        self.split().1 > INFINITE_MAGNITUDE
    }

    /// Whether this is neither infinite nor NaN.
    #[verifier::when_used_as_spec(spec_is_finite)]
    pub fn is_finite(self) -> (r: bool)
        ensures
            r == self.is_finite(),
    {
        self.split().1 < INFINITE_MAGNITUDE
    }

    /// Numeric `<`; false when either side is NaN.
    #[verifier::when_used_as_spec(spec_lt)]
    pub fn lt(self, other: Scalar) -> (r: bool)
        ensures
            r == self.lt(other),
    {
        let (a_neg, a) = self.split();
        let (b_neg, b) = other.split();
        if a > INFINITE_MAGNITUDE || b > INFINITE_MAGNITUDE {
            false
        } else if a_neg {
            if b_neg {
                b < a
            } else {
                a > 0 || b > 0
            }
        } else {
            !b_neg && a < b
        }
    }

    /// Numeric `<=`; false when either side is NaN.
    #[verifier::when_used_as_spec(spec_le)]
    pub fn le(self, other: Scalar) -> (r: bool)
        ensures
            r == self.le(other),
    {
        !self.is_nan() && !other.is_nan() && !other.lt(self)
    }

    /// Numeric `==`; false when either side is NaN.
    #[verifier::when_used_as_spec(spec_num_eq)]
    pub fn num_eq(self, other: Scalar) -> (r: bool)
        ensures
            r == self.num_eq(other),
    {
        self.le(other) && other.le(self)
    }

    /// Whether the number lies in the closed interval `[low, high]`.
    #[verifier::when_used_as_spec(spec_within)]
    pub fn within(self, low: Scalar, high: Scalar) -> (r: bool)
        ensures
            r == self.within(low, high),
    {
        low.le(self) && self.le(high)
    }

    /// The number with its sign cleared.
    #[verifier::when_used_as_spec(spec_abs)]
    pub fn abs(self) -> (r: Scalar)
        ensures
            r == self.abs(),
    {
        Scalar { bits: self.split().1 }
    }

    /// The number with its sign flipped.
    #[verifier::when_used_as_spec(spec_neg)]
    pub fn neg(self) -> (r: Scalar)
        ensures
            r == self.neg(),
    {
        if self.bits >= SIGN_WEIGHT {
            Scalar { bits: self.bits - SIGN_WEIGHT }
        } else {
            Scalar { bits: self.bits + SIGN_WEIGHT }
        }
    }

    /// The larger number; a NaN yields to the other side.
    #[verifier::when_used_as_spec(spec_max)]
    pub fn max(self, other: Scalar) -> (r: Scalar)
        ensures
            r == self.max(other),
    {
        if self.is_nan() || self.lt(other) {
            other
        } else {
            self
        }
    }

    /// The smaller number; a NaN yields to the other side.
    #[verifier::when_used_as_spec(spec_min)]
    pub fn min(self, other: Scalar) -> (r: Scalar)
        ensures
            r == self.min(other),
    {
        if self.is_nan() || other.lt(self) {
            other
        } else {
            self
        }
    }

    /// The nearest number in `[low, high]`; a NaN stays NaN.
    #[verifier::when_used_as_spec(spec_clamp)]
    pub fn clamp(self, low: Scalar, high: Scalar) -> (r: Scalar)
        ensures
            r == self.clamp(low, high),
    {
        if self.lt(low) {
            low
        } else if high.lt(self) {
            high
        } else {
            self
        }
    }
}

/// Clamping lands inside the interval unless the number is NaN, and leaves
/// numbers of the interval alone.
pub proof fn law_clamp_lands_in_interval(x: Scalar, low: Scalar, high: Scalar)
    requires
        low.le(high),
    ensures
        !x.is_nan() ==> x.clamp(low, high).within(low, high),
        x.is_nan() ==> x.clamp(low, high) == x,
        x.within(low, high) ==> x.clamp(low, high) == x,
{
}

/// Of any two numbers exactly one of `<`, numeric equality and `>` holds;
/// none of them holds where a NaN is involved.
pub proof fn law_order_is_total_off_nan(a: Scalar, b: Scalar)
    ensures
        !a.is_nan() && !b.is_nan() ==> (a.lt(b) || a.num_eq(b) || b.lt(a)),
        a.is_nan() || b.is_nan() ==> !a.le(b) && !b.le(a) && !a.num_eq(b),
        !(a.lt(b) && b.le(a)),
{
}

} // verus!
