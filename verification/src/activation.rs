//! Activation functions of dense layers.

use vstd::prelude::*;

use crate::arith::Arith;
use crate::scalar::{lit, Scalar, ONE, ZERO};

verus! {

/// Non-linearity applied to each component of a layer's pre-activation.
#[derive(Clone, Copy, Debug, PartialEq, Eq, Structural)]
pub enum Activation {
    Tanh,
    Relu,
    Sigmoid,
    Elu,
    Softsign,
    Linear,
}

impl Activation {
    /// The activation of a pre-activation `x`.
    pub open spec fn value<A: Arith>(self, x: Scalar) -> Scalar {
        match self {
            Activation::Tanh => A::tanh(x),
            Activation::Relu => if lit(ZERO).lt(x) {
                x
            } else {
                lit(ZERO)
            },
            Activation::Sigmoid => A::over(lit(ONE), A::plus(lit(ONE), A::exp(x.neg()))),
            Activation::Elu => if lit(ZERO).lt(x) {
                x
            } else {
                A::minus(A::exp(x), lit(ONE))
            },
            Activation::Softsign => A::over(x, A::plus(lit(ONE), x.abs())),
            Activation::Linear => x,
        }
    }

    /// The slope at the point whose activation is `y`.
    pub open spec fn slope<A: Arith>(self, y: Scalar) -> Scalar {
        match self {
            Activation::Tanh => A::minus(lit(ONE), A::times(y, y)),
            Activation::Relu => if lit(ZERO).lt(y) {
                lit(ONE)
            } else {
                lit(ZERO)
            },
            Activation::Sigmoid => A::times(y, A::minus(lit(ONE), y)),
            Activation::Elu => if lit(ZERO).lt(y) {
                lit(ONE)
            } else {
                A::plus(y, lit(ONE))
            },
            Activation::Softsign => A::times(
                A::minus(lit(ONE), y.abs()),
                A::minus(lit(ONE), y.abs()),
            ),
            Activation::Linear => lit(ONE),
        }
    }

    /// Applies the activation to one pre-activation.
    pub fn apply<A: Arith>(self, x: Scalar) -> (r: Scalar)
        ensures
            r == self.value::<A>(x),
    {
        match self {
            Activation::Tanh => A::r_tanh(x),
            Activation::Relu => if lit(ZERO).lt(x) {
                x
            } else {
                lit(ZERO)
            },
            Activation::Sigmoid => A::r_div(lit(ONE), A::r_add(lit(ONE), A::r_exp(x.neg()))),
            Activation::Elu => if lit(ZERO).lt(x) {
                x
            } else {
                A::r_sub(A::r_exp(x), lit(ONE))
            },
            Activation::Softsign => A::r_div(x, A::r_add(lit(ONE), x.abs())),
            Activation::Linear => x,
        }
    }

    /// The slope of the activation, recovered from its output.
    pub fn derivative<A: Arith>(self, y: Scalar) -> (r: Scalar)
        ensures
            r == self.slope::<A>(y),
    {
        match self {
            Activation::Tanh => A::r_sub(lit(ONE), A::r_mul(y, y)),
            Activation::Relu => if lit(ZERO).lt(y) {
                lit(ONE)
            } else {
                lit(ZERO)
            },
            Activation::Sigmoid => A::r_mul(y, A::r_sub(lit(ONE), y)),
            Activation::Elu => if lit(ZERO).lt(y) {
                lit(ONE)
            } else {
                A::r_add(y, lit(ONE))
            },
            Activation::Softsign => {
                let gap = A::r_sub(lit(ONE), y.abs());
                A::r_mul(gap, gap)
            },
            Activation::Linear => lit(ONE),
        }
    }
}

/// An activation does not tell the two zeros apart.
pub proof fn lemma_activation_agrees<A: Arith>(act: Activation, x: Scalar, z: Scalar)
    requires
        x.same_number(z),
    ensures
        act.value::<A>(x).same_number(act.value::<A>(z)),
{
    let one = lit(ONE);
    A::equals_agree(x, one, z, one);
    match act {
        Activation::Sigmoid => {
            let (m, n) = (x.neg(), z.neg());
            A::equals_agree(m, one, n, one);
            A::equals_agree(one, A::exp(m), one, A::exp(n));
            let (d, e) = (A::plus(one, A::exp(m)), A::plus(one, A::exp(n)));
            if x.is_nan() {
                A::infinities_spread(m, one);
                A::infinities_spread(one, A::exp(m));
            }
            A::equals_agree(one, d, one, e);
        },
        Activation::Softsign => {
            A::equals_agree(one, x.abs(), one, z.abs());
            let (d, e) = (A::plus(one, x.abs()), A::plus(one, z.abs()));
            if x.is_nan() {
                A::infinities_spread(one, x.abs());
            } else {
                assert(x.abs() == z.abs());
            }
            A::equals_agree(x, d, z, e);
        },
        Activation::Elu => {
            A::equals_agree(A::exp(x), one, A::exp(z), one);
        },
        _ => {},
    }
}

} // verus!
