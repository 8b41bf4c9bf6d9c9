//! Weighted sums of parameters.

use vstd::prelude::*;

use crate::arith::Arith;
use crate::layer::LayerView;
use crate::linalg::{lemma_mat_ext, lemma_mat_set, LinAlg, MatView};
use crate::scalar::{lit, Scalar, ONE, ZERO};

verus! {

/// `a * x + b * y`
pub open spec fn weighted<A: Arith>(a: Scalar, x: Scalar, b: Scalar, y: Scalar) -> Scalar {
    A::plus(A::times(a, x), A::times(b, y))
}

/// `a * x + b * y`, component by component.
pub open spec fn v_weighted<A: Arith>(
    a: Scalar,
    x: Seq<Scalar>,
    b: Scalar,
    y: Seq<Scalar>,
) -> Seq<Scalar> {
    Seq::new(x.len(), |i: int| weighted::<A>(a, x[i], b, y[i]))
}

/// `a * x + b * y`, entry by entry.
pub open spec fn m_weighted<A: Arith>(a: Scalar, x: MatView, b: Scalar, y: MatView) -> MatView {
    MatView::tabulate(
        x.rows,
        x.cols,
        |r: int, c: int| weighted::<A>(a, x.at(r, c), b, y.at(r, c)),
    )
}

impl LayerView {
    /// `a * self + b * other` in weights and biases, with the activation of
    /// `self`.
    pub open spec fn weighted<A: Arith>(self, a: Scalar, b: Scalar, other: LayerView) -> LayerView {
        LayerView {
            weights: m_weighted::<A>(a, self.weights, b, other.weights),
            bias: v_weighted::<A>(a, self.bias, b, other.bias),
            activation: self.activation,
        }
    }

    /// The weights and biases of `other` under the activation of `self`.
    pub open spec fn overwritten(self, other: LayerView) -> LayerView {
        LayerView { weights: other.weights, bias: other.bias, activation: self.activation }
    }
}

/// A weight of one on `x` and of zero on `y` gives back `x`, as far as both are
/// finite.
pub open spec fn first_alone<A: Arith>(a: Scalar, x: Scalar, b: Scalar, y: Scalar) -> bool {
    a == lit(ONE) && b.num_eq(lit(ZERO)) && x.is_finite() && y.is_finite() ==> weighted::<A>(
        a,
        x,
        b,
        y,
    ).num_eq(x)
}

/// [`first_alone`] for every component.
pub open spec fn v_first_alone<A: Arith>(
    a: Scalar,
    x: Seq<Scalar>,
    b: Scalar,
    y: Seq<Scalar>,
) -> bool {
    forall|i: int| 0 <= i < x.len() ==> first_alone::<A>(a, #[trigger] x[i], b, y[i])
}

/// [`first_alone`] for every entry.
pub open spec fn m_first_alone<A: Arith>(a: Scalar, x: MatView, b: Scalar, y: MatView) -> bool {
    forall|r: int, c: int|
        0 <= r < x.rows && 0 <= c < x.cols ==> first_alone::<A>(
            a,
            #[trigger] x.at(r, c),
            b,
            y.at(r, c),
        )
}

/// `a * x + b * y`
pub fn weigh<A: Arith>(a: Scalar, x: Scalar, b: Scalar, y: Scalar) -> (r: Scalar)
    ensures
        r == weighted::<A>(a, x, b, y),
        first_alone::<A>(a, x, b, y),
{
    A::r_add(A::r_mul(a, x), A::r_mul(b, y))
}

/// `a * x + b * y`, component by component.
pub fn weigh_list<A: Arith>(a: Scalar, x: &Vec<Scalar>, b: Scalar, y: &Vec<Scalar>) -> (r: Vec<
    Scalar,
>)
    requires
        x@.len() == y@.len(),
    ensures
        r@ == v_weighted::<A>(a, x@, b, y@),
        v_first_alone::<A>(a, x@, b, y@),
{
    let mut out: Vec<Scalar> = Vec::new();
    let mut i: usize = 0;
    while i < x.len()
        invariant
            i <= x.len(),
            x@.len() == y@.len(),
            out@ == v_weighted::<A>(a, x@, b, y@).take(i as int),
            forall|k: int| 0 <= k < i ==> first_alone::<A>(a, #[trigger] x@[k], b, y@[k]),
        decreases x.len() - i,
    {
        out.push(weigh::<A>(a, x[i], b, y[i]));
        i = i + 1;
        assert(out@ =~= v_weighted::<A>(a, x@, b, y@).take(i as int));
    }
    assert(out@ =~= v_weighted::<A>(a, x@, b, y@));
    out
}

/// `a * x + b * y`, component by component.
pub fn weigh_vec<L: LinAlg>(
    backend: &L,
    a: Scalar,
    x: &L::Vector,
    b: Scalar,
    y: &L::Vector,
) -> (r: L::Vector)
    requires
        L::vec_view(*x).len() == L::vec_view(*y).len(),
    ensures
        L::vec_view(r) == v_weighted::<L>(a, L::vec_view(*x), b, L::vec_view(*y)),
        v_first_alone::<L>(a, L::vec_view(*x), b, L::vec_view(*y)),
{
    let ghost xv = L::vec_view(*x);
    let ghost yv = L::vec_view(*y);
    let n: usize = backend.vec_len(x);
    let mut out = backend.zeros_vec(n);
    let mut i: usize = 0;
    while i < n
        invariant
            i <= n,
            xv == L::vec_view(*x),
            yv == L::vec_view(*y),
            n == xv.len(),
            n == yv.len(),
            n == L::vec_view(out).len(),
            forall|k: int|
                0 <= k < i ==> #[trigger] L::vec_view(out)[k] == weighted::<L>(
                    a,
                    xv[k],
                    b,
                    yv[k],
                ),
            forall|k: int| 0 <= k < i ==> first_alone::<L>(a, #[trigger] xv[k], b, yv[k]),
        decreases n - i,
    {
        let v = weigh::<L>(a, backend.vec_get(x, i), b, backend.vec_get(y, i));
        backend.vec_set(&mut out, i, v);
        i = i + 1;
    }
    assert(L::vec_view(out) =~= v_weighted::<L>(a, xv, b, yv));
    out
}

/// `a * x + b * y`, entry by entry.
pub fn weigh_mat<L: LinAlg>(
    backend: &L,
    a: Scalar,
    x: &L::Matrix,
    b: Scalar,
    y: &L::Matrix,
) -> (out: L::Matrix)
    requires
        L::mat_view(*x).wf(),
        L::mat_view(*y).wf(),
        L::mat_view(*x).same_shape(L::mat_view(*y)),
    ensures
        L::mat_view(out) == m_weighted::<L>(a, L::mat_view(*x), b, L::mat_view(*y)),
        m_first_alone::<L>(a, L::mat_view(*x), b, L::mat_view(*y)),
{
    let ghost xv = L::mat_view(*x);
    let ghost yv = L::mat_view(*y);
    let ghost target = m_weighted::<L>(a, xv, b, yv);
    let rows: usize = backend.mat_rows(x);
    let cols: usize = backend.mat_cols(x);
    let mut out = backend.zeros_mat(rows, cols);
    let mut r: usize = 0;
    while r < rows
        invariant
            r <= rows,
            xv == L::mat_view(*x),
            yv == L::mat_view(*y),
            xv.wf(),
            yv.wf(),
            xv.same_shape(yv),
            xv.rows == rows,
            xv.cols == cols,
            target == m_weighted::<L>(a, xv, b, yv),
            L::mat_view(out).wf(),
            L::mat_view(out).same_shape(xv),
            forall|i: int, j: int|
                0 <= i < r && 0 <= j < cols ==> #[trigger] L::mat_view(out).at(i, j) == target.at(
                    i,
                    j,
                ),
            forall|i: int, j: int|
                0 <= i < r && 0 <= j < cols ==> first_alone::<L>(
                    a,
                    #[trigger] xv.at(i, j),
                    b,
                    yv.at(i, j),
                ),
        decreases rows - r,
    {
        let mut c: usize = 0;
        while c < cols
            invariant
                c <= cols,
                r < rows,
                xv == L::mat_view(*x),
                yv == L::mat_view(*y),
                xv.wf(),
                yv.wf(),
                xv.same_shape(yv),
                xv.rows == rows,
                xv.cols == cols,
                target == m_weighted::<L>(a, xv, b, yv),
                L::mat_view(out).wf(),
                L::mat_view(out).same_shape(xv),
                forall|i: int, j: int|
                    0 <= j < cols && (0 <= i < r || (i == r && j < c)) ==> #[trigger] L::mat_view(
                        out,
                    ).at(i, j) == target.at(i, j),
                forall|i: int, j: int|
                    0 <= j < cols && (0 <= i < r || (i == r && j < c)) ==> first_alone::<L>(
                        a,
                        #[trigger] xv.at(i, j),
                        b,
                        yv.at(i, j),
                    ),
            decreases cols - c,
        {
            let v = weigh::<L>(a, backend.mat_get(x, r, c), b, backend.mat_get(y, r, c));
            proof {
                lemma_mat_set(L::mat_view(out), r as int, c as int, v);
            }
            backend.mat_set(&mut out, r, c, v);
            c = c + 1;
        }
        r = r + 1;
    }
    proof {
        lemma_mat_ext(L::mat_view(out), target);
    }
    out
}

} // verus!
