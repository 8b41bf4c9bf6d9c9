//! Laws of the host-memory backend.

use rand::rngs::StdRng;
use vstd::prelude::*;

use crate::arith::Arith;
use crate::cpu::{components_upto, dot_upto, squares_upto, xavier_row, xavier_rows, CpuLinAlg};
use crate::linalg::{LinAlg, MatView};
use crate::scalar::{lit, Scalar, ONE, SIX, ZERO};

verus! {

/// An inner product adds up the products of the components from the left. A product with
/// a matrix has the inner product with each row.
pub proof fn law_products<A: Arith + Clone>(
    m: MatView,
    a: Seq<Scalar>,
    b: Seq<Scalar>,
    r: int,
    k: nat,
)
    requires
        m.wf(),
        a.len() == m.cols,
        0 <= r < m.rows,
    ensures
        dot_upto::<A>(a, b, 0) == lit(ZERO),
        dot_upto::<A>(a, b, k + 1) == A::plus(
            dot_upto::<A>(a, b, k),
            A::times(a[k as int], b[k as int]),
        ),
        <CpuLinAlg<A> as LinAlg>::inner(a, b) == dot_upto::<A>(a, b, a.len()),
        <CpuLinAlg<A> as LinAlg>::product(m, a).len() == m.rows,
        <CpuLinAlg<A> as LinAlg>::product(m, a)[r] == dot_upto::<A>(m.data[r], a, m.cols),
        <CpuLinAlg<A> as LinAlg>::product(m, a)[r] == <CpuLinAlg<A> as LinAlg>::inner(
            m.data[r],
            a,
        ),
{
}

/// The root mean square is the root of the sum of all squares divided by the number of
/// all components, each counted list by list, and zero where there are none.
pub proof fn law_root_mean_square<A: Arith + Clone>(vs: Seq<Seq<Scalar>>, k: nat)
    requires
        k < vs.len(),
    ensures
        squares_upto::<A>(vs, 0) == lit(ZERO),
        squares_upto::<A>(vs, k + 1) == A::plus(
            squares_upto::<A>(vs, k),
            <CpuLinAlg<A> as LinAlg>::inner(vs[k as int], vs[k as int]),
        ),
        components_upto::<A>(vs, 0) == lit(ZERO),
        components_upto::<A>(vs, k + 1) == A::plus(
            components_upto::<A>(vs, k),
            A::count(vs[k as int].len()),
        ),
        ({
            let n = components_upto::<A>(vs, vs.len());
            <CpuLinAlg<A> as LinAlg>::rms(vs) == if n.num_eq(lit(ZERO)) {
                lit(ZERO)
            } else {
                A::root(A::over(squares_upto::<A>(vs, vs.len()), n))
            }
        }),
{
}

/// A fresh matrix is drawn row by row from the left, each entry uniformly from `[-1, 1]`
/// and then scaled by the root of six over the sum of rows and columns.
pub proof fn law_fresh_matrix<A: Arith + Clone>(rng: StdRng, rows: nat, cols: nat, k: nat)
    ensures
        ({
            let bound = A::root(A::over(lit(SIX), A::plus(A::count(rows), A::count(cols))));
            let (m, left) = <CpuLinAlg<A> as LinAlg>::xavier(rng, rows, cols);
            let (row, after_row) = xavier_row::<A>(rng, bound, k);
            let (u, next) = A::uniform_closed(after_row, lit(ONE).neg(), lit(ONE));
            let (upper, after_rows) = xavier_rows::<A>(rng, bound, k, cols);
            let (last, end) = xavier_row::<A>(after_rows, bound, cols);
            &&& m.rows == rows
            &&& m.cols == cols
            &&& (m.data, left) == xavier_rows::<A>(rng, bound, rows, cols)
            &&& xavier_row::<A>(rng, bound, 0) == (Seq::<Scalar>::empty(), rng)
            &&& xavier_row::<A>(rng, bound, k + 1) == (row.push(A::times(u, bound)), next)
            &&& xavier_rows::<A>(rng, bound, 0, cols) == (Seq::<Seq<Scalar>>::empty(), rng)
            &&& xavier_rows::<A>(rng, bound, k + 1, cols) == (upper.push(last), end)
        }),
{
}

} // verus!
