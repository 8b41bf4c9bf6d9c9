//! Vectors and matrices behind a backend-agnostic interface.

use rand::rngs::StdRng;
use vstd::prelude::*;

use crate::activation::Activation;
use crate::arith::Arith;
use crate::scalar::{lit, Scalar, ZERO};

verus! {

/// The mathematical content of a matrix, row by row.
#[verifier::ext_equal]
pub struct MatView {
    pub rows: nat,
    pub cols: nat,
    pub data: Seq<Seq<Scalar>>,
}

impl MatView {
    /// Every row has `cols` entries and there are `rows` rows.
    pub open spec fn wf(self) -> bool {
        &&& self.data.len() == self.rows
        &&& forall|r: int| 0 <= r < self.rows ==> (#[trigger] self.data[r]).len() == self.cols
    }

    pub open spec fn at(self, r: int, c: int) -> Scalar {
        self.data[r][c]
    }

    pub open spec fn same_shape(self, other: MatView) -> bool {
        self.rows == other.rows && self.cols == other.cols
    }

    /// The matrix whose entry at `(r, c)` is `f(r, c)`.
    pub open spec fn tabulate(rows: nat, cols: nat, f: spec_fn(int, int) -> Scalar) -> MatView {
        MatView {
            rows,
            cols,
            data: Seq::new(rows, |r: int| Seq::new(cols, |c: int| f(r, c))),
        }
    }

    pub open spec fn zeros(rows: nat, cols: nat) -> MatView {
        MatView::tabulate(rows, cols, |r: int, c: int| lit(ZERO))
    }

    /// The matrix with the entry at `(r, c)` replaced by `x`.
    pub open spec fn set(self, r: int, c: int, x: Scalar) -> MatView {
        MatView {
            rows: self.rows,
            cols: self.cols,
            data: self.data.update(r, self.data[r].update(c, x)),
        }
    }

    pub open spec fn transpose(self) -> MatView {
        MatView::tabulate(self.cols, self.rows, |r: int, c: int| self.at(c, r))
    }

    /// Every entry replaced by `f` of it.
    pub open spec fn map(self, f: spec_fn(Scalar) -> Scalar) -> MatView {
        MatView::tabulate(self.rows, self.cols, |r: int, c: int| f(self.at(r, c)))
    }
}

/// Two well-formed matrices of one shape with the same entries are equal.
pub proof fn lemma_mat_ext(a: MatView, b: MatView)
    requires
        a.wf(),
        b.wf(),
        a.same_shape(b),
        forall|r: int, c: int| 0 <= r < a.rows && 0 <= c < a.cols ==> a.at(r, c) == b.at(r, c),
    ensures
        a == b,
{
    assert forall|r: int| 0 <= r < a.rows implies a.data[r] == b.data[r] by {
        assert forall|c: int| 0 <= c < a.cols implies a.data[r][c] == b.data[r][c] by {
            assert(a.at(r, c) == b.at(r, c));
        }
        assert(a.data[r] =~= b.data[r]);
    }
    assert(a.data =~= b.data);
}

/// Replacing one entry keeps the shape and every other entry.
pub proof fn lemma_mat_set(m: MatView, r: int, c: int, x: Scalar)
    requires
        m.wf(),
        0 <= r < m.rows,
        0 <= c < m.cols,
    ensures
        m.set(r, c, x).wf(),
        m.set(r, c, x).same_shape(m),
        forall|i: int, j: int|
            0 <= i < m.rows && 0 <= j < m.cols ==> #[trigger] m.set(r, c, x).at(i, j) == if i == r
                && j == c {
                x
            } else {
                m.at(i, j)
            },
{
}

/// Component-wise sum.
pub open spec fn v_add<A: Arith>(a: Seq<Scalar>, b: Seq<Scalar>) -> Seq<Scalar> {
    Seq::new(a.len(), |i: int| A::plus(a[i], b[i]))
}

/// Component-wise difference.
pub open spec fn v_sub<A: Arith>(a: Seq<Scalar>, b: Seq<Scalar>) -> Seq<Scalar> {
    Seq::new(a.len(), |i: int| A::minus(a[i], b[i]))
}

/// Component-wise product.
pub open spec fn v_mul<A: Arith>(a: Seq<Scalar>, b: Seq<Scalar>) -> Seq<Scalar> {
    Seq::new(a.len(), |i: int| A::times(a[i], b[i]))
}

/// Every component multiplied by `s`.
pub open spec fn v_scale<A: Arith>(a: Seq<Scalar>, s: Scalar) -> Seq<Scalar> {
    Seq::new(a.len(), |i: int| A::times(a[i], s))
}

/// Every component clamped to `[-limit, limit]`.
pub open spec fn v_clip(a: Seq<Scalar>, limit: Scalar) -> Seq<Scalar> {
    Seq::new(a.len(), |i: int| a[i].clamp(limit.neg(), limit))
}

/// Every component zero.
pub open spec fn v_zeros(n: nat) -> Seq<Scalar> {
    Seq::new(n, |i: int| lit(ZERO))
}

/// Two lists of the same numbers.
pub open spec fn same_list(a: Seq<Scalar>, b: Seq<Scalar>) -> bool {
    &&& a.len() == b.len()
    &&& forall|i: int|
        #![trigger a[i]]
        #![trigger b[i]]
        0 <= i < a.len() ==> a[i].same_number(b[i])
}

/// Every component put through an activation.
pub open spec fn v_activate<A: Arith>(a: Seq<Scalar>, act: Activation) -> Seq<Scalar> {
    Seq::new(a.len(), |i: int| act.value::<A>(a[i]))
}

/// The slopes of an activation at a vector of its outputs.
pub open spec fn v_slope<A: Arith>(a: Seq<Scalar>, act: Activation) -> Seq<Scalar> {
    Seq::new(a.len(), |i: int| act.slope::<A>(a[i]))
}

/// The matrix of products `a[r] * b[c]`.
pub open spec fn m_outer<A: Arith>(a: Seq<Scalar>, b: Seq<Scalar>) -> MatView {
    MatView::tabulate(a.len(), b.len(), |r: int, c: int| A::times(a[r], b[c]))
}

/// `m + s * d`, entry by entry.
pub open spec fn m_add_scaled<A: Arith>(m: MatView, d: MatView, s: Scalar) -> MatView {
    MatView::tabulate(
        m.rows,
        m.cols,
        |r: int, c: int| A::plus(m.at(r, c), A::times(d.at(r, c), s)),
    )
}

/// Every entry clamped to `[-limit, limit]`.
pub open spec fn m_clip(m: MatView, limit: Scalar) -> MatView {
    m.map(|x: Scalar| x.clamp(limit.neg(), limit))
}

/// A linear-algebra backend.
///
/// Vectors and matrices are opaque values of the backend; [`LinAlg::vec_view`]
/// and [`LinAlg::mat_view`] give their content. Reductions (`product`, `inner`,
/// `rms`) are left to the backend, which fixes their order of summation.
pub trait LinAlg: Arith + Clone {
    type Vector;

    type Matrix;

    /// The components of a vector.
    open spec fn vec_view(v: Self::Vector) -> Seq<Scalar> {
        arbitrary()
    }

    /// The entries of a matrix.
    open spec fn mat_view(m: Self::Matrix) -> MatView {
        arbitrary()
    }

    /// The product of a matrix and a vector.
    open spec fn product(m: MatView, v: Seq<Scalar>) -> Seq<Scalar> {
        arbitrary()
    }

    /// The inner product of two vectors.
    open spec fn inner(a: Seq<Scalar>, b: Seq<Scalar>) -> Scalar {
        arbitrary()
    }

    /// The root mean square over all components of a list of vectors.
    open spec fn rms(vs: Seq<Seq<Scalar>>) -> Scalar {
        arbitrary()
    }

    /// A freshly initialised weight matrix and the generator left behind.
    open spec fn xavier(rng: StdRng, rows: nat, cols: nat) -> (MatView, StdRng) {
        arbitrary()
    }

    /// A product has one entry per row of its matrix.
    proof fn product_has_one_entry_per_row(m: MatView, v: Seq<Scalar>)
        requires
            m.wf(),
            v.len() == m.cols,
        ensures
            Self::product(m, v).len() == m.rows,
    ;

    /// Vectors of the same numbers have products of the same numbers.
    proof fn equal_vectors_agree(m: MatView, v: Seq<Scalar>, w: Seq<Scalar>)
        requires
            m.wf(),
            v.len() == m.cols,
            same_list(v, w),
        ensures
            same_list(Self::product(m, v), Self::product(m, w)),
    ;

    fn vec_from_slice(&self, s: &[Scalar]) -> (r: Self::Vector)
        ensures
            Self::vec_view(r) == s@,
    ;

    fn vec_to_vec(&self, v: &Self::Vector) -> (r: Vec<Scalar>)
        ensures
            r@ == Self::vec_view(*v),
    ;

    fn vec_clone(&self, v: &Self::Vector) -> (r: Self::Vector)
        ensures
            Self::vec_view(r) == Self::vec_view(*v),
    ;

    fn vec_len(&self, v: &Self::Vector) -> (n: usize)
        ensures
            n == Self::vec_view(*v).len(),
    ;

    fn vec_get(&self, v: &Self::Vector, i: usize) -> (x: Scalar)
        requires
            i < Self::vec_view(*v).len(),
        ensures
            x == Self::vec_view(*v)[i as int],
    ;

    fn vec_set(&self, v: &mut Self::Vector, i: usize, x: Scalar)
        requires
            i < Self::vec_view(*old(v)).len(),
        ensures
            Self::vec_view(*final(v)) == Self::vec_view(*old(v)).update(i as int, x),
    ;

    fn zeros_vec(&self, n: usize) -> (r: Self::Vector)
        ensures
            Self::vec_view(r) == v_zeros(n as nat),
    ;

    fn vec_add(&self, a: &Self::Vector, b: &Self::Vector) -> (r: Self::Vector)
        requires
            Self::vec_view(*a).len() == Self::vec_view(*b).len(),
        ensures
            Self::vec_view(r) == v_add::<Self>(Self::vec_view(*a), Self::vec_view(*b)),
    ;

    fn vec_sub(&self, a: &Self::Vector, b: &Self::Vector) -> (r: Self::Vector)
        requires
            Self::vec_view(*a).len() == Self::vec_view(*b).len(),
        ensures
            Self::vec_view(r) == v_sub::<Self>(Self::vec_view(*a), Self::vec_view(*b)),
    ;

    fn vec_scale(&self, a: &Self::Vector, s: Scalar) -> (r: Self::Vector)
        ensures
            Self::vec_view(r) == v_scale::<Self>(Self::vec_view(*a), s),
    ;

    fn vec_hadamard(&self, a: &Self::Vector, b: &Self::Vector) -> (r: Self::Vector)
        requires
            Self::vec_view(*a).len() == Self::vec_view(*b).len(),
        ensures
            Self::vec_view(r) == v_mul::<Self>(Self::vec_view(*a), Self::vec_view(*b)),
    ;

    fn vec_dot(&self, a: &Self::Vector, b: &Self::Vector) -> (r: Scalar)
        requires
            Self::vec_view(*a).len() == Self::vec_view(*b).len(),
        ensures
            r == Self::inner(Self::vec_view(*a), Self::vec_view(*b)),
    ;

    fn clip_vec(&self, v: &mut Self::Vector, limit: Scalar)
        ensures
            Self::vec_view(*final(v)) == v_clip(Self::vec_view(*old(v)), limit),
    ;

    fn apply_activation(&self, v: &Self::Vector, act: Activation) -> (r: Self::Vector)
        ensures
            Self::vec_view(r) == v_activate::<Self>(Self::vec_view(*v), act),
    ;

    fn apply_derivative(&self, v: &Self::Vector, act: Activation) -> (r: Self::Vector)
        ensures
            Self::vec_view(r) == v_slope::<Self>(Self::vec_view(*v), act),
    ;

    /// Root mean square over all components of all vectors.
    fn rms_error(&self, vs: &Vec<Self::Vector>) -> (r: Scalar)
        ensures
            r == Self::rms(vs@.map_values(|v: Self::Vector| Self::vec_view(v))),
    ;

    fn zeros_mat(&self, rows: usize, cols: usize) -> (r: Self::Matrix)
        ensures
            Self::mat_view(r) == MatView::zeros(rows as nat, cols as nat),
    ;

    /// A weight matrix with entries drawn from `rng`.
    fn xavier_mat(&self, rows: usize, cols: usize, rng: &mut StdRng) -> (r: Self::Matrix)
        ensures
            (Self::mat_view(r), *final(rng)) == Self::xavier(*old(rng), rows as nat, cols as nat),
            Self::mat_view(r).wf(),
            Self::mat_view(r).rows == rows,
            Self::mat_view(r).cols == cols,
    ;

    fn mat_clone(&self, m: &Self::Matrix) -> (r: Self::Matrix)
        ensures
            Self::mat_view(r) == Self::mat_view(*m),
    ;

    fn mat_rows(&self, m: &Self::Matrix) -> (n: usize)
        ensures
            n == Self::mat_view(*m).rows,
    ;

    fn mat_cols(&self, m: &Self::Matrix) -> (n: usize)
        ensures
            n == Self::mat_view(*m).cols,
    ;

    fn mat_get(&self, m: &Self::Matrix, r: usize, c: usize) -> (x: Scalar)
        requires
            Self::mat_view(*m).wf(),
            r < Self::mat_view(*m).rows,
            c < Self::mat_view(*m).cols,
        ensures
            x == Self::mat_view(*m).at(r as int, c as int),
    ;

    fn mat_set(&self, m: &mut Self::Matrix, r: usize, c: usize, x: Scalar)
        requires
            Self::mat_view(*old(m)).wf(),
            r < Self::mat_view(*old(m)).rows,
            c < Self::mat_view(*old(m)).cols,
        ensures
            Self::mat_view(*final(m)) == Self::mat_view(*old(m)).set(r as int, c as int, x),
    ;

    fn mat_vec_mul(&self, m: &Self::Matrix, v: &Self::Vector) -> (r: Self::Vector)
        requires
            Self::mat_view(*m).wf(),
            Self::mat_view(*m).cols == Self::vec_view(*v).len(),
        ensures
            Self::vec_view(r) == Self::product(Self::mat_view(*m), Self::vec_view(*v)),
            Self::vec_view(r).len() == Self::mat_view(*m).rows,
    ;

    fn mat_transpose(&self, m: &Self::Matrix) -> (r: Self::Matrix)
        requires
            Self::mat_view(*m).wf(),
        ensures
            Self::mat_view(r) == Self::mat_view(*m).transpose(),
    ;

    fn outer_product(&self, a: &Self::Vector, b: &Self::Vector) -> (r: Self::Matrix)
        ensures
            Self::mat_view(r) == m_outer::<Self>(Self::vec_view(*a), Self::vec_view(*b)),
    ;

    /// Adds `s * d` to `m`.
    fn mat_scale_add(&self, m: &mut Self::Matrix, d: &Self::Matrix, s: Scalar)
        requires
            Self::mat_view(*old(m)).wf(),
            Self::mat_view(*d).wf(),
            Self::mat_view(*old(m)).same_shape(Self::mat_view(*d)),
        ensures
            Self::mat_view(*final(m)) == m_add_scaled::<Self>(
                Self::mat_view(*old(m)),
                Self::mat_view(*d),
                s,
            ),
    ;
}

} // verus!
