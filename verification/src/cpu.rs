//! The host-memory backend.

use rand::rngs::StdRng;
use vstd::prelude::*;

use crate::activation::Activation;
use crate::arith::Arith;
use crate::linalg::{
    m_add_scaled, m_outer, same_list, v_activate, v_add, v_clip, v_mul, v_scale, v_slope, v_sub,
    LinAlg, MatView,
};
use crate::matrix::{copy_of, zeros, Matrix};
use crate::scalar::{lit, Scalar, ONE, SIX, ZERO};

verus! {

/// A backend that keeps vectors and matrices in host memory and computes with
/// the number system `A`.
#[derive(Clone, Debug)]
pub struct CpuLinAlg<A> {
    pub arith: A,
}

impl<A> CpuLinAlg<A> {
    pub fn new(arith: A) -> (r: Self)
        ensures
            r.arith == arith,
    {
        CpuLinAlg { arith }
    }
}

/// `a[0] * b[0] + .. + a[n-1] * b[n-1]`, summed from the left.
pub open spec fn dot_upto<A: Arith>(a: Seq<Scalar>, b: Seq<Scalar>, n: nat) -> Scalar
    decreases n,
{
    if n == 0 {
        lit(ZERO)
    } else {
        A::plus(
            dot_upto::<A>(a, b, (n - 1) as nat),
            A::times(a[n - 1], b[n - 1]),
        )
    }
}

/// Vectors of the same numbers have the same dot products.
proof fn lemma_dot_agrees<A: Arith>(a: Seq<Scalar>, v: Seq<Scalar>, w: Seq<Scalar>, n: nat)
    requires
        n <= v.len(),
        same_list(v, w),
    ensures
        dot_upto::<A>(a, v, n).same_number(dot_upto::<A>(a, w, n)),
    decreases n,
{
    if n > 0 {
        lemma_dot_agrees::<A>(a, v, w, (n - 1) as nat);
        assert(v[n - 1].same_number(w[n - 1]));
        A::equals_agree(a[n - 1], v[n - 1], a[n - 1], w[n - 1]);
        A::equals_agree(
            dot_upto::<A>(a, v, (n - 1) as nat),
            A::times(a[n - 1], v[n - 1]),
            dot_upto::<A>(a, w, (n - 1) as nat),
            A::times(a[n - 1], w[n - 1]),
        );
    }
}

/// The squares of the first `n` vectors, summed vector by vector.
pub open spec fn squares_upto<A: Arith>(vs: Seq<Seq<Scalar>>, n: nat) -> Scalar
    decreases n,
{
    if n == 0 {
        lit(ZERO)
    } else {
        A::plus(
            squares_upto::<A>(vs, (n - 1) as nat),
            dot_upto::<A>(vs[n - 1], vs[n - 1], vs[n - 1].len()),
        )
    }
}

/// How many components the first `n` vectors have.
pub open spec fn components_upto<A: Arith>(vs: Seq<Seq<Scalar>>, n: nat) -> Scalar
    decreases n,
{
    if n == 0 {
        lit(ZERO)
    } else {
        A::plus(components_upto::<A>(vs, (n - 1) as nat), A::count(vs[n - 1].len()))
    }
}

/// The first `n` entries of a freshly drawn row.
pub open spec fn xavier_row<A: Arith>(rng: StdRng, bound: Scalar, n: nat) -> (Seq<Scalar>, StdRng)
    decreases n,
{
    if n == 0 {
        (Seq::empty(), rng)
    } else {
        let (row, rng) = xavier_row::<A>(rng, bound, (n - 1) as nat);
        let (u, rng) = A::uniform_closed(rng, lit(ONE).neg(), lit(ONE));
        (row.push(A::times(u, bound)), rng)
    }
}

/// The first `n` rows of a freshly drawn matrix.
pub open spec fn xavier_rows<A: Arith>(
    rng: StdRng,
    bound: Scalar,
    n: nat,
    cols: nat,
) -> (Seq<Seq<Scalar>>, StdRng)
    decreases n,
{
    if n == 0 {
        (Seq::empty(), rng)
    } else {
        let (rows, rng) = xavier_rows::<A>(rng, bound, (n - 1) as nat, cols);
        let (row, rng) = xavier_row::<A>(rng, bound, cols);
        (rows.push(row), rng)
    }
}

/// Half the width of the interval that initial weights are drawn from.
pub open spec fn xavier_bound<A: Arith>(rows: nat, cols: nat) -> Scalar {
    A::root(A::over(lit(SIX), A::plus(A::count(rows), A::count(cols))))
}

/// The dot product of two lists of one length.
fn dot<A: Arith>(a: &Vec<Scalar>, b: &Vec<Scalar>) -> (r: Scalar)
    requires
        a@.len() == b@.len(),
    ensures
        r == dot_upto::<A>(a@, b@, a@.len()),
{
    let mut sum = lit(ZERO);
    let mut i: usize = 0;
    while i < a.len()
        invariant
            i <= a.len(),
            a@.len() == b@.len(),
            sum == dot_upto::<A>(a@, b@, i as nat),
        decreases a.len() - i,
    {
        sum = A::r_add(sum, A::r_mul(a[i], b[i]));
        i = i + 1;
    }
    sum
}

impl<A: Arith + Clone> Arith for CpuLinAlg<A> {
    open spec fn plus(a: Scalar, b: Scalar) -> Scalar {
        A::plus(a, b)
    }

    open spec fn minus(a: Scalar, b: Scalar) -> Scalar {
        A::minus(a, b)
    }

    open spec fn times(a: Scalar, b: Scalar) -> Scalar {
        A::times(a, b)
    }

    open spec fn over(a: Scalar, b: Scalar) -> Scalar {
        A::over(a, b)
    }

    open spec fn root(a: Scalar) -> Scalar {
        A::root(a)
    }

    open spec fn exp(a: Scalar) -> Scalar {
        A::exp(a)
    }

    open spec fn log(a: Scalar) -> Scalar {
        A::log(a)
    }

    open spec fn tanh(a: Scalar) -> Scalar {
        A::tanh(a)
    }

    open spec fn atanh(a: Scalar) -> Scalar {
        A::atanh(a)
    }

    open spec fn cosine(a: Scalar) -> Scalar {
        A::cosine(a)
    }

    open spec fn power(a: Scalar, n: nat) -> Scalar {
        A::power(a, n)
    }

    open spec fn count(n: nat) -> Scalar {
        A::count(n)
    }

    open spec fn ceiling(a: Scalar) -> u64 {
        A::ceiling(a)
    }

    open spec fn uniform_closed(rng: StdRng, low: Scalar, high: Scalar) -> (Scalar, StdRng) {
        A::uniform_closed(rng, low, high)
    }

    open spec fn uniform_open(rng: StdRng, low: Scalar, high: Scalar) -> (Scalar, StdRng) {
        A::uniform_open(rng, low, high)
    }

    proof fn zero_is_neutral(a: Scalar, b: Scalar) {
        A::zero_is_neutral(a, b);
    }

    proof fn zero_absorbs(a: Scalar, b: Scalar) {
        A::zero_absorbs(a, b);
    }

    proof fn square_is_not_negative(a: Scalar) {
        A::square_is_not_negative(a);
    }

    proof fn equals_cancel(a: Scalar, b: Scalar) {
        A::equals_cancel(a, b);
    }

    proof fn infinities_spread(a: Scalar, b: Scalar) {
        A::infinities_spread(a, b);
    }

    proof fn equals_agree(a: Scalar, b: Scalar, other_a: Scalar, other_b: Scalar) {
        A::equals_agree(a, b, other_a, other_b);
    }

    fn r_add(a: Scalar, b: Scalar) -> (r: Scalar) {
        A::r_add(a, b)
    }

    fn r_sub(a: Scalar, b: Scalar) -> (r: Scalar) {
        A::r_sub(a, b)
    }

    fn r_mul(a: Scalar, b: Scalar) -> (r: Scalar) {
        A::r_mul(a, b)
    }

    fn r_div(a: Scalar, b: Scalar) -> (r: Scalar) {
        A::r_div(a, b)
    }

    fn r_sqrt(a: Scalar) -> (r: Scalar) {
        A::r_sqrt(a)
    }

    fn r_exp(a: Scalar) -> (r: Scalar) {
        A::r_exp(a)
    }

    fn r_ln(a: Scalar) -> (r: Scalar) {
        A::r_ln(a)
    }

    fn r_tanh(a: Scalar) -> (r: Scalar) {
        A::r_tanh(a)
    }

    fn r_atanh(a: Scalar) -> (r: Scalar) {
        A::r_atanh(a)
    }

    fn r_cos(a: Scalar) -> (r: Scalar) {
        A::r_cos(a)
    }

    fn r_powi(a: Scalar, n: usize) -> (r: Scalar) {
        A::r_powi(a, n)
    }

    fn r_count(n: usize) -> (r: Scalar) {
        A::r_count(n)
    }

    fn r_ceil(a: Scalar) -> (r: u64) {
        A::r_ceil(a)
    }

    fn r_uniform_closed(rng: &mut StdRng, low: Scalar, high: Scalar) -> (r: Scalar) {
        A::r_uniform_closed(rng, low, high)
    }

    fn r_uniform_open(rng: &mut StdRng, low: Scalar, high: Scalar) -> (r: Scalar) {
        A::r_uniform_open(rng, low, high)
    }
}

impl<A: Arith + Clone> LinAlg for CpuLinAlg<A> {
    type Vector = Vec<Scalar>;

    type Matrix = Matrix;

    open spec fn vec_view(v: Vec<Scalar>) -> Seq<Scalar> {
        v@
    }

    open spec fn mat_view(m: Matrix) -> MatView {
        m@
    }

    open spec fn product(m: MatView, v: Seq<Scalar>) -> Seq<Scalar> {
        Seq::new(m.rows, |r: int| dot_upto::<A>(m.data[r], v, m.cols))
    }

    open spec fn inner(a: Seq<Scalar>, b: Seq<Scalar>) -> Scalar {
        dot_upto::<A>(a, b, a.len())
    }

    open spec fn rms(vs: Seq<Seq<Scalar>>) -> Scalar {
        let n = components_upto::<A>(vs, vs.len());
        if n.num_eq(lit(ZERO)) {
            lit(ZERO)
        } else {
            A::root(A::over(squares_upto::<A>(vs, vs.len()), n))
        }
    }

    open spec fn xavier(rng: StdRng, rows: nat, cols: nat) -> (MatView, StdRng) {
        let (data, rng) = xavier_rows::<A>(rng, xavier_bound::<A>(rows, cols), rows, cols);
        (MatView { rows, cols, data }, rng)
    }

    proof fn product_has_one_entry_per_row(m: MatView, v: Seq<Scalar>) {
    }

    proof fn equal_vectors_agree(m: MatView, v: Seq<Scalar>, w: Seq<Scalar>) {
        let p = Self::product(m, v);
        let q = Self::product(m, w);
        assert forall|r: int| 0 <= r < p.len() implies (#[trigger] p[r]).same_number(q[r]) by {
            lemma_dot_agrees::<A>(m.data[r], v, w, m.cols);
        }
    }

    fn vec_from_slice(&self, s: &[Scalar]) -> (r: Vec<Scalar>) {
        copy_of(s)
    }

    fn vec_to_vec(&self, v: &Vec<Scalar>) -> (r: Vec<Scalar>) {
        copy_of(v.as_slice())
    }

    fn vec_clone(&self, v: &Vec<Scalar>) -> (r: Vec<Scalar>) {
        copy_of(v.as_slice())
    }

    fn vec_len(&self, v: &Vec<Scalar>) -> (n: usize) {
        v.len()
    }

    fn vec_get(&self, v: &Vec<Scalar>, i: usize) -> (x: Scalar) {
        v[i]
    }

    fn vec_set(&self, v: &mut Vec<Scalar>, i: usize, x: Scalar) {
        v[i] = x;
    }

    fn zeros_vec(&self, n: usize) -> (r: Vec<Scalar>) {
        zeros(n)
    }

    fn vec_add(&self, a: &Vec<Scalar>, b: &Vec<Scalar>) -> (r: Vec<Scalar>) {
        let mut out: Vec<Scalar> = Vec::new();
        let mut i: usize = 0;
        while i < a.len()
            invariant
                i <= a.len(),
                a@.len() == b@.len(),
                out@ == v_add::<Self>(a@, b@).take(i as int),
            decreases a.len() - i,
        {
            out.push(A::r_add(a[i], b[i]));
            i = i + 1;
            assert(out@ =~= v_add::<Self>(a@, b@).take(i as int));
        }
        assert(out@ =~= v_add::<Self>(a@, b@));
        out
    }

    fn vec_sub(&self, a: &Vec<Scalar>, b: &Vec<Scalar>) -> (r: Vec<Scalar>) {
        let mut out: Vec<Scalar> = Vec::new();
        let mut i: usize = 0;
        while i < a.len()
            invariant
                i <= a.len(),
                a@.len() == b@.len(),
                out@ == v_sub::<Self>(a@, b@).take(i as int),
            decreases a.len() - i,
        {
            out.push(A::r_sub(a[i], b[i]));
            i = i + 1;
            assert(out@ =~= v_sub::<Self>(a@, b@).take(i as int));
        }
        assert(out@ =~= v_sub::<Self>(a@, b@));
        out
    }

    fn vec_scale(&self, a: &Vec<Scalar>, s: Scalar) -> (r: Vec<Scalar>) {
        let mut out: Vec<Scalar> = Vec::new();
        let mut i: usize = 0;
        while i < a.len()
            invariant
                i <= a.len(),
                out@ == v_scale::<Self>(a@, s).take(i as int),
            decreases a.len() - i,
        {
            out.push(A::r_mul(a[i], s));
            i = i + 1;
            assert(out@ =~= v_scale::<Self>(a@, s).take(i as int));
        }
        assert(out@ =~= v_scale::<Self>(a@, s));
        out
    }

    fn vec_hadamard(&self, a: &Vec<Scalar>, b: &Vec<Scalar>) -> (r: Vec<Scalar>) {
        let mut out: Vec<Scalar> = Vec::new();
        let mut i: usize = 0;
        while i < a.len()
            invariant
                i <= a.len(),
                a@.len() == b@.len(),
                out@ == v_mul::<Self>(a@, b@).take(i as int),
            decreases a.len() - i,
        {
            out.push(A::r_mul(a[i], b[i]));
            i = i + 1;
            assert(out@ =~= v_mul::<Self>(a@, b@).take(i as int));
        }
        assert(out@ =~= v_mul::<Self>(a@, b@));
        out
    }

    fn vec_dot(&self, a: &Vec<Scalar>, b: &Vec<Scalar>) -> (r: Scalar) {
        dot::<A>(a, b)
    }

    fn clip_vec(&self, v: &mut Vec<Scalar>, limit: Scalar) {
        let n: usize = v.len();
        let mut i: usize = 0;
        while i < n
            invariant
                i <= n,
                n == v@.len(),
                n == old(v)@.len(),
                forall|k: int| 0 <= k < i ==> v@[k] == v_clip(old(v)@, limit)[k],
                forall|k: int| i <= k < n ==> v@[k] == old(v)@[k],
            decreases n - i,
        {
            let x = v[i];
            v[i] = x.clamp(limit.neg(), limit);
            i = i + 1;
        }
        assert(v@ =~= v_clip(old(v)@, limit));
    }

    fn apply_activation(&self, v: &Vec<Scalar>, act: Activation) -> (r: Vec<Scalar>) {
        let mut out: Vec<Scalar> = Vec::new();
        let mut i: usize = 0;
        while i < v.len()
            invariant
                i <= v.len(),
                out@ == v_activate::<Self>(v@, act).take(i as int),
            decreases v.len() - i,
        {
            out.push(act.apply::<Self>(v[i]));
            i = i + 1;
            assert(out@ =~= v_activate::<Self>(v@, act).take(i as int));
        }
        assert(out@ =~= v_activate::<Self>(v@, act));
        out
    }

    fn apply_derivative(&self, v: &Vec<Scalar>, act: Activation) -> (r: Vec<Scalar>) {
        let mut out: Vec<Scalar> = Vec::new();
        let mut i: usize = 0;
        while i < v.len()
            invariant
                i <= v.len(),
                out@ == v_slope::<Self>(v@, act).take(i as int),
            decreases v.len() - i,
        {
            out.push(act.derivative::<Self>(v[i]));
            i = i + 1;
            assert(out@ =~= v_slope::<Self>(v@, act).take(i as int));
        }
        assert(out@ =~= v_slope::<Self>(v@, act));
        out
    }

    fn rms_error(&self, vs: &Vec<Vec<Scalar>>) -> (r: Scalar) {
        let ghost views = vs@.map_values(|v: Vec<Scalar>| Self::vec_view(v));
        let mut sum = lit(ZERO);
        let mut n = lit(ZERO);
        let mut i: usize = 0;
        while i < vs.len()
            invariant
                i <= vs.len(),
                views == vs@.map_values(|v: Vec<Scalar>| Self::vec_view(v)),
                sum == squares_upto::<A>(views, i as nat),
                n == components_upto::<A>(views, i as nat),
            decreases vs.len() - i,
        {
            assert(views[i as int] == vs@[i as int]@);
            sum = A::r_add(sum, dot::<A>(&vs[i], &vs[i]));
            n = A::r_add(n, A::r_count(vs[i].len()));
            i = i + 1;
        }
        if n.num_eq(lit(ZERO)) {
            lit(ZERO)
        } else {
            A::r_sqrt(A::r_div(sum, n))
        }
    }

    fn zeros_mat(&self, rows: usize, cols: usize) -> (r: Matrix) {
        Matrix::zeros(rows, cols)
    }

    fn xavier_mat(&self, rows: usize, cols: usize, rng: &mut StdRng) -> (r: Matrix) {
        let bound = A::r_sqrt(A::r_div(lit(SIX), A::r_add(A::r_count(rows), A::r_count(cols))));
        let ghost start = *rng;
        let mut data: Vec<Vec<Scalar>> = Vec::new();
        let mut i: usize = 0;
        while i < rows
            invariant
                i <= rows,
                data@.len() == i,
                bound == xavier_bound::<A>(rows as nat, cols as nat),
                (data@.map_values(|row: Vec<Scalar>| row@), *rng) == xavier_rows::<A>(
                    start,
                    bound,
                    i as nat,
                    cols as nat,
                ),
                forall|k: int| 0 <= k < i ==> (#[trigger] data@[k])@.len() == cols,
            decreases rows - i,
        {
            let ghost before = *rng;
            let ghost data_before = data@;
            let mut row: Vec<Scalar> = Vec::new();
            let mut j: usize = 0;
            while j < cols
                invariant
                    j <= cols,
                    row@.len() == j,
                    (row@, *rng) == xavier_row::<A>(before, bound, j as nat),
                decreases cols - j,
            {
                let u = A::r_uniform_closed(rng, lit(ONE).neg(), lit(ONE));
                row.push(A::r_mul(u, bound));
                j = j + 1;
            }
            data.push(row);
            i = i + 1;
            assert(data@.map_values(|row: Vec<Scalar>| row@) =~= data_before.map_values(
                |row: Vec<Scalar>| row@,
            ).push(row@));
        }
        Matrix { rows, cols, data }
    }

    fn mat_clone(&self, m: &Matrix) -> (r: Matrix) {
        m.duplicate()
    }

    fn mat_rows(&self, m: &Matrix) -> (n: usize) {
        m.rows
    }

    fn mat_cols(&self, m: &Matrix) -> (n: usize) {
        m.cols
    }

    fn mat_get(&self, m: &Matrix, r: usize, c: usize) -> (x: Scalar) {
        m.get(r, c)
    }

    fn mat_set(&self, m: &mut Matrix, r: usize, c: usize, x: Scalar) {
        m.set(r, c, x)
    }

    fn mat_vec_mul(&self, m: &Matrix, v: &Vec<Scalar>) -> (r: Vec<Scalar>) {
        let mut out: Vec<Scalar> = Vec::new();
        let mut i: usize = 0;
        while i < m.rows
            invariant
                i <= m.rows,
                m@.wf(),
                m@.cols == v@.len(),
                out@ == Self::product(m@, v@).take(i as int),
            decreases m.rows - i,
        {
            assert(m@.data[i as int] == m.data@[i as int]@);
            out.push(dot::<A>(&m.data[i], v));
            i = i + 1;
            assert(out@ =~= Self::product(m@, v@).take(i as int));
        }
        assert(out@ =~= Self::product(m@, v@));
        out
    }

    fn mat_transpose(&self, m: &Matrix) -> (r: Matrix) {
        let mut data: Vec<Vec<Scalar>> = Vec::new();
        let mut i: usize = 0;
        while i < m.cols
            invariant
                i <= m.cols,
                m@.wf(),
                data@.len() == i,
                forall|k: int|
                    0 <= k < i ==> (#[trigger] data@[k])@ == m@.transpose().data[k],
            decreases m.cols - i,
        {
            let mut row: Vec<Scalar> = Vec::new();
            let mut j: usize = 0;
            while j < m.rows
                invariant
                    j <= m.rows,
                    i < m.cols,
                    m@.wf(),
                    row@ == m@.transpose().data[i as int].take(j as int),
                decreases m.rows - j,
            {
                row.push(m.get(j, i));
                j = j + 1;
                assert(row@ =~= m@.transpose().data[i as int].take(j as int));
            }
            assert(row@ =~= m@.transpose().data[i as int]);
            data.push(row);
            i = i + 1;
        }
        let r = Matrix { rows: m.cols, cols: m.rows, data };
        assert(r@.data =~= m@.transpose().data);
        r
    }

    fn outer_product(&self, a: &Vec<Scalar>, b: &Vec<Scalar>) -> (r: Matrix) {
        let mut data: Vec<Vec<Scalar>> = Vec::new();
        let mut i: usize = 0;
        while i < a.len()
            invariant
                i <= a.len(),
                data@.len() == i,
                forall|k: int|
                    0 <= k < i ==> (#[trigger] data@[k])@ == m_outer::<Self>(a@, b@).data[k],
            decreases a.len() - i,
        {
            let mut row: Vec<Scalar> = Vec::new();
            let mut j: usize = 0;
            while j < b.len()
                invariant
                    j <= b.len(),
                    i < a.len(),
                    row@ == m_outer::<Self>(a@, b@).data[i as int].take(j as int),
                decreases b.len() - j,
            {
                row.push(A::r_mul(a[i], b[j]));
                j = j + 1;
                assert(row@ =~= m_outer::<Self>(a@, b@).data[i as int].take(j as int));
            }
            assert(row@ =~= m_outer::<Self>(a@, b@).data[i as int]);
            data.push(row);
            i = i + 1;
        }
        let r = Matrix { rows: a.len(), cols: b.len(), data };
        assert(r@.data =~= m_outer::<Self>(a@, b@).data);
        r
    }

    fn mat_scale_add(&self, m: &mut Matrix, d: &Matrix, s: Scalar) {
        let ghost target = m_add_scaled::<Self>(m@, d@, s);
        let ghost start = m@;
        let mut data: Vec<Vec<Scalar>> = Vec::new();
        let mut i: usize = 0;
        while i < m.rows
            invariant
                i <= m.rows,
                m@ == start,
                start.wf(),
                d@.wf(),
                start.same_shape(d@),
                target == m_add_scaled::<Self>(start, d@, s),
                data@.len() == i,
                forall|k: int| 0 <= k < i ==> (#[trigger] data@[k])@ == target.data[k],
            decreases m.rows - i,
        {
            let mut row: Vec<Scalar> = Vec::new();
            let mut j: usize = 0;
            while j < m.cols
                invariant
                    j <= m.cols,
                    i < m.rows,
                    m@ == start,
                    start.wf(),
                    d@.wf(),
                    start.same_shape(d@),
                    target == m_add_scaled::<Self>(start, d@, s),
                    row@ == target.data[i as int].take(j as int),
                decreases m.cols - j,
            {
                row.push(A::r_add(m.get(i, j), A::r_mul(d.get(i, j), s)));
                j = j + 1;
                assert(row@ =~= target.data[i as int].take(j as int));
            }
            assert(row@ =~= target.data[i as int]);
            data.push(row);
            i = i + 1;
        }
        m.data = data;
        assert(m@.data =~= target.data);
    }
}

} // verus!
