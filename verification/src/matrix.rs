//! Dense host matrices and the clipping bounds of weight updates.

use vstd::prelude::*;

use crate::linalg::{v_zeros, MatView};
use crate::scalar::{lit, Scalar, ZERO};

verus! {

/// Bound on every weight and bias after an update: `5.0`.
pub const WEIGHT_CLIP: u64 = 0x4014_0000_0000_0000;

/// Bound on every component of a local gradient: `5.0`.
pub const GRAD_CLIP: u64 = 0x4014_0000_0000_0000;

/// A dense matrix stored row by row.
#[derive(Clone, Debug)]
pub struct Matrix {
    pub rows: usize,
    pub cols: usize,
    pub data: Vec<Vec<Scalar>>,
}

impl View for Matrix {
    type V = MatView;

    open spec fn view(&self) -> MatView {
        MatView {
            rows: self.rows as nat,
            cols: self.cols as nat,
            data: self.data@.map_values(|row: Vec<Scalar>| row@),
        }
    }
}

/// A list of `n` zeros.
pub fn zeros(n: usize) -> (r: Vec<Scalar>)
    ensures
        r@ == v_zeros(n as nat),
{
    let mut out: Vec<Scalar> = Vec::new();
    let mut i: usize = 0;
    while i < n
        invariant
            i <= n,
            out@ == v_zeros(i as nat),
        decreases n - i,
    {
        out.push(lit(ZERO));
        i = i + 1;
        assert(out@ =~= v_zeros(i as nat));
    }
    out
}

/// A copy of a list of numbers.
pub fn copy_of(s: &[Scalar]) -> (r: Vec<Scalar>)
    ensures
        r@ == s@,
{
    let mut out: Vec<Scalar> = Vec::new();
    let mut i: usize = 0;
    while i < s.len()
        invariant
            i <= s.len(),
            out@ == s@.take(i as int),
        decreases s.len() - i,
    {
        out.push(s[i]);
        i = i + 1;
        assert(out@ =~= s@.take(i as int));
    }
    assert(s@.take(s@.len() as int) =~= s@);
    out
}

impl Matrix {
    /// The matrix of the given shape with every entry zero.
    pub fn zeros(rows: usize, cols: usize) -> (r: Matrix)
        ensures
            r@ == MatView::zeros(rows as nat, cols as nat),
            r@.wf(),
    {
        let mut data: Vec<Vec<Scalar>> = Vec::new();
        let mut i: usize = 0;
        while i < rows
            invariant
                i <= rows,
                data@.len() == i,
                forall|k: int| 0 <= k < i ==> (#[trigger] data@[k])@ == v_zeros(cols as nat),
            decreases rows - i,
        {
            data.push(zeros(cols));
            i = i + 1;
        }
        let m = Matrix { rows, cols, data };
        let ghost expected = MatView::zeros(rows as nat, cols as nat);
        assert forall|k: int| 0 <= k < rows implies m@.data[k] == expected.data[k] by {
            assert(m.data@[k]@ =~= expected.data[k]);
        }
        assert(m@.data =~= expected.data);
        m
    }

    /// The entry at `(r, c)`.
    pub fn get(&self, r: usize, c: usize) -> (x: Scalar)
        requires
            self@.wf(),
            r < self@.rows,
            c < self@.cols,
        ensures
            x == self@.at(r as int, c as int),
    {
        assert(self@.data[r as int] == self.data@[r as int]@);
        self.data[r][c]
    }

    /// Replaces the entry at `(r, c)`.
    pub fn set(&mut self, r: usize, c: usize, x: Scalar)
        requires
            old(self)@.wf(),
            r < old(self)@.rows,
            c < old(self)@.cols,
        ensures
            final(self)@ == old(self)@.set(r as int, c as int, x),
    {
        assert(self@.data[r as int] == self.data@[r as int]@);
        self.data[r][c] = x;
        assert(self@.data =~= old(self)@.set(r as int, c as int, x).data);
    }

    /// An equal matrix.
    pub fn duplicate(&self) -> (m: Matrix)
        ensures
            m@ == self@,
    {
        let mut data: Vec<Vec<Scalar>> = Vec::new();
        let mut i: usize = 0;
        while i < self.data.len()
            invariant
                i <= self.data.len(),
                data@.len() == i,
                forall|k: int| 0 <= k < i ==> (#[trigger] data@[k])@ == self.data@[k]@,
            decreases self.data.len() - i,
        {
            data.push(copy_of(self.data[i].as_slice()));
            i = i + 1;
        }
        let m = Matrix { rows: self.rows, cols: self.cols, data };
        assert(m@.data =~= self@.data);
        m
    }
}

} // verus!
