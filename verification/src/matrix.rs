//! A dense, row-major, two-dimensional matrix container, generic over
//! the element contract of [`crate::types::Float`].
//!
//! A `Matrix<T>` owns a flattened backing vector of exactly `m * n`
//! elements; element `(i, j)` lives at linear offset `i * n + j`.  The
//! well-formedness predicate [`Matrix::wf`] states that size invariant,
//! every constructor establishes it, and every operation preserves it.
//!
//! Operations with preconditions come in two forms: one whose contract
//! demands the precondition from the caller, and a checked `try_`
//! variant that reports a [`MatrixError`] instead.  No function here
//! panics.

use vstd::prelude::*;

use crate::types::Dot;
use crate::types::Float;

verus! {

/// The error kinds a matrix operation can report.
#[derive(Clone, Copy, Debug, PartialEq, Eq, Structural)]
pub enum MatrixError {
    /// Operand dimensions are incompatible, or a constructor was handed
    /// a flattened sequence whose length is not `rows * cols`.
    ShapeMismatch,
    /// A row or column index exceeds the matrix's declared extent.
    OutOfBounds,
}

/// A dense matrix with `m` rows and `n` columns, stored row-major in a
/// flattened vector of exactly `m * n` elements.
#[derive(Debug)]
pub struct Matrix<T: Float> {
    /// Row count.
    pub m: usize,
    /// Column count.
    pub n: usize,
    /// The backing storage, row-major: element `(i, j)` at `i * n + j`.
    pub data: Vec<T>,
}

impl<T: Float> Matrix<T> {
    /// The size invariant: the backing storage holds exactly one
    /// element per cell.
    pub open spec fn wf(&self) -> bool {
        self.data@.len() == self.m * self.n
    }

    /// The element at row `i`, column `j`, as a specification value.
    pub open spec fn idx(&self, i: int, j: int) -> T {
        self.data@[i * (self.n as int) + j]
    }

    /// Builds a matrix from an explicit flattened row-major sequence,
    /// taking ownership of the buffer.
    pub fn new(m: usize, n: usize, data: Vec<T>) -> (r: Self)
        requires
            data@.len() == m * n,
        ensures
            r.m == m,
            r.n == n,
            r.data@ == data@,
            r.wf(),
    {
        Matrix { m, n, data }
    }

    /// Builds a matrix from an owned flattened vector; identical
    /// contract to [`Matrix::new`].
    pub fn from_vec(m: usize, n: usize, data: Vec<T>) -> (r: Self)
        requires
            data@.len() == m * n,
        ensures
            r.m == m,
            r.n == n,
            r.data@ == data@,
            r.wf(),
    {
        Matrix { m, n, data }
    }

    /// Builds a matrix by copying a borrowed flattened slice.
    pub fn from_slice(m: usize, n: usize, data: &[T]) -> (r: Self)
        requires
            data@.len() == m * n,
        ensures
            r.m == m,
            r.n == n,
            r.data@ == data@,
            r.wf(),
    {
        let mut buf: Vec<T> = Vec::new();
        let mut k: usize = 0;
        while k < data.len()
            invariant
                k <= data@.len(),
                buf@ == data@.subrange(0, k as int),
            decreases data@.len() - k,
        {
            buf.push(data[k]);
            k += 1;
        }
        proof {
            assert(buf@ =~= data@);
        }
        Matrix { m, n, data: buf }
    }

    /// Checked construction from a flattened sequence: succeeds exactly
    /// when the sequence holds one element per cell, and reports
    /// [`MatrixError::ShapeMismatch`] otherwise.
    pub fn try_new(m: usize, n: usize, data: Vec<T>) -> (r: Result<Self, MatrixError>)
        ensures
            r is Ok <==> data@.len() == m * n,
            r is Ok ==> r->Ok_0.m == m && r->Ok_0.n == n && r->Ok_0.data@ == data@
                && r->Ok_0.wf(),
            r is Err ==> r->Err_0 == MatrixError::ShapeMismatch,
    {
        proof {
            vstd::std_specs::vec::axiom_spec_len(&data);
        }
        match m.checked_mul(n) {
            Some(size) => {
                if data.len() == size {
                    Ok(Matrix { m, n, data })
                } else {
                    Err(MatrixError::ShapeMismatch)
                }
            },
            None => Err(MatrixError::ShapeMismatch),
        }
    }

    /// A zero-filled matrix of the given shape; the shape may be
    /// `(0, 0)`.
    pub fn empty(m: usize, n: usize) -> (r: Self)
        requires
            m * n <= usize::MAX,
        ensures
            r.m == m,
            r.n == n,
            r.wf(),
            forall|k: int| 0 <= k < m * n ==> r.data@[k] == T::zero_spec(),
    {
        let size: usize = m * n;
        let mut buf: Vec<T> = Vec::new();
        while buf.len() < size
            invariant
                buf@.len() <= size,
                forall|k: int| 0 <= k < buf@.len() ==> buf@[k] == T::zero_spec(),
            decreases size - buf@.len(),
        {
            buf.push(T::zero());
        }
        Matrix { m, n, data: buf }
    }

    /// A matrix of the given shape whose elements are drawn
    /// independently from the element contract's random source.  The
    /// values are not reproducible across runs, so only the shape is
    /// promised.
    pub fn rand(m: usize, n: usize) -> (r: Self)
        requires
            m * n <= usize::MAX,
        ensures
            r.m == m,
            r.n == n,
            r.wf(),
    {
        let size: usize = m * n;
        let mut buf: Vec<T> = Vec::new();
        while buf.len() < size
            invariant
                buf@.len() <= size,
            decreases size - buf@.len(),
        {
            buf.push(T::sample());
        }
        Matrix { m, n, data: buf }
    }

    /// The element at `(row, col)`, by value.
    pub fn get(&self, row: usize, col: usize) -> (r: T)
        requires
            self.wf(),
            row < self.m,
            col < self.n,
        ensures
            r == self.idx(row as int, col as int),
    {
        proof {
            lemma_data_fits(self);
            lemma_row_major_bound(self.m as int, self.n as int, row as int, col as int);
        }
        self.data[row * self.n + col]
    }

    /// Checked element read: succeeds exactly when `(row, col)` is in
    /// bounds, and reports [`MatrixError::OutOfBounds`] otherwise.
    pub fn try_get(&self, row: usize, col: usize) -> (r: Result<T, MatrixError>)
        requires
            self.wf(),
        ensures
            r is Ok <==> row < self.m && col < self.n,
            r is Ok ==> r->Ok_0 == self.idx(row as int, col as int),
            r is Err ==> r->Err_0 == MatrixError::OutOfBounds,
    {
        if row < self.m && col < self.n {
            Ok(self.get(row, col))
        } else {
            Err(MatrixError::OutOfBounds)
        }
    }

    /// Overwrites the element at `(row, col)` in place; every other
    /// element is untouched.
    pub fn set(&mut self, row: usize, col: usize, val: T)
        requires
            old(self).wf(),
            row < old(self).m,
            col < old(self).n,
        ensures
            final(self).m == old(self).m,
            final(self).n == old(self).n,
            final(self).wf(),
            final(self).data@ == old(self).data@.update(
                row as int * old(self).n as int + col as int,
                val,
            ),
            final(self).idx(row as int, col as int) == val,
            forall|i: int, j: int|
                0 <= i < old(self).m && 0 <= j < old(self).n
                    && !(i == row as int && j == col as int)
                    ==> final(self).idx(i, j) == old(self).idx(i, j),
    {
        proof {
            lemma_data_fits(self);
            lemma_row_major_bound(self.m as int, self.n as int, row as int, col as int);
        }
        let k: usize = row * self.n + col;
        self.data[k] = val;
        proof {
            assert forall|i: int, j: int|
                0 <= i < self.m && 0 <= j < self.n
                    && !(i == row as int && j == col as int)
                    implies self.idx(i, j) == old(self).idx(i, j) by {
                lemma_row_major_bound(self.m as int, self.n as int, i, j);
                if i * self.n as int + j == row as int * self.n as int + col as int {
                    lemma_row_major_injective(self.n as int, row as int, col as int, i, j);
                }
            };
        }
    }

    /// Checked element write: succeeds exactly when `(row, col)` is in
    /// bounds, and reports [`MatrixError::OutOfBounds`] otherwise; on
    /// an error the matrix is left exactly as it was.
    pub fn try_set(&mut self, row: usize, col: usize, val: T) -> (r: Result<(), MatrixError>)
        requires
            old(self).wf(),
        ensures
            r is Ok <==> row < old(self).m && col < old(self).n,
            final(self).m == old(self).m,
            final(self).n == old(self).n,
            final(self).wf(),
            r is Ok ==> final(self).data@ == old(self).data@.update(
                row as int * old(self).n as int + col as int,
                val,
            ),
            r is Err ==> r->Err_0 == MatrixError::OutOfBounds && *final(self) == *old(self),
    {
        if row < self.m && col < self.n {
            self.set(row, col, val);
            Ok(())
        } else {
            Err(MatrixError::OutOfBounds)
        }
    }

    /// The `(rows, cols)` pair.
    pub fn size(&self) -> (r: (usize, usize))
        ensures
            r.0 == self.m,
            r.1 == self.n,
    {
        (self.m, self.n)
    }

    /// The row count.
    pub fn nrows(&self) -> (r: usize)
        ensures
            r == self.m,
    {
        self.m
    }

    /// The column count.
    pub fn ncols(&self) -> (r: usize)
        ensures
            r == self.n,
    {
        self.n
    }

    /// The total element count, `rows * cols`.
    pub fn len(&self) -> (r: usize)
        requires
            self.wf(),
        ensures
            r == self.m * self.n,
    {
        let l: usize = self.data.len();
        proof {
            assert(l == self.m * self.n);
        }
        self.m * self.n
    }

    /// A borrowed view over the `n` contiguous elements of one row.
    /// Element `j` of the view is exactly `get(row, j)`.
    pub fn row(&self, row: usize) -> (r: &[T])
        requires
            self.wf(),
            row < self.m,
        ensures
            r@.len() == self.n,
            forall|j: int| 0 <= j < self.n ==> r@[j] == self.idx(row as int, j),
    {
        proof {
            lemma_data_fits(self);
            lemma_row_major_row_bound(self.m as int, self.n as int, row as int);
        }
        let start: usize = row * self.n;
        let end: usize = start + self.n;
        let r = vstd::slice::slice_subrange(self.data.as_slice(), start, end);
        proof {
            assert forall|j: int| 0 <= j < self.n implies r@[j] == self.idx(
                row as int,
                j,
            ) by {
                assert(r@[j] == self.data@[row as int * self.n as int + j]);
            };
        }
        r
    }

    /// A freshly allocated copy of the flattened row-major contents.
    pub fn to_vec(&self) -> (r: Vec<T>)
        ensures
            r@ == self.data@,
    {
        let mut buf: Vec<T> = Vec::new();
        let mut k: usize = 0;
        while k < self.data.len()
            invariant
                k <= self.data@.len(),
                buf@ == self.data@.subrange(0, k as int),
            decreases self.data@.len() - k,
        {
            buf.push(self.data[k]);
            k += 1;
        }
        proof {
            assert(buf@ =~= self.data@);
        }
        buf
    }

    /// Replaces the backing storage with a new flattened sequence of
    /// the same total length; the shape is unchanged.
    pub fn set_data(&mut self, data: Vec<T>)
        requires
            old(self).wf(),
            data@.len() == old(self).m * old(self).n,
        ensures
            final(self).m == old(self).m,
            final(self).n == old(self).n,
            final(self).data@ == data@,
            final(self).wf(),
    {
        self.data = data;
    }
}

impl<T: Float> Clone for Matrix<T> {
    /// An element-for-element copy with the same shape.
    fn clone(&self) -> (r: Self)
        ensures
            r.m == self.m,
            r.n == self.n,
            r.data@ == self.data@,
    {
        Matrix { m: self.m, n: self.n, data: self.to_vec() }
    }
}

impl<T: Float> PartialEq for Matrix<T> {
    /// Two matrices are equal exactly when their shapes match and every
    /// element compares equal at the same linear offset.
    fn eq(&self, other: &Self) -> (r: bool) {
        if self.m != other.m || self.n != other.n {
            return false;
        }
        if self.data.len() != other.data.len() {
            return false;
        }
        let mut k: usize = 0;
        while k < self.data.len()
            invariant
                k <= self.data@.len(),
                self.data@.len() == other.data@.len(),
                forall|t: int| 0 <= t < k ==> self.data@[t] == other.data@[t],
            decreases self.data@.len() - k,
        {
            if !self.data[k].eq_elem(other.data[k]) {
                proof {
                    assert(self.data@[k as int] != other.data@[k as int]);
                }
                return false;
            }
            k += 1;
        }
        proof {
            assert(self.data@ =~= other.data@);
        }
        true
    }
}

impl<T: Float> vstd::std_specs::cmp::PartialEqSpecImpl for Matrix<T> {
    open spec fn obeys_eq_spec() -> bool {
        true
    }

    open spec fn eq_spec(&self, other: &Matrix<T>) -> bool {
        self.m == other.m && self.n == other.n && self.data@ == other.data@
    }
}

/// The elementwise sum of two equally long flattened sequences.
pub open spec fn add_entries<T: Float>(a: Seq<T>, b: Seq<T>) -> Seq<T> {
    Seq::new(a.len(), |k: int| a[k].add_spec(b[k]))
}

/// The value accumulated at entry `(i, j)` of a matrix product after
/// the first `k` terms: starting from `init`, the products
/// `left(i, t) * right(t, j)` for `t` below `k` are added in order.
pub open spec fn mul_accum<T: Float>(
    left: Matrix<T>,
    right: Matrix<T>,
    init: T,
    i: int,
    j: int,
    k: int,
) -> T
    decreases k,
{
    if k <= 0 {
        init
    } else {
        mul_accum(left, right, init, i, j, k - 1).add_spec(
            left.idx(i, k - 1).mul_spec(right.idx(k - 1, j)),
        )
    }
}

/// The running dot product of the first `k` paired elements: starting
/// from `zero`, the products `a[t] * b[t]` for `t` below `k` are added
/// in order.
pub open spec fn dot_prefix<T: Float>(a: Seq<T>, b: Seq<T>, k: int) -> T
    decreases k,
{
    if k <= 0 {
        T::zero_spec()
    } else {
        dot_prefix(a, b, k - 1).add_spec(a[k - 1].mul_spec(b[k - 1]))
    }
}

impl<T: Float> Matrix<T> {
    /// Element-wise addition that reuses the left operand's storage.
    pub fn add_into(left: Self, right: &Self) -> (r: Self)
        requires
            left.wf(),
            right.wf(),
            left.m == right.m,
            left.n == right.n,
        ensures
            r.m == left.m,
            r.n == left.n,
            r.wf(),
            r.data@ == add_entries(left.data@, right.data@),
    {
        let ghost orig: Seq<T> = left.data@;
        let m = left.m;
        let n = left.n;
        let mut data = left.data;
        let mut k: usize = 0;
        while k < data.len()
            invariant
                data@.len() == orig.len(),
                right.data@.len() == orig.len(),
                k <= orig.len(),
                forall|t: int| 0 <= t < k ==> data@[t] == orig[t].add_spec(right.data@[t]),
                forall|t: int| k <= t < orig.len() ==> data@[t] == orig[t],
            decreases orig.len() - k,
        {
            let sum = data[k].add(right.data[k]);
            data[k] = sum;
            k += 1;
        }
        proof {
            assert(data@ =~= add_entries(orig, right.data@));
        }
        Matrix { m, n, data }
    }

    /// Element-wise addition into a freshly allocated result; neither
    /// operand is touched.
    pub fn add(&self, other: &Self) -> (r: Self)
        requires
            self.wf(),
            other.wf(),
            self.m == other.m,
            self.n == other.n,
        ensures
            r.m == self.m,
            r.n == self.n,
            r.wf(),
            r.data@ == add_entries(self.data@, other.data@),
    {
        Self::add_into(self.clone(), other)
    }

    /// In-place element-wise addition of `other` onto `self`.
    pub fn add_assign(&mut self, other: &Self)
        requires
            old(self).wf(),
            other.wf(),
            old(self).m == other.m,
            old(self).n == other.n,
        ensures
            final(self).m == old(self).m,
            final(self).n == old(self).n,
            final(self).wf(),
            final(self).data@ == add_entries(old(self).data@, other.data@),
    {
        let mut k: usize = 0;
        while k < self.data.len()
            invariant
                self.m == old(self).m,
                self.n == old(self).n,
                self.data@.len() == old(self).data@.len(),
                old(self).wf(),
                other.data@.len() == old(self).data@.len(),
                k <= self.data@.len(),
                forall|t: int| 0 <= t < k
                    ==> self.data@[t] == old(self).data@[t].add_spec(other.data@[t]),
                forall|t: int| k <= t < self.data@.len() ==> self.data@[t] == old(self).data@[t],
            decreases self.data@.len() - k,
        {
            let sum = self.data[k].add(other.data[k]);
            self.data[k] = sum;
            k += 1;
        }
        proof {
            assert(self.data@ =~= add_entries(old(self).data@, other.data@));
        }
    }

    /// Checked element-wise addition: succeeds exactly when the shapes
    /// match, and reports [`MatrixError::ShapeMismatch`] otherwise.
    pub fn try_add(&self, other: &Self) -> (r: Result<Self, MatrixError>)
        requires
            self.wf(),
            other.wf(),
        ensures
            r is Ok <==> self.m == other.m && self.n == other.n,
            r is Ok ==> r->Ok_0.m == self.m && r->Ok_0.n == self.n && r->Ok_0.wf()
                && r->Ok_0.data@ == add_entries(self.data@, other.data@),
            r is Err ==> r->Err_0 == MatrixError::ShapeMismatch,
    {
        if self.m == other.m && self.n == other.n {
            Ok(self.add(other))
        } else {
            Err(MatrixError::ShapeMismatch)
        }
    }

    /// The triple-nested multiplication kernel: accumulates the product
    /// of `left` and `right` onto the caller-supplied output matrix,
    /// whose shape must already match.  Entry `(i, j)` of the output
    /// receives its prior value plus `left(i, t) * right(t, j)` for
    /// every inner index `t`, added in order.
    pub fn mult_into(left: &Self, right: &Self, out: &mut Self)
        requires
            left.wf(),
            right.wf(),
            old(out).wf(),
            left.n == right.m,
            old(out).m == left.m,
            old(out).n == right.n,
        ensures
            final(out).m == old(out).m,
            final(out).n == old(out).n,
            final(out).wf(),
            forall|i: int, j: int| 0 <= i < left.m && 0 <= j < right.n
                ==> final(out).idx(i, j) == mul_accum(
                    *left,
                    *right,
                    old(out).idx(i, j),
                    i,
                    j,
                    left.n as int,
                ),
    {
        let rows = left.m;
        let cols = right.n;
        let inner = left.n;
        let mut i: usize = 0;
        while i < rows
            invariant
                left.wf(),
                right.wf(),
                out.wf(),
                left.n == right.m,
                out.m == left.m,
                out.n == right.n,
                rows == left.m,
                cols == right.n,
                inner == left.n,
                i <= rows,
                forall|a: int, b: int| 0 <= a < i && 0 <= b < cols
                    ==> out.idx(a, b) == mul_accum(
                        *left,
                        *right,
                        old(out).idx(a, b),
                        a,
                        b,
                        inner as int,
                    ),
                forall|a: int, b: int| i <= a < rows && 0 <= b < cols
                    ==> out.idx(a, b) == old(out).idx(a, b),
            decreases rows - i,
        {
            let mut j: usize = 0;
            while j < cols
                invariant
                    left.wf(),
                    right.wf(),
                    out.wf(),
                    left.n == right.m,
                    out.m == left.m,
                    out.n == right.n,
                    rows == left.m,
                    cols == right.n,
                    inner == left.n,
                    i < rows,
                    j <= cols,
                    forall|a: int, b: int| 0 <= a < i && 0 <= b < cols
                        ==> out.idx(a, b) == mul_accum(
                            *left,
                            *right,
                            old(out).idx(a, b),
                            a,
                            b,
                            inner as int,
                        ),
                    forall|b: int| 0 <= b < j
                        ==> out.idx(i as int, b) == mul_accum(
                            *left,
                            *right,
                            old(out).idx(i as int, b),
                            i as int,
                            b,
                            inner as int,
                        ),
                    forall|b: int| j <= b < cols
                        ==> out.idx(i as int, b) == old(out).idx(i as int, b),
                    forall|a: int, b: int| i < a < rows && 0 <= b < cols
                        ==> out.idx(a, b) == old(out).idx(a, b),
                decreases cols - j,
            {
                let mut k: usize = 0;
                while k < inner
                    invariant
                        left.wf(),
                        right.wf(),
                        out.wf(),
                        left.n == right.m,
                        out.m == left.m,
                        out.n == right.n,
                        rows == left.m,
                        cols == right.n,
                        inner == left.n,
                        i < rows,
                        j < cols,
                        k <= inner,
                        forall|a: int, b: int| 0 <= a < i && 0 <= b < cols
                            ==> out.idx(a, b) == mul_accum(
                                *left,
                                *right,
                                old(out).idx(a, b),
                                a,
                                b,
                                inner as int,
                            ),
                        forall|b: int| 0 <= b < j
                            ==> out.idx(i as int, b) == mul_accum(
                                *left,
                                *right,
                                old(out).idx(i as int, b),
                                i as int,
                                b,
                                inner as int,
                            ),
                        out.idx(i as int, j as int) == mul_accum(
                            *left,
                            *right,
                            old(out).idx(i as int, j as int),
                            i as int,
                            j as int,
                            k as int,
                        ),
                        forall|b: int| j < b < cols
                            ==> out.idx(i as int, b) == old(out).idx(i as int, b),
                        forall|a: int, b: int| i < a < rows && 0 <= b < cols
                            ==> out.idx(a, b) == old(out).idx(a, b),
                    decreases inner - k,
                {
                    let term = left.get(i, k).mul(right.get(k, j));
                    let cur = out.get(i, j);
                    out.set(i, j, cur.add(term));
                    k += 1;
                }
                j += 1;
            }
            i += 1;
        }
    }

    /// Checked form of the multiplication kernel: succeeds exactly
    /// when the operand dimensions agree and the caller-supplied
    /// output already has the product's shape; otherwise reports
    /// [`MatrixError::ShapeMismatch`] and leaves the output exactly as
    /// it was.
    pub fn try_mult_into(left: &Self, right: &Self, out: &mut Self) -> (r: Result<
        (),
        MatrixError,
    >)
        requires
            left.wf(),
            right.wf(),
            old(out).wf(),
        ensures
            r is Ok <==> left.n == right.m && old(out).m == left.m && old(out).n == right.n,
            final(out).m == old(out).m,
            final(out).n == old(out).n,
            final(out).wf(),
            r is Ok ==> forall|i: int, j: int| 0 <= i < left.m && 0 <= j < right.n
                ==> final(out).idx(i, j) == mul_accum(
                    *left,
                    *right,
                    old(out).idx(i, j),
                    i,
                    j,
                    left.n as int,
                ),
            r is Err ==> r->Err_0 == MatrixError::ShapeMismatch && *final(out) == *old(out),
    {
        if left.n == right.m && out.m == left.m && out.n == right.n {
            Self::mult_into(left, right, out);
            Ok(())
        } else {
            Err(MatrixError::ShapeMismatch)
        }
    }

    /// The matrix product into a freshly allocated, zero-initialised
    /// result: entry `(i, j)` is the ordered sum over the inner index
    /// `t` of `self(i, t) * other(t, j)`.
    pub fn mul(&self, other: &Self) -> (r: Self)
        requires
            self.wf(),
            other.wf(),
            self.n == other.m,
            self.m * other.n <= usize::MAX,
        ensures
            r.m == self.m,
            r.n == other.n,
            r.wf(),
            forall|i: int, j: int| 0 <= i < self.m && 0 <= j < other.n
                ==> r.idx(i, j) == mul_accum(
                    *self,
                    *other,
                    T::zero_spec(),
                    i,
                    j,
                    self.n as int,
                ),
    {
        let mut out = Self::empty(self.m, other.n);
        proof {
            assert forall|i: int, j: int| 0 <= i < self.m && 0 <= j < other.n
                implies out.idx(i, j) == T::zero_spec() by {
                lemma_row_major_bound(out.m as int, out.n as int, i, j);
            };
        }
        Self::mult_into(self, other, &mut out);
        out
    }

    /// Checked multiplication: succeeds exactly when the left operand's
    /// column count equals the right operand's row count, and reports
    /// [`MatrixError::ShapeMismatch`] otherwise, before any output
    /// storage is allocated.
    pub fn try_mul(&self, other: &Self) -> (r: Result<Self, MatrixError>)
        requires
            self.wf(),
            other.wf(),
            self.m * other.n <= usize::MAX,
        ensures
            r is Ok <==> self.n == other.m,
            r is Ok ==> r->Ok_0.m == self.m && r->Ok_0.n == other.n && r->Ok_0.wf()
                && forall|i: int, j: int| 0 <= i < self.m && 0 <= j < other.n
                    ==> r->Ok_0.idx(i, j) == mul_accum(
                        *self,
                        *other,
                        T::zero_spec(),
                        i,
                        j,
                        self.n as int,
                    ),
            r is Err ==> r->Err_0 == MatrixError::ShapeMismatch,
    {
        if self.n == other.m {
            Ok(self.mul(other))
        } else {
            Err(MatrixError::ShapeMismatch)
        }
    }

    /// Checked dot product: succeeds exactly when the total element
    /// counts agree (the shapes themselves need not), and reports
    /// [`MatrixError::ShapeMismatch`] otherwise.
    pub fn try_dot(&self, other: &Self) -> (r: Result<T, MatrixError>)
        requires
            self.wf(),
            other.wf(),
        ensures
            r is Ok <==> self.m * self.n == other.m * other.n,
            r is Ok ==> r->Ok_0 == self.dot_spec(other),
            r is Err ==> r->Err_0 == MatrixError::ShapeMismatch,
    {
        if self.len() == other.len() {
            Ok(self.dot(other))
        } else {
            Err(MatrixError::ShapeMismatch)
        }
    }
}

impl<T: Float> Dot<T> for Matrix<T> {
    /// The dot product asks only that the flattened lengths agree.
    open spec fn dot_req(&self, other: &Self) -> bool {
        self.wf() && other.wf() && self.m * self.n == other.m * other.n
    }

    /// The ordered sum over every linear offset of the products of the
    /// paired elements.
    open spec fn dot_spec(&self, other: &Self) -> T {
        dot_prefix(self.data@, other.data@, self.data@.len() as int)
    }

    fn dot(&self, other: &Self) -> T {
        let len = self.data.len();
        proof {
            assert(other.data@.len() == len);
        }
        let mut acc = T::zero();
        let mut k: usize = 0;
        while k < len
            invariant
                len == self.data@.len(),
                other.data@.len() == len,
                k <= len,
                acc == dot_prefix(self.data@, other.data@, k as int),
            decreases len - k,
        {
            acc = acc.add(self.data[k].mul(other.data[k]));
            k += 1;
        }
        acc
    }
}

/// The backing vector's length, and with it `m * n` of a well-formed
/// matrix, fits in `usize`.
pub proof fn lemma_data_fits<T: Float>(mat: &Matrix<T>)
    ensures
        mat.data@.len() <= usize::MAX,
{
    vstd::std_specs::vec::axiom_spec_len(&mat.data);
}

/// An in-bounds row-major offset stays below the total element count.
pub proof fn lemma_row_major_bound(m: int, n: int, i: int, j: int)
    by (nonlinear_arith)
    requires
        0 <= i < m,
        0 <= j < n,
    ensures
        0 <= i * n + j < m * n,
{
}

/// A whole in-bounds row stays inside the backing storage.
pub proof fn lemma_row_major_row_bound(m: int, n: int, i: int)
    by (nonlinear_arith)
    requires
        0 <= i < m,
        0 <= n,
    ensures
        0 <= i * n,
        i * n + n <= m * n,
{
}

/// Reading an element back immediately after writing it yields the
/// value written: a matrix whose storage is the old storage updated at
/// `(row, col)` — exactly what `set` produces — holds the written value
/// there.
pub proof fn lemma_get_after_set<T: Float>(
    before: Matrix<T>,
    after: Matrix<T>,
    row: int,
    col: int,
    v: T,
)
    requires
        before.wf(),
        0 <= row < before.m,
        0 <= col < before.n,
        after.m == before.m,
        after.n == before.n,
        after.data@ == before.data@.update(row * before.n as int + col, v),
    ensures
        after.idx(row, col) == v,
{
    lemma_row_major_bound(before.m as int, before.n as int, row, col);
}

/// A row view agrees with scalar access: element `col` of row `row`'s
/// contiguous slice — exactly what `row` returns — is the element at
/// `(row, col)`.
pub proof fn lemma_row_agrees_with_get<T: Float>(mat: Matrix<T>, row: int, col: int)
    requires
        mat.wf(),
        0 <= row < mat.m,
        0 <= col < mat.n,
    ensures
        mat.data@.subrange(
            row * mat.n as int,
            row * mat.n as int + mat.n as int,
        )[col] == mat.idx(row, col),
{
    lemma_row_major_row_bound(mat.m as int, mat.n as int, row);
}

/// Addition is commutative: the element-wise sums taken in either
/// operand order coincide, so `A + B == B + A` for equally shaped
/// matrices, whichever addition variant produced them.
pub proof fn lemma_add_comm_matrix<T: Float>(a: Matrix<T>, b: Matrix<T>)
    requires
        a.wf(),
        b.wf(),
        a.m == b.m,
        a.n == b.n,
    ensures
        add_entries(a.data@, b.data@) == add_entries(b.data@, a.data@),
{
    assert forall|k: int| 0 <= k < a.data@.len()
        implies add_entries(a.data@, b.data@)[k] == add_entries(b.data@, a.data@)[k] by {
        T::lemma_add_comm(a.data@[k], b.data@[k]);
    };
    assert(add_entries(a.data@, b.data@) =~= add_entries(b.data@, a.data@));
}

/// In-place addition is equivalent to non-mutating addition: any two
/// matrices whose shape and entries are the element-wise sum of the
/// same operands — what `add`, `add_into` and `add_assign` all ensure —
/// are one and the same matrix.
pub proof fn lemma_add_assign_matches_add<T: Float>(
    sum: Matrix<T>,
    inplace: Matrix<T>,
    a: Matrix<T>,
    b: Matrix<T>,
)
    requires
        sum.m == a.m,
        sum.n == a.n,
        sum.data@ == add_entries(a.data@, b.data@),
        inplace.m == a.m,
        inplace.n == a.n,
        inplace.data@ == add_entries(a.data@, b.data@),
    ensures
        sum.m == inplace.m,
        sum.n == inplace.n,
        sum.data@ == inplace.data@,
{
}

/// Whether `mat` is square with the multiplicative identity on the
/// diagonal and the additive identity everywhere else.
pub open spec fn is_identity<T: Float>(mat: Matrix<T>) -> bool {
    mat.wf() && mat.m == mat.n && forall|i: int, j: int|
        0 <= i < mat.m && 0 <= j < mat.n ==> mat.idx(i, j) == (if i == j {
            T::one_spec()
        } else {
            T::zero_spec()
        })
}

proof fn lemma_identity_accum_left<T: Float>(
    id: Matrix<T>,
    a: Matrix<T>,
    i: int,
    j: int,
    k: int,
)
    requires
        is_identity(id),
        a.wf(),
        id.n == a.m,
        0 <= i < id.m,
        0 <= j < a.n,
        0 <= k <= id.n,
    ensures
        mul_accum(id, a, T::zero_spec(), i, j, k) == (if k <= i {
            T::zero_spec()
        } else {
            a.idx(i, j)
        }),
    decreases k,
{
    if k > 0 {
        lemma_identity_accum_left(id, a, i, j, k - 1);
        let term_r = a.idx(k - 1, j);
        if k - 1 < i {
            T::lemma_mul_zero(term_r);
            T::lemma_add_zero(T::zero_spec());
        } else if k - 1 == i {
            T::lemma_mul_one(term_r);
            T::lemma_add_zero(term_r);
        } else {
            T::lemma_mul_zero(term_r);
            T::lemma_add_zero(a.idx(i, j));
        }
    }
}

/// Multiplying on the left by an identity matrix leaves a matrix
/// unchanged: every entry of the product `I * A` that `mul` ensures
/// equals the corresponding entry of `A`.
pub proof fn lemma_identity_mul_left<T: Float>(id: Matrix<T>, a: Matrix<T>)
    requires
        is_identity(id),
        a.wf(),
        id.n == a.m,
    ensures
        forall|i: int, j: int| 0 <= i < id.m && 0 <= j < a.n
            ==> mul_accum(id, a, T::zero_spec(), i, j, id.n as int) == a.idx(i, j),
{
    assert forall|i: int, j: int| 0 <= i < id.m && 0 <= j < a.n
        implies mul_accum(id, a, T::zero_spec(), i, j, id.n as int) == a.idx(i, j) by {
        lemma_identity_accum_left(id, a, i, j, id.n as int);
    };
}

proof fn lemma_identity_accum_right<T: Float>(
    a: Matrix<T>,
    id: Matrix<T>,
    i: int,
    j: int,
    k: int,
)
    requires
        is_identity(id),
        a.wf(),
        a.n == id.m,
        0 <= i < a.m,
        0 <= j < id.n,
        0 <= k <= a.n,
    ensures
        mul_accum(a, id, T::zero_spec(), i, j, k) == (if k <= j {
            T::zero_spec()
        } else {
            a.idx(i, j)
        }),
    decreases k,
{
    if k > 0 {
        lemma_identity_accum_right(a, id, i, j, k - 1);
        let term_l = a.idx(i, k - 1);
        if k - 1 < j {
            T::lemma_mul_zero(term_l);
            T::lemma_add_zero(T::zero_spec());
        } else if k - 1 == j {
            T::lemma_mul_one(term_l);
            T::lemma_add_zero(term_l);
        } else {
            T::lemma_mul_zero(term_l);
            T::lemma_add_zero(a.idx(i, j));
        }
    }
}

/// Multiplying on the right by an identity matrix leaves a matrix
/// unchanged: every entry of the product `A * I` that `mul` ensures
/// equals the corresponding entry of `A`.
pub proof fn lemma_identity_mul_right<T: Float>(a: Matrix<T>, id: Matrix<T>)
    requires
        is_identity(id),
        a.wf(),
        a.n == id.m,
    ensures
        forall|i: int, j: int| 0 <= i < a.m && 0 <= j < id.n
            ==> mul_accum(a, id, T::zero_spec(), i, j, a.n as int) == a.idx(i, j),
{
    assert forall|i: int, j: int| 0 <= i < a.m && 0 <= j < id.n
        implies mul_accum(a, id, T::zero_spec(), i, j, a.n as int) == a.idx(i, j) by {
        lemma_identity_accum_right(a, id, i, j, a.n as int);
    };
}

proof fn lemma_dot_prefix_symmetric<T: Float>(a: Seq<T>, b: Seq<T>, k: int)
    ensures
        dot_prefix(a, b, k) == dot_prefix(b, a, k),
    decreases k,
{
    if k > 0 {
        lemma_dot_prefix_symmetric(a, b, k - 1);
        T::lemma_mul_comm(a[k - 1], b[k - 1]);
    }
}

/// The dot product is symmetric: for operands with the same total
/// element count, `a.dot(b) == b.dot(a)`.
pub proof fn lemma_dot_symmetric<T: Float>(a: Matrix<T>, b: Matrix<T>)
    requires
        a.wf(),
        b.wf(),
        a.m * a.n == b.m * b.n,
    ensures
        a.dot_spec(&b) == b.dot_spec(&a),
{
    lemma_dot_prefix_symmetric(a.data@, b.data@, a.data@.len() as int);
}

/// The row-major offset map is injective on in-bounds coordinates.
pub proof fn lemma_row_major_injective(n: int, i1: int, j1: int, i2: int, j2: int)
    by (nonlinear_arith)
    requires
        0 <= i1,
        0 <= i2,
        0 <= j1 < n,
        0 <= j2 < n,
        i1 * n + j1 == i2 * n + j2,
    ensures
        i1 == i2,
        j1 == j2,
{
}

} // verus!
