//! The boundary with the external completion collaborator.
//!
//! The collaborator is an opaque black box: it is handed a row count,
//! a column count and the flattened row-major contents of a matrix
//! (plus, at the caller's choice, a list of sample coordinates the
//! collaborator may use), and it answers with a flattened sequence of
//! the same length, or fails.  This module holds the two verified
//! halves of that exchange that belong to the container: marshalling a
//! matrix into the flattened form, and rebuilding a matrix of
//! identical shape from the returned sequence, enforcing the size
//! invariant on the way back in.  The call itself, and the propagation
//! of the collaborator's own failures, live with the caller that owns
//! the collaborator.

use vstd::prelude::*;

use crate::matrix::Matrix;
use crate::matrix::MatrixError;
use crate::types::Float;

verus! {

/// The exact tuple a completion collaborator consumes: the matrix's
/// row count, column count, and a copy of its flattened row-major
/// contents.
pub fn completion_request<T: Float>(matrix: &Matrix<T>) -> (r: (usize, usize, Vec<T>))
    requires
        matrix.wf(),
    ensures
        r.0 == matrix.m,
        r.1 == matrix.n,
        r.2@ == matrix.data@,
{
    (matrix.nrows(), matrix.ncols(), matrix.to_vec())
}

/// Rebuilds a matrix of the same shape as `matrix` from the flattened
/// sequence a collaborator returned.  Succeeds exactly when the
/// sequence holds one element per cell of that shape, and reports
/// [`MatrixError::ShapeMismatch`] otherwise.
pub fn completion_rebuild<T: Float>(matrix: &Matrix<T>, completed: Vec<T>) -> (r: Result<
    Matrix<T>,
    MatrixError,
>)
    requires
        matrix.wf(),
    ensures
        r is Ok <==> completed@.len() == matrix.m * matrix.n,
        r is Ok ==> r->Ok_0.m == matrix.m && r->Ok_0.n == matrix.n && r->Ok_0.wf()
            && r->Ok_0.data@ == completed@,
        r is Err ==> r->Err_0 == MatrixError::ShapeMismatch,
{
    Matrix::try_new(matrix.nrows(), matrix.ncols(), completed)
}

} // verus!
