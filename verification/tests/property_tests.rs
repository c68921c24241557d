use libmatcompl::completion::completion_rebuild;
use libmatcompl::completion::completion_request;
use libmatcompl::matrix::Matrix;
use libmatcompl::matrix::MatrixError;
use libmatcompl::types::Dot;

#[test]
fn set_then_get_every_position() {
    let mut matrix = Matrix::new(2, 3, vec![0i64; 6]);
    for i in 0..2 {
        for j in 0..3 {
            let v = (10 * i + j) as i64;
            matrix.set(i, j, v);
            assert_eq!(v, matrix.get(i, j));
        }
    }
}

#[test]
fn row_view_agrees_with_get() {
    let matrix = Matrix::new(2, 2, vec![5i64, 6, 7, 8]);
    for i in 0..2 {
        for j in 0..2 {
            assert_eq!(matrix.row(i)[j], matrix.get(i, j));
        }
    }
}

#[test]
fn addition_commutes_across_variants() {
    let a = Matrix::new(2, 2, vec![1i64, -2, 3, -4]);
    let b = Matrix::new(2, 2, vec![10i64, 20, 30, 40]);

    let ab = a.add(&b);
    let ba = b.add(&a);
    assert_eq!(ab, ba);

    let into = Matrix::add_into(a.clone(), &b);
    assert_eq!(into, ab);

    let mut assigned = a.clone();
    assigned.add_assign(&b);
    assert_eq!(assigned, ab);
}

#[test]
fn add_assign_equals_clone_then_add() {
    let mut a = Matrix::new(2, 2, vec![1i64, 1, 2, 3]);
    let b = Matrix::new(2, 2, vec![2i64, 2, 1, 0]);
    let c = a.clone().add(&b);
    a.add_assign(&b);
    assert_eq!(a, c);
}

#[test]
fn identity_is_neutral_on_both_sides() {
    let id = Matrix::new(3, 3, vec![1i64, 0, 0, 0, 1, 0, 0, 0, 1]);
    let a = Matrix::new(3, 3, vec![1i64, 2, 3, 4, 5, 6, 7, 8, 9]);
    assert_eq!(id.mul(&a), a);
    assert_eq!(a.mul(&id), a);
}

#[test]
fn dot_is_symmetric() {
    let a = Matrix::new(2, 3, vec![1i64, -2, 3, 4, 5, -6]);
    let b = Matrix::new(3, 2, vec![7i64, 8, -9, 10, 11, 12]);
    assert_eq!(a.dot(&b), b.dot(&a));
}

#[test]
fn try_new_rejects_wrong_length() {
    let r = Matrix::try_new(3, 3, vec![1i64, 1, 1, 1]);
    assert_eq!(r, Err(MatrixError::ShapeMismatch));
}

#[test]
fn get_out_of_bounds_is_reported() {
    let matrix = Matrix::new(3, 3, vec![1i64, 2, 3, 4, 5, 6, 7, 8, 9]);
    assert_eq!(matrix.try_get(3, 0), Err(MatrixError::OutOfBounds));
    assert_eq!(matrix.try_get(0, 3), Err(MatrixError::OutOfBounds));
    assert_eq!(matrix.try_get(2, 2), Ok(9));
}

#[test]
fn set_out_of_bounds_is_reported() {
    let mut matrix = Matrix::new(3, 3, vec![1i64, 2, 3, 4, 5, 6, 7, 8, 9]);
    assert_eq!(matrix.try_set(3, 0, 42), Err(MatrixError::OutOfBounds));
    assert_eq!(matrix.try_set(0, 3, 42), Err(MatrixError::OutOfBounds));
    assert_eq!(matrix, Matrix::new(3, 3, vec![1i64, 2, 3, 4, 5, 6, 7, 8, 9]));
    assert_eq!(matrix.try_set(0, 2, 42), Ok(()));
    assert_eq!(matrix.get(0, 2), 42);
}

#[test]
fn two_by_two_sum_and_product() {
    let a = Matrix::new(2, 2, vec![2i64, 2, 1, 0]);
    let b = Matrix::new(2, 2, vec![1i64, 1, 2, 3]);
    assert_eq!(a.add(&b), Matrix::new(2, 2, vec![3i64, 3, 3, 3]));
    assert_eq!(a.mul(&b), Matrix::new(2, 2, vec![6i64, 8, 1, 1]));
}

#[test]
fn mismatched_multiplication_is_reported() {
    let left = Matrix::new(2, 3, vec![1i64, 1, 2, 3, 0, 0]);
    let right = Matrix::new(2, 2, vec![2i64, 2, 1, 0]);
    assert_eq!(left.try_mul(&right), Err(MatrixError::ShapeMismatch));
}

#[test]
fn accumulation_target_multiplication() {
    let left = Matrix::new(2, 2, vec![2i64, 2, 1, 0]);
    let right = Matrix::new(2, 2, vec![1i64, 1, 2, 3]);
    let mut out = Matrix::new(2, 2, vec![100i64, 0, 0, 100]);
    assert_eq!(Matrix::try_mult_into(&left, &right, &mut out), Ok(()));
    assert_eq!(out, Matrix::new(2, 2, vec![106i64, 8, 1, 101]));

    let mut wrong: Matrix<i64> = Matrix::empty(3, 3);
    assert_eq!(
        Matrix::try_mult_into(&left, &right, &mut wrong),
        Err(MatrixError::ShapeMismatch)
    );
    assert_eq!(wrong, Matrix::empty(3, 3));
}

#[test]
fn mismatched_addition_is_reported() {
    let m1 = Matrix::new(2, 3, vec![1i64, 1, 2, 3, 0, 0]);
    let m2 = Matrix::new(2, 2, vec![2i64, 2, 1, 0]);
    assert_eq!(m1.try_add(&m2), Err(MatrixError::ShapeMismatch));
}

#[test]
fn mismatched_dot_is_reported() {
    let left = Matrix::new(1, 3, vec![1i64, 0, 0]);
    let right = Matrix::new(4, 1, vec![1i64, 2, 3, 4]);
    assert_eq!(left.try_dot(&right), Err(MatrixError::ShapeMismatch));
}

#[test]
fn empty_is_zero_filled() {
    let matrix: Matrix<i64> = Matrix::empty(2, 3);
    assert_eq!(matrix.size(), (2, 3));
    for i in 0..2 {
        for j in 0..3 {
            assert_eq!(matrix.get(i, j), 0);
        }
    }
    let none: Matrix<i64> = Matrix::empty(0, 0);
    assert_eq!(none.len(), 0);
}

#[test]
fn rand_has_requested_shape() {
    let matrix: Matrix<i64> = Matrix::rand(3, 4);
    assert_eq!(matrix.nrows(), 3);
    assert_eq!(matrix.ncols(), 4);
    assert_eq!(matrix.len(), 12);
    assert_eq!(matrix.data.len(), 12);
}

#[test]
fn size_accessors_agree() {
    let matrix = Matrix::new(2, 3, vec![0i64; 6]);
    assert_eq!(matrix.size(), (matrix.nrows(), matrix.ncols()));
    assert_eq!(matrix.len(), matrix.nrows() * matrix.ncols());
}

#[test]
fn equality_requires_matching_shape() {
    let flat = Matrix::new(1, 4, vec![1i64, 2, 3, 4]);
    let tall = Matrix::new(4, 1, vec![1i64, 2, 3, 4]);
    assert_ne!(flat, tall);
    assert_eq!(flat, Matrix::new(1, 4, vec![1i64, 2, 3, 4]));
    assert_ne!(flat, Matrix::new(1, 4, vec![1i64, 2, 3, 5]));
}

#[test]
fn addition_wraps_at_the_range_edge() {
    let a = Matrix::new(1, 1, vec![i64::MAX]);
    let b = Matrix::new(1, 1, vec![1i64]);
    assert_eq!(a.add(&b), Matrix::new(1, 1, vec![i64::MIN]));
}

#[test]
fn completion_round_trip_preserves_shape_and_data() {
    let matrix = Matrix::new(2, 2, vec![1i64, 0, 0, 4]);
    let (rows, cols, flat) = completion_request(&matrix);
    assert_eq!((rows, cols), (2, 2));
    assert_eq!(flat, vec![1i64, 0, 0, 4]);
    let rebuilt = completion_rebuild(&matrix, flat).unwrap();
    assert_eq!(rebuilt, matrix);
}

#[test]
fn completion_rejects_wrong_length() {
    let matrix = Matrix::new(2, 2, vec![1i64, 0, 0, 4]);
    let r = completion_rebuild(&matrix, vec![1i64, 2, 3]);
    assert_eq!(r, Err(MatrixError::ShapeMismatch));
}

#[test]
fn thirty_two_bit_elements_work_too() {
    let a = Matrix::new(2, 2, vec![1i32, 2, 3, 4]);
    let b = Matrix::new(2, 2, vec![5i32, 6, 7, 8]);
    assert_eq!(a.add(&b), Matrix::new(2, 2, vec![6i32, 8, 10, 12]));
    assert_eq!(a.mul(&b), Matrix::new(2, 2, vec![19i32, 22, 43, 50]));
    assert_eq!(a.dot(&b), 70);
}
