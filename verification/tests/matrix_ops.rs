use matrix::error::DimMismatch;
use matrix::matrix::Matrix;

#[test]
fn matrix_add_elementwise() {
    let mut u: Matrix<i64> = Matrix::new(vec![vec![1, 2], vec![3, 4]]);
    let v: Matrix<i64> = Matrix::new(vec![vec![7, 4], vec![-2, 2]]);
    assert_eq!(u.add(&v), Ok(()));
    assert_eq!(u.data, vec![vec![8, 6], vec![1, 6]]);
}

#[test]
fn matrix_sub_elementwise() {
    let mut u: Matrix<i64> = Matrix::new(vec![vec![1, 2], vec![3, 4]]);
    let v: Matrix<i64> = Matrix::new(vec![vec![7, 4], vec![-2, 2]]);
    assert_eq!(u.sub(&v), Ok(()));
    assert_eq!(u.data, vec![vec![-6, -2], vec![5, 2]]);
}

#[test]
fn matrix_scl_scales_every_cell() {
    let mut u: Matrix<i64> = Matrix::new(vec![vec![1, 2], vec![3, 4]]);
    u.scl(2);
    assert_eq!(u.data, vec![vec![2, 4], vec![6, 8]]);
}

#[test]
fn matrix_add_row_count_mismatch_fails_without_mutating() {
    let snapshot = vec![vec![1, 2], vec![3, 4]];
    let mut u: Matrix<i64> = Matrix::new(snapshot.clone());
    let v: Matrix<i64> = Matrix::new(vec![vec![1, 2]]);
    let v_snapshot = v.data.clone();
    assert_eq!(u.add(&v), Err(DimMismatch));
    assert_eq!(u.data, snapshot);
    assert_eq!(v.data, v_snapshot);
}

#[test]
fn matrix_add_column_count_mismatch_fails_without_mutating() {
    let snapshot = vec![vec![1, 2], vec![3, 4]];
    let mut u: Matrix<i64> = Matrix::new(snapshot.clone());
    let v: Matrix<i64> = Matrix::new(vec![vec![1], vec![3]]);
    assert_eq!(u.add(&v), Err(DimMismatch));
    assert_eq!(u.data, snapshot);
}

#[test]
fn matrix_sub_mismatch_fails_without_mutating() {
    let snapshot = vec![vec![5, 6, 7]];
    let mut u: Matrix<i64> = Matrix::new(snapshot.clone());
    let v: Matrix<i64> = Matrix::new(vec![vec![5, 6]]);
    assert_eq!(u.sub(&v), Err(DimMismatch));
    assert_eq!(u.data, snapshot);
}

#[test]
fn matrix_scl_handles_jagged_rows() {
    let mut u: Matrix<i64> = Matrix::new(vec![vec![1, 2, 3], vec![4]]);
    u.scl(3);
    assert_eq!(u.data, vec![vec![3, 6, 9], vec![12]]);
}

#[test]
fn matrix_scl_by_one_is_identity() {
    let mut u: Matrix<i64> = Matrix::new(vec![vec![9, -2], vec![0, 5]]);
    u.scl(1);
    assert_eq!(u.data, vec![vec![9, -2], vec![0, 5]]);
}

#[test]
fn matrix_construction_from_raw_data() {
    let m: Matrix<i64> = Matrix::from(vec![vec![1, 2], vec![3, 4]]);
    assert_eq!(m.data, vec![vec![1, 2], vec![3, 4]]);
}
