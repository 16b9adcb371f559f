use matrix::error::DimMismatch;
use matrix::vector::Vector;

#[test]
fn add_elementwise() {
    let mut u: Vector<i64> = Vector::new(vec![2, 3]);
    let v: Vector<i64> = Vector::new(vec![5, 7]);
    assert_eq!(u.add(&v), Ok(()));
    assert_eq!(u.data, vec![7, 10]);
}

#[test]
fn add_mismatch_fails_without_mutating() {
    let mut u: Vector<i64> = Vector::new(vec![1, 2, 3]);
    let v: Vector<i64> = Vector::new(vec![1, 2]);
    assert_eq!(u.add(&v), Err(DimMismatch));
    assert_eq!(u.data, vec![1, 2, 3]);
}

#[test]
fn sub_elementwise() {
    let mut u: Vector<i64> = Vector::new(vec![2, 3]);
    let v: Vector<i64> = Vector::new(vec![5, 7]);
    assert_eq!(u.sub(&v), Ok(()));
    assert_eq!(u.data, vec![-3, -4]);
}

#[test]
fn sub_mismatch_fails_without_mutating() {
    let mut u: Vector<i64> = Vector::new(vec![4]);
    let v: Vector<i64> = Vector::new(vec![]);
    assert_eq!(u.sub(&v), Err(DimMismatch));
    assert_eq!(u.data, vec![4]);
}

#[test]
fn add_then_sub_restores() {
    let original = vec![13, -7, 0, 42];
    let mut u: Vector<i64> = Vector::new(original.clone());
    let v: Vector<i64> = Vector::new(vec![100, 200, -300, 4]);
    assert_eq!(u.add(&v), Ok(()));
    assert_eq!(u.sub(&v), Ok(()));
    assert_eq!(u.data, original);
}

#[test]
fn scl_by_one_is_identity() {
    let mut u: Vector<i64> = Vector::new(vec![5, -9, 0]);
    u.scl(1);
    assert_eq!(u.data, vec![5, -9, 0]);
}

#[test]
fn scl_by_zero_gives_zero_vector() {
    let mut u: Vector<i64> = Vector::new(vec![5, -9, 7]);
    u.scl(0);
    assert_eq!(u.data, vec![0, 0, 0]);
}

#[test]
fn scl_scales_every_element() {
    let mut u: Vector<i64> = Vector::new(vec![2, 3]);
    u.scl(2);
    assert_eq!(u.data, vec![4, 6]);
}

#[test]
fn dot_of_equal_length_vectors() {
    let u: Vector<i64> = Vector::new(vec![1, 2]);
    let v: Vector<i64> = Vector::new(vec![3, 4]);
    assert_eq!(u.dot(v), Ok(11));
}

#[test]
fn dot_is_commutative() {
    let u: Vector<i64> = Vector::new(vec![3, -1, 7]);
    let v: Vector<i64> = Vector::new(vec![2, 10, -4]);
    let uv = u.dot(Vector::new(v.data.clone())).unwrap();
    let vu = v.dot(Vector::new(u.data.clone())).unwrap();
    assert_eq!(uv, vu);
    assert_eq!(uv, -32);
}

#[test]
fn dot_of_empty_vectors_is_zero() {
    let u: Vector<i64> = Vector::new(vec![]);
    let v: Vector<i64> = Vector::new(vec![]);
    assert_eq!(u.dot(v), Ok(0));
}

#[test]
fn dot_mismatch_fails() {
    let u: Vector<i64> = Vector::new(vec![1, 2]);
    let v: Vector<i64> = Vector::new(vec![1]);
    assert_eq!(u.dot(v), Err(DimMismatch));
}

#[test]
fn norms_of_small_vectors() {
    let u: Vector<i64> = Vector::new(vec![3, 4]);
    assert_eq!(u.norm_squared(), 25);
    let w: Vector<i64> = Vector::new(vec![3, -4]);
    assert_eq!(w.norm_1(), 7);
    assert_eq!(w.norm_inf(), 4);
}

#[test]
fn euclidean_norm_from_norm_squared() {
    let u: Vector<i64> = Vector::new(vec![3, 4]);
    let norm = (u.norm_squared() as f32).sqrt();
    assert_eq!(norm, 5.0);
}

#[test]
fn norm_1_of_empty_vector_is_zero() {
    let u: Vector<i64> = Vector::new(vec![]);
    assert_eq!(u.norm_1(), 0);
}

#[test]
fn vector_length() {
    let u: Vector<i64> = Vector::new(vec![1, 2, 3]);
    assert_eq!(u.len(), 3);
}

#[test]
fn vector_construction_from_raw_data() {
    let u: Vector<i64> = Vector::from(vec![2, 3]);
    assert_eq!(u.data, vec![2, 3]);
}

#[test]
fn scl_of_empty_vector_stays_empty() {
    let mut u: Vector<i64> = Vector::new(vec![]);
    u.scl(3);
    assert_eq!(u.data, Vec::<i64>::new());
}

#[test]
fn norm_inf_of_single_element() {
    let u: Vector<i64> = Vector::new(vec![-9]);
    assert_eq!(u.norm_inf(), 9);
}
