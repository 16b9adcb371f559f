use matrix::error::DimMismatch;
use matrix::frac::Frac;
use matrix::linear_combination::linear_combination;
use matrix::vector::Vector;

fn frac_vector(values: &[(i64, i64)]) -> Vector<Frac> {
    let mut data = Vec::new();
    for &(num, den) in values {
        data.push(Frac::new(num, den));
    }
    Vector::new(data)
}

#[test]
fn combination_of_standard_basis_returns_coefficients() {
    let e1 = frac_vector(&[(1, 1), (0, 1), (0, 1)]);
    let e2 = frac_vector(&[(0, 1), (1, 1), (0, 1)]);
    let e3 = frac_vector(&[(0, 1), (0, 1), (1, 1)]);
    let coefs = vec![Frac::from_int(10), Frac::from_int(-2), Frac::new(1, 2)];
    let w = linear_combination(&vec![e1, e2, e3], &coefs).unwrap();
    assert_eq!(w.data.len(), 3);
    assert!(w.data[0].eqv(Frac::from_int(10)));
    assert!(w.data[1].eqv(Frac::from_int(-2)));
    assert!(w.data[2].eqv(Frac::new(1, 2)));
}

#[test]
fn combination_of_integer_vectors() {
    let v1: Vector<i64> = Vector::new(vec![1, 2, 3]);
    let v2: Vector<i64> = Vector::new(vec![0, 10, -100]);
    let w = linear_combination(&vec![v1, v2], &vec![10, -2]).unwrap();
    assert_eq!(w.data, vec![10, 0, 230]);
}

#[test]
fn combination_count_mismatch_fails() {
    let v1: Vector<i64> = Vector::new(vec![1, 2]);
    let r = linear_combination(&vec![v1], &vec![1, 2]);
    assert_eq!(r.unwrap_err(), DimMismatch);
}

#[test]
fn combination_dimension_mismatch_fails() {
    let v1: Vector<i64> = Vector::new(vec![1, 2]);
    let v2: Vector<i64> = Vector::new(vec![1, 2, 3]);
    let r = linear_combination(&vec![v1, v2], &vec![1, 1]);
    assert_eq!(r.unwrap_err(), DimMismatch);
}

#[test]
fn combination_of_no_vectors_is_empty() {
    let vectors: Vec<Vector<i64>> = vec![];
    let coefs: Vec<i64> = vec![];
    let w = linear_combination(&vectors, &coefs).unwrap();
    assert_eq!(w.data, Vec::<i64>::new());
}
