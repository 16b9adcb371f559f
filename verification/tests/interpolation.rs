use matrix::error::DimMismatch;
use matrix::frac::Frac;
use matrix::lerp::lerp;
use matrix::matrix::Matrix;
use matrix::vector::Vector;

#[test]
fn frac_eqv_compares_values() {
    assert!(Frac::new(1, 2).eqv(Frac::new(2, 4)));
    assert!(Frac::new(-3, 6).eqv(Frac::new(-1, 2)));
    assert!(!Frac::new(1, 2).eqv(Frac::new(1, 3)));
}

#[test]
fn lerp_at_zero_is_start() {
    let r = lerp(Frac::from_int(0), Frac::from_int(1), Frac::from_int(0));
    assert!(r.eqv(Frac::from_int(0)));
}

#[test]
fn lerp_at_one_is_end() {
    let r = lerp(Frac::from_int(0), Frac::from_int(1), Frac::from_int(1));
    assert!(r.eqv(Frac::from_int(1)));
}

#[test]
fn lerp_at_half_is_midpoint() {
    let r = lerp(Frac::from_int(0), Frac::from_int(1), Frac::new(1, 2));
    assert!(r.eqv(Frac::new(1, 2)));
}

#[test]
fn lerp_between_whole_numbers() {
    let r = lerp(Frac::from_int(21), Frac::from_int(42), Frac::new(3, 10));
    assert!(r.eqv(Frac::new(273, 10)));
}

#[test]
fn lerp_extrapolates_outside_unit_interval() {
    let r = lerp(Frac::from_int(0), Frac::from_int(10), Frac::from_int(2));
    assert!(r.eqv(Frac::from_int(20)));
}

#[test]
fn lerp_on_integers() {
    assert_eq!(lerp(3i64, 9i64, 0i64), 3);
    assert_eq!(lerp(3i64, 9i64, 1i64), 9);
}

#[test]
fn vector_lerp_coordinatewise() {
    let u: Vector<Frac> = Vector::new(vec![Frac::from_int(2), Frac::from_int(1)]);
    let v: Vector<Frac> = Vector::new(vec![Frac::from_int(4), Frac::from_int(2)]);
    let w = u.lerp(&v, Frac::new(3, 10)).unwrap();
    assert!(w.data[0].eqv(Frac::new(26, 10)));
    assert!(w.data[1].eqv(Frac::new(13, 10)));
}

#[test]
fn vector_lerp_mismatch_fails() {
    let u: Vector<Frac> = Vector::new(vec![Frac::from_int(2)]);
    let v: Vector<Frac> = Vector::new(vec![Frac::from_int(4), Frac::from_int(2)]);
    assert_eq!(u.lerp(&v, Frac::new(1, 2)).unwrap_err(), DimMismatch);
}

#[test]
fn matrix_lerp_at_half_is_elementwise_average() {
    let a: Matrix<Frac> = Matrix::new(vec![
        vec![Frac::from_int(2), Frac::from_int(1)],
        vec![Frac::from_int(3), Frac::from_int(4)],
    ]);
    let b: Matrix<Frac> = Matrix::new(vec![
        vec![Frac::from_int(20), Frac::from_int(10)],
        vec![Frac::from_int(30), Frac::from_int(40)],
    ]);
    let w = a.lerp(&b, Frac::new(1, 2)).unwrap();
    assert!(w.data[0][0].eqv(Frac::from_int(11)));
    assert!(w.data[0][1].eqv(Frac::new(11, 2)));
    assert!(w.data[1][0].eqv(Frac::new(33, 2)));
    assert!(w.data[1][1].eqv(Frac::from_int(22)));
}

#[test]
fn matrix_lerp_mismatch_fails() {
    let a: Matrix<Frac> = Matrix::new(vec![vec![Frac::from_int(2)]]);
    let b: Matrix<Frac> = Matrix::new(vec![vec![Frac::from_int(4), Frac::from_int(2)]]);
    assert_eq!(a.lerp(&b, Frac::new(1, 2)).unwrap_err(), DimMismatch);
}

#[test]
fn norms_of_fraction_vectors() {
    let v: Vector<Frac> = Vector::new(vec![Frac::new(3, 2), Frac::new(-7, 2)]);
    assert!(v.norm_1().eqv(Frac::from_int(5)));
    assert!(v.norm_inf().eqv(Frac::new(7, 2)));
    assert!(v.norm_squared().eqv(Frac::new(58, 4)));
}

#[test]
fn matrix_lerp_single_row() {
    let a: Matrix<Frac> = Matrix::new(vec![vec![Frac::from_int(2), Frac::from_int(1)]]);
    let b: Matrix<Frac> = Matrix::new(vec![vec![Frac::from_int(4), Frac::from_int(2)]]);
    let w = a.lerp(&b, Frac::new(3, 10)).unwrap();
    assert!(w.data[0][0].eqv(Frac::new(26, 10)));
    assert!(w.data[0][1].eqv(Frac::new(13, 10)));
}

#[test]
fn dot_of_fraction_vectors() {
    let u: Vector<Frac> = Vector::new(vec![Frac::new(1, 2), Frac::new(3, 2)]);
    let v: Vector<Frac> = Vector::new(vec![Frac::from_int(4), Frac::from_int(2)]);
    let d = u.dot(v).unwrap();
    assert!(d.eqv(Frac::from_int(5)));
}
