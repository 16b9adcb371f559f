use vstd::prelude::*;

use crate::error::DimMismatch;
use crate::frac::Frac;
use crate::matrix::Matrix;
use crate::scalar::Scalar;
use crate::vector::Vector;

verus! {

/// The value of linear interpolation between `u` and `v` at parameter `t`:
/// `u * (1 - t) + v * t`.
pub open spec fn lerp_spec<T: Scalar>(u: T, v: T, t: T) -> T {
    u.sp_mul(T::sp_one().sp_sub(t)).sp_add(v.sp_mul(t))
}

/// Whether every step of the interpolation formula fits the representation.
pub open spec fn lerp_ok<T: Scalar>(u: T, v: T, t: T) -> bool {
    &&& T::sp_one().sub_ok(t)
    &&& u.mul_ok(T::sp_one().sp_sub(t))
    &&& v.mul_ok(t)
    &&& u.sp_mul(T::sp_one().sp_sub(t)).add_ok(v.sp_mul(t))
}

/// Linear interpolation between two scalars: `u * (1 - t) + v * t`. The
/// parameter is not confined to the unit interval; values outside it
/// extrapolate, by design. Neither input is mutated.
pub fn lerp<T: Scalar>(u: T, v: T, t: T) -> (r: T)
    requires
        u.wf(),
        v.wf(),
        t.wf(),
        lerp_ok(u, v, t),
    ensures
        r == lerp_spec(u, v, t),
        r.wf(),
{
    let omt = T::one().minus(t);
    u.times(omt).plus(v.times(t))
}

impl<T: Scalar> Vector<T> {
    /// Linear interpolation towards `v` at parameter `t`, coordinate by
    /// coordinate. Fails when the dimensions differ; neither input is
    /// mutated.
    pub fn lerp(&self, v: &Vector<T>, t: T) -> (r: Result<Vector<T>, DimMismatch>)
        requires
            self.wf(),
            v.wf(),
            t.wf(),
            self@.len() == v@.len() ==> forall|i: int|
                0 <= i < self@.len() ==> lerp_ok(#[trigger] self@[i], v@[i], t),
        ensures
            r is Ok <==> self@.len() == v@.len(),
            r matches Ok(w) ==> {
                &&& w@.len() == self@.len()
                &&& forall|i: int|
                    0 <= i < self@.len() ==> w@[i] == lerp_spec(#[trigger] self@[i], v@[i], t)
                &&& w.wf()
            },
            self@.len() != v@.len() ==> r == Err::<Vector<T>, DimMismatch>(DimMismatch),
    {
        if self.data.len() != v.data.len() {
            return Err(DimMismatch);
        }
        let n = self.data.len();
        let mut out: Vec<T> = Vec::new();
        let mut i: usize = 0;
        while i < n
            invariant
                i <= n,
                n == self@.len(),
                n == v@.len(),
                self.wf(),
                v.wf(),
                t.wf(),
                forall|k: int| 0 <= k < n ==> lerp_ok(#[trigger] self@[k], v@[k], t),
                out@.len() == i,
                forall|k: int|
                    0 <= k < i ==> out@[k] == lerp_spec(#[trigger] self@[k], v@[k], t),
                forall|k: int| 0 <= k < i ==> (#[trigger] out@[k]).wf(),
            decreases n - i,
        {
            let s = lerp(self.data[i], v.data[i], t);
            out.push(s);
            i = i + 1;
        }
        Ok(Vector { data: out })
    }
}

impl<T: Scalar> Matrix<T> {
    /// Linear interpolation towards `v` at parameter `t`, cell by cell. Fails
    /// when the row counts or the first rows' lengths differ; neither input
    /// is mutated.
    pub fn lerp(&self, v: &Matrix<T>, t: T) -> (r: Result<Matrix<T>, DimMismatch>)
        requires
            self.wf(),
            v.wf(),
            t.wf(),
            self.rect(),
            v.rect(),
            self.rows() >= 1,
            (self.rows() == v.rows() && self.cols() == v.cols()) ==> forall|i: int, j: int|
                0 <= i < self.rows() && 0 <= j < self.cols() ==> lerp_ok(
                    #[trigger] self.at(i, j),
                    v.at(i, j),
                    t,
                ),
        ensures
            r is Ok <==> (self.rows() == v.rows() && self.cols() == v.cols()),
            r matches Ok(w) ==> {
                &&& w.rows() == self.rows()
                &&& forall|i: int|
                    0 <= i < w.rows() ==> (#[trigger] w@[i]).len() == self@[i].len()
                &&& forall|i: int, j: int|
                    0 <= i < self.rows() && 0 <= j < self.cols() ==> w.at(i, j) == lerp_spec(
                        #[trigger] self.at(i, j),
                        v.at(i, j),
                        t,
                    )
                &&& w.wf()
                &&& w.rect()
            },
            !(self.rows() == v.rows() && self.cols() == v.cols()) ==> r == Err::<
                Matrix<T>,
                DimMismatch,
            >(DimMismatch),
    {
        if self.data.len() != v.data.len() {
            return Err(DimMismatch);
        }
        if self.data[0].len() != v.data[0].len() {
            return Err(DimMismatch);
        }
        let rows = self.data.len();
        let cols = self.data[0].len();
        let mut out: Vec<Vec<T>> = Vec::new();
        let mut i: usize = 0;
        while i < rows
            invariant
                i <= rows,
                rows == self@.len(),
                rows == v@.len(),
                cols == self.cols(),
                cols == v.cols(),
                self.wf(),
                v.wf(),
                t.wf(),
                self.rect(),
                v.rect(),
                forall|a: int, b: int|
                    0 <= a < rows && 0 <= b < cols ==> lerp_ok(
                        #[trigger] self.at(a, b),
                        v.at(a, b),
                        t,
                    ),
                out@.len() == i,
                forall|k: int| 0 <= k < i ==> (#[trigger] out@[k])@.len() == cols,
                forall|k: int, l: int|
                    0 <= k < i && 0 <= l < cols ==> out@[k]@[l] == lerp_spec(
                        #[trigger] self.at(k, l),
                        v.at(k, l),
                        t,
                    ),
                forall|k: int, l: int|
                    0 <= k < i && 0 <= l < cols ==> (#[trigger] out@[k]@[l]).wf(),
            decreases rows - i,
        {
            let mut newrow: Vec<T> = Vec::new();
            let mut j: usize = 0;
            while j < cols
                invariant
                    j <= cols,
                    i < rows,
                    rows == self@.len(),
                    rows == v@.len(),
                    cols == self.cols(),
                    cols == v.cols(),
                    self.wf(),
                    v.wf(),
                    t.wf(),
                    self.rect(),
                    v.rect(),
                    forall|a: int, b: int|
                        0 <= a < rows && 0 <= b < cols ==> lerp_ok(
                            #[trigger] self.at(a, b),
                            v.at(a, b),
                            t,
                        ),
                    newrow@.len() == j,
                    forall|l: int|
                        0 <= l < j ==> newrow@[l] == lerp_spec(
                            #[trigger] self.at(i as int, l),
                            v.at(i as int, l),
                            t,
                        ),
                    forall|l: int| 0 <= l < j ==> (#[trigger] newrow@[l]).wf(),
                decreases cols - j,
            {
                proof {
                    assert(self@[i as int].len() == cols);
                    assert(v@[i as int].len() == cols);
                    assert(lerp_ok(self.at(i as int, j as int), v.at(i as int, j as int), t));
                    assert(self.at(i as int, j as int).wf());
                    assert(v.at(i as int, j as int).wf());
                }
                let s = lerp(self.data[i][j], v.data[i][j], t);
                newrow.push(s);
                j = j + 1;
            }
            out.push(newrow);
            i = i + 1;
        }
        let w = Matrix { data: out };
        proof {
            assert forall|k: int| 0 <= k < rows implies (#[trigger] w@[k]).len() == cols by {
                assert(w@[k] == out@[k]@);
            }
            assert forall|k: int, l: int|
                0 <= k < rows && 0 <= l < cols implies w.at(k, l) == lerp_spec(
                #[trigger] self.at(k, l),
                v.at(k, l),
                t,
            ) && w.at(k, l).wf() by {
                assert(w@[k] == out@[k]@);
            }
        }
        Ok(w)
    }
}

/// At the midpoint parameter of one half, interpolation between two fractions
/// yields their average: the result denotes half their sum, whenever the
/// interpolation steps, the sum and its halving all fit the representation.
pub proof fn lemma_lerp_half(x: Frac, y: Frac)
    requires
        x.wf(),
        y.wf(),
        lerp_ok(x, y, Frac { num: 1, den: 2 }),
        x.add_ok(y),
        x.sp_add(y).mul_ok(Frac { num: 1, den: 2 }),
    ensures
        lerp_spec(x, y, Frac { num: 1, den: 2 }).sp_eqv(
            x.sp_add(y).sp_mul(Frac { num: 1, den: 2 }),
        ),
{
    let n1 = x.num as int;
    let d1 = x.den as int;
    let n2 = y.num as int;
    let d2 = y.den as int;
    let t = Frac { num: 1, den: 2 };
    let h = Frac::sp_one().sp_sub(t);
    assert(h == t);
    let lx = x.sp_mul(h);
    let ly = y.sp_mul(t);
    assert(lx.num as int == n1 && lx.den as int == 2 * d1);
    assert(ly.num as int == n2 && ly.den as int == 2 * d2);
    let lhs = lerp_spec(x, y, t);
    assert(lhs == lx.sp_add(ly));
    assert(lhs.num as int == n1 * (2 * d2) + n2 * (2 * d1));
    assert(lhs.den as int == (2 * d1) * (2 * d2));
    let s = x.sp_add(y);
    assert(s.num as int == n1 * d2 + n2 * d1);
    assert(s.den as int == d1 * d2);
    let rhs = s.sp_mul(t);
    assert(rhs.num as int == n1 * d2 + n2 * d1);
    assert(rhs.den as int == (d1 * d2) * 2);
    assert((n1 * (2 * d2) + n2 * (2 * d1)) * ((d1 * d2) * 2) == (n1 * d2 + n2 * d1) * ((2 * d1) * (
    2 * d2))) by (nonlinear_arith);
}

/// At the midpoint parameter of one half, interpolation between two
/// equal-shape matrices yields the elementwise average: each cell of the
/// result denotes half the sum of the corresponding cells of the operands.
pub proof fn lemma_matrix_lerp_midpoint(a: Matrix<Frac>, b: Matrix<Frac>, t: Frac)
    requires
        a.wf(),
        b.wf(),
        a.rect(),
        b.rect(),
        a.rows() == b.rows(),
        a.cols() == b.cols(),
        t == (Frac { num: 1, den: 2 }),
        forall|i: int, j: int|
            0 <= i < a.rows() && 0 <= j < a.cols() ==> lerp_ok(#[trigger] a.at(i, j), b.at(i, j), t),
        forall|i: int, j: int|
            0 <= i < a.rows() && 0 <= j < a.cols() ==> (#[trigger] a.at(i, j)).add_ok(b.at(i, j)),
        forall|i: int, j: int|
            0 <= i < a.rows() && 0 <= j < a.cols() ==> (#[trigger] a.at(i, j)).sp_add(
                b.at(i, j),
            ).mul_ok(t),
    ensures
        forall|i: int, j: int|
            0 <= i < a.rows() && 0 <= j < a.cols() ==> lerp_spec(
                #[trigger] a.at(i, j),
                b.at(i, j),
                t,
            ).sp_eqv(a.at(i, j).sp_add(b.at(i, j)).sp_mul(t)),
{
    assert forall|i: int, j: int|
        0 <= i < a.rows() && 0 <= j < a.cols() implies lerp_spec(
        #[trigger] a.at(i, j),
        b.at(i, j),
        t,
    ).sp_eqv(a.at(i, j).sp_add(b.at(i, j)).sp_mul(t)) by {
        lemma_lerp_half(a.at(i, j), b.at(i, j));
    }
}

} // verus!
