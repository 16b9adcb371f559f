use vstd::prelude::*;

use crate::error::DimMismatch;
use crate::scalar::Scalar;

verus! {

/// A rectangular grid of scalars, held as a sequence of rows. Construction
/// accepts any nested data, jagged rows included; the binary operations are
/// specified for rectangular operands, compare the row counts and the first
/// rows' lengths, and fail before mutating anything when those differ.
#[derive(Clone, Debug)]
pub struct Matrix<T> {
    pub data: Vec<Vec<T>>,
}

impl<T> View for Matrix<T> {
    type V = Seq<Seq<T>>;

    open spec fn view(&self) -> Seq<Seq<T>> {
        Seq::new(self.data@.len() as nat, |i: int| self.data@[i]@)
    }
}

impl<T> From<Vec<Vec<T>>> for Matrix<T> {
    /// Wraps raw nested data; ownership transfers, nothing is validated, a
    /// jagged grid is accepted as it stands.
    fn from(data: Vec<Vec<T>>) -> (r: Matrix<T>)
        ensures
            r@.len() == data@.len(),
            forall|i: int| 0 <= i < data@.len() ==> r@[i] == (#[trigger] data@[i])@,
    {
        Matrix { data }
    }
}

impl<T> vstd::std_specs::convert::FromSpecImpl<Vec<Vec<T>>> for Matrix<T> {
    open spec fn obeys_from_spec() -> bool {
        true
    }

    open spec fn from_spec(data: Vec<Vec<T>>) -> Matrix<T> {
        Matrix { data }
    }
}

impl<T> Matrix<T> {
    /// The number of rows.
    pub open spec fn rows(self) -> int {
        self@.len() as int
    }

    /// The number of columns, read off the first row.
    pub open spec fn cols(self) -> int {
        self@[0].len() as int
    }

    /// The element in row `i`, column `j`.
    pub open spec fn at(self, i: int, j: int) -> T {
        self@[i][j]
    }

    /// Every row has the length of the first: the grid is rectangular.
    pub open spec fn rect(self) -> bool {
        forall|i: int| 0 <= i < self@.len() ==> (#[trigger] self@[i]).len() == self@[0].len()
    }

    /// Wraps raw nested data; ownership transfers, nothing is validated, a
    /// jagged grid is accepted as it stands.
    pub fn new(data: Vec<Vec<T>>) -> (r: Matrix<T>)
        ensures
            r@.len() == data@.len(),
            forall|i: int| 0 <= i < data@.len() ==> r@[i] == (#[trigger] data@[i])@,
    {
        Matrix { data }
    }
}

impl<T: Scalar> Matrix<T> {
    /// Every element satisfies the scalar representation invariant.
    pub open spec fn wf(self) -> bool {
        forall|i: int, j: int|
            0 <= i < self@.len() && 0 <= j < self@[i].len() ==> (#[trigger] self.at(i, j)).wf()
    }

    /// Elementwise addition in place. Fails, touching nothing, when the row
    /// counts or the first rows' lengths differ.
    pub fn add(&mut self, v: &Matrix<T>) -> (r: Result<(), DimMismatch>)
        requires
            old(self).wf(),
            v.wf(),
            old(self).rect(),
            v.rect(),
            old(self).rows() >= 1,
            (old(self).rows() == v.rows() && old(self).cols() == v.cols()) ==> forall|i: int, j: int|
                0 <= i < old(self).rows() && 0 <= j < old(self).cols() ==> (#[trigger] old(
                    self,
                ).at(i, j)).add_ok(v.at(i, j)),
        ensures
            r is Ok <==> (old(self).rows() == v.rows() && old(self).cols() == v.cols()),
            r is Ok ==> {
                &&& final(self).rows() == old(self).rows()
                &&& forall|i: int|
                    0 <= i < final(self).rows() ==> (#[trigger] final(self)@[i]).len() == old(
                        self,
                    )@[i].len()
                &&& forall|i: int, j: int|
                    0 <= i < old(self).rows() && 0 <= j < old(self).cols() ==> final(self).at(i, j)
                        == (#[trigger] old(self).at(i, j)).sp_add(v.at(i, j))
            },
            r is Err ==> final(self)@ == old(self)@,
            final(self).wf(),
            final(self).rect(),
    {
        if self.data.len() != v.data.len() {
            return Err(DimMismatch);
        }
        if self.data[0].len() != v.data[0].len() {
            return Err(DimMismatch);
        }
        let rows = self.data.len();
        let cols = self.data[0].len();
        let mut i: usize = 0;
        while i < rows
            invariant
                i <= rows,
                rows == old(self)@.len(),
                rows == v@.len(),
                self@.len() == rows,
                cols == old(self).cols(),
                cols == v.cols(),
                old(self).wf(),
                v.wf(),
                old(self).rect(),
                v.rect(),
                forall|a: int, b: int|
                    0 <= a < rows && 0 <= b < cols ==> (#[trigger] old(self).at(a, b)).add_ok(
                        v.at(a, b),
                    ),
                forall|k: int| i <= k < rows ==> self@[k] == old(self)@[k],
                forall|k: int| 0 <= k < i ==> (#[trigger] self@[k]).len() == cols,
                forall|k: int, j: int|
                    0 <= k < i && 0 <= j < cols ==> self.at(k, j) == (#[trigger] old(self).at(
                        k,
                        j,
                    )).sp_add(v.at(k, j)),
                forall|k: int, j: int|
                    0 <= k < i && 0 <= j < cols ==> (#[trigger] self.at(k, j)).wf(),
            decreases rows - i,
        {
            let mut newrow: Vec<T> = Vec::new();
            let mut j: usize = 0;
            while j < cols
                invariant
                    j <= cols,
                    i < rows,
                    rows == old(self)@.len(),
                    rows == v@.len(),
                    self@.len() == rows,
                    cols == old(self).cols(),
                    cols == v.cols(),
                    old(self).wf(),
                    v.wf(),
                    old(self).rect(),
                    v.rect(),
                    forall|a: int, b: int|
                        0 <= a < rows && 0 <= b < cols ==> (#[trigger] old(self).at(a, b)).add_ok(
                            v.at(a, b),
                        ),
                    forall|k: int| i <= k < rows ==> self@[k] == old(self)@[k],
                    forall|k: int| 0 <= k < i ==> (#[trigger] self@[k]).len() == cols,
                    forall|k: int, l: int|
                        0 <= k < i && 0 <= l < cols ==> self.at(k, l) == (#[trigger] old(self).at(
                            k,
                            l,
                        )).sp_add(v.at(k, l)),
                    forall|k: int, l: int|
                        0 <= k < i && 0 <= l < cols ==> (#[trigger] self.at(k, l)).wf(),
                    newrow@.len() == j,
                    forall|l: int|
                        0 <= l < j ==> newrow@[l] == (#[trigger] old(self).at(i as int, l)).sp_add(
                            v.at(i as int, l),
                        ),
                    forall|l: int| 0 <= l < j ==> (#[trigger] newrow@[l]).wf(),
                decreases cols - j,
            {
                proof {
                    assert(self@[i as int] == old(self)@[i as int]);
                    assert(old(self)@[i as int].len() == cols);
                    assert(v@[i as int].len() == cols);
                    assert(old(self).at(i as int, j as int).wf());
                    assert(v.at(i as int, j as int).wf());
                    assert(old(self).at(i as int, j as int).add_ok(v.at(i as int, j as int)));
                }
                let s = self.data[i][j].plus(v.data[i][j]);
                newrow.push(s);
                j = j + 1;
            }
            let ghost pre = self@;
            self.data[i] = newrow;
            proof {
                assert forall|k: int| 0 <= k < i + 1 implies (#[trigger] self@[k]).len()
                    == cols by {
                    if k == i {
                        assert(self@[k] == newrow@);
                    } else {
                        assert(self@[k] == pre[k]);
                        assert(pre[k].len() == cols);
                    }
                }
                assert forall|k: int, l: int|
                    0 <= k < i + 1 && 0 <= l < cols implies self.at(k, l) == (#[trigger] old(
                    self,
                ).at(k, l)).sp_add(v.at(k, l)) by {
                    if k == i {
                        assert(self@[k] == newrow@);
                    }
                }
                assert forall|k: int, l: int|
                    0 <= k < i + 1 && 0 <= l < cols implies (#[trigger] self.at(k, l)).wf() by {
                    if k == i {
                        assert(self@[k] == newrow@);
                    } else {
                        assert(self@[k] == pre[k]);
                        assert(self.at(k, l) == old(self).at(k, l).sp_add(v.at(k, l)));
                    }
                }
            }
            i = i + 1;
        }
        Ok(())
    }

    /// Elementwise subtraction in place. Fails, touching nothing, when the
    /// row counts or the first rows' lengths differ.
    pub fn sub(&mut self, v: &Matrix<T>) -> (r: Result<(), DimMismatch>)
        requires
            old(self).wf(),
            v.wf(),
            old(self).rect(),
            v.rect(),
            old(self).rows() >= 1,
            (old(self).rows() == v.rows() && old(self).cols() == v.cols()) ==> forall|i: int, j: int|
                0 <= i < old(self).rows() && 0 <= j < old(self).cols() ==> (#[trigger] old(
                    self,
                ).at(i, j)).sub_ok(v.at(i, j)),
        ensures
            r is Ok <==> (old(self).rows() == v.rows() && old(self).cols() == v.cols()),
            r is Ok ==> {
                &&& final(self).rows() == old(self).rows()
                &&& forall|i: int|
                    0 <= i < final(self).rows() ==> (#[trigger] final(self)@[i]).len() == old(
                        self,
                    )@[i].len()
                &&& forall|i: int, j: int|
                    0 <= i < old(self).rows() && 0 <= j < old(self).cols() ==> final(self).at(i, j)
                        == (#[trigger] old(self).at(i, j)).sp_sub(v.at(i, j))
            },
            r is Err ==> final(self)@ == old(self)@,
            final(self).wf(),
            final(self).rect(),
    {
        if self.data.len() != v.data.len() {
            return Err(DimMismatch);
        }
        if self.data[0].len() != v.data[0].len() {
            return Err(DimMismatch);
        }
        let rows = self.data.len();
        let cols = self.data[0].len();
        let mut i: usize = 0;
        while i < rows
            invariant
                i <= rows,
                rows == old(self)@.len(),
                rows == v@.len(),
                self@.len() == rows,
                cols == old(self).cols(),
                cols == v.cols(),
                old(self).wf(),
                v.wf(),
                old(self).rect(),
                v.rect(),
                forall|a: int, b: int|
                    0 <= a < rows && 0 <= b < cols ==> (#[trigger] old(self).at(a, b)).sub_ok(
                        v.at(a, b),
                    ),
                forall|k: int| i <= k < rows ==> self@[k] == old(self)@[k],
                forall|k: int| 0 <= k < i ==> (#[trigger] self@[k]).len() == cols,
                forall|k: int, j: int|
                    0 <= k < i && 0 <= j < cols ==> self.at(k, j) == (#[trigger] old(self).at(
                        k,
                        j,
                    )).sp_sub(v.at(k, j)),
                forall|k: int, j: int|
                    0 <= k < i && 0 <= j < cols ==> (#[trigger] self.at(k, j)).wf(),
            decreases rows - i,
        {
            let mut newrow: Vec<T> = Vec::new();
            let mut j: usize = 0;
            while j < cols
                invariant
                    j <= cols,
                    i < rows,
                    rows == old(self)@.len(),
                    rows == v@.len(),
                    self@.len() == rows,
                    cols == old(self).cols(),
                    cols == v.cols(),
                    old(self).wf(),
                    v.wf(),
                    old(self).rect(),
                    v.rect(),
                    forall|a: int, b: int|
                        0 <= a < rows && 0 <= b < cols ==> (#[trigger] old(self).at(a, b)).sub_ok(
                            v.at(a, b),
                        ),
                    forall|k: int| i <= k < rows ==> self@[k] == old(self)@[k],
                    forall|k: int| 0 <= k < i ==> (#[trigger] self@[k]).len() == cols,
                    forall|k: int, l: int|
                        0 <= k < i && 0 <= l < cols ==> self.at(k, l) == (#[trigger] old(self).at(
                            k,
                            l,
                        )).sp_sub(v.at(k, l)),
                    forall|k: int, l: int|
                        0 <= k < i && 0 <= l < cols ==> (#[trigger] self.at(k, l)).wf(),
                    newrow@.len() == j,
                    forall|l: int|
                        0 <= l < j ==> newrow@[l] == (#[trigger] old(self).at(i as int, l)).sp_sub(
                            v.at(i as int, l),
                        ),
                    forall|l: int| 0 <= l < j ==> (#[trigger] newrow@[l]).wf(),
                decreases cols - j,
            {
                proof {
                    assert(self@[i as int] == old(self)@[i as int]);
                    assert(old(self)@[i as int].len() == cols);
                    assert(v@[i as int].len() == cols);
                    assert(old(self).at(i as int, j as int).wf());
                    assert(v.at(i as int, j as int).wf());
                    assert(old(self).at(i as int, j as int).sub_ok(v.at(i as int, j as int)));
                }
                let s = self.data[i][j].minus(v.data[i][j]);
                newrow.push(s);
                j = j + 1;
            }
            let ghost pre = self@;
            self.data[i] = newrow;
            proof {
                assert forall|k: int| 0 <= k < i + 1 implies (#[trigger] self@[k]).len()
                    == cols by {
                    if k == i {
                        assert(self@[k] == newrow@);
                    } else {
                        assert(self@[k] == pre[k]);
                        assert(pre[k].len() == cols);
                    }
                }
                assert forall|k: int, l: int|
                    0 <= k < i + 1 && 0 <= l < cols implies self.at(k, l) == (#[trigger] old(
                    self,
                ).at(k, l)).sp_sub(v.at(k, l)) by {
                    if k == i {
                        assert(self@[k] == newrow@);
                    }
                }
                assert forall|k: int, l: int|
                    0 <= k < i + 1 && 0 <= l < cols implies (#[trigger] self.at(k, l)).wf() by {
                    if k == i {
                        assert(self@[k] == newrow@);
                    } else {
                        assert(self@[k] == pre[k]);
                        assert(self.at(k, l) == old(self).at(k, l).sp_sub(v.at(k, l)));
                    }
                }
            }
            i = i + 1;
        }
        Ok(())
    }

    /// Multiplies every element by the factor, in place. Row lengths are not
    /// compared: the operation goes row by row and a jagged grid is scaled as
    /// it stands.
    pub fn scl(&mut self, a: T)
        requires
            old(self).wf(),
            a.wf(),
            forall|i: int, j: int|
                0 <= i < old(self)@.len() && 0 <= j < old(self)@[i].len() ==> (#[trigger] old(
                    self,
                ).at(i, j)).mul_ok(a),
        ensures
            final(self).rows() == old(self).rows(),
            forall|i: int|
                0 <= i < final(self).rows() ==> (#[trigger] final(self)@[i]).len()
                    == old(self)@[i].len(),
            forall|i: int, j: int|
                0 <= i < old(self)@.len() && 0 <= j < old(self)@[i].len() ==> final(self).at(i, j)
                    == (#[trigger] old(self).at(i, j)).sp_mul(a),
            final(self).wf(),
    {
        let rows = self.data.len();
        let mut i: usize = 0;
        while i < rows
            invariant
                i <= rows,
                rows == old(self)@.len(),
                self@.len() == rows,
                a.wf(),
                old(self).wf(),
                forall|k: int, j: int|
                    0 <= k < rows && 0 <= j < old(self)@[k].len() ==> (#[trigger] old(self).at(
                        k,
                        j,
                    )).mul_ok(a),
                forall|k: int| i <= k < rows ==> self@[k] == old(self)@[k],
                forall|k: int| 0 <= k < i ==> (#[trigger] self@[k]).len() == old(self)@[k].len(),
                forall|k: int, j: int|
                    0 <= k < i && 0 <= j < old(self)@[k].len() ==> self.at(k, j) == (
                    #[trigger] old(self).at(k, j)).sp_mul(a),
                forall|k: int, j: int|
                    0 <= k < i && 0 <= j < self@[k].len() ==> (#[trigger] self.at(k, j)).wf(),
            decreases rows - i,
        {
            let cols = self.data[i].len();
            let mut newrow: Vec<T> = Vec::new();
            let mut j: usize = 0;
            while j < cols
                invariant
                    j <= cols,
                    i < rows,
                    rows == old(self)@.len(),
                    self@.len() == rows,
                    a.wf(),
                    old(self).wf(),
                    forall|k: int| i <= k < rows ==> self@[k] == old(self)@[k],
                    forall|k: int| 0 <= k < i ==> (#[trigger] self@[k]).len() == old(self)@[k].len(),
                    forall|k: int, l: int|
                        0 <= k < i && 0 <= l < old(self)@[k].len() ==> self.at(k, l) == (
                        #[trigger] old(self).at(k, l)).sp_mul(a),
                    forall|k: int, l: int|
                        0 <= k < i && 0 <= l < self@[k].len() ==> (#[trigger] self.at(k, l)).wf(),
                    cols == old(self)@[i as int].len(),
                    forall|b: int|
                        0 <= b < cols ==> (#[trigger] old(self).at(i as int, b)).mul_ok(a),
                    newrow@.len() == j,
                    forall|l: int|
                        0 <= l < j ==> newrow@[l] == (#[trigger] old(self).at(i as int, l)).sp_mul(
                            a,
                        ),
                    forall|l: int| 0 <= l < j ==> (#[trigger] newrow@[l]).wf(),
                decreases cols - j,
            {
                proof {
                    assert(self@[i as int] == old(self)@[i as int]);
                    assert(old(self).at(i as int, j as int).wf());
                    assert(old(self).at(i as int, j as int).mul_ok(a));
                }
                let s = self.data[i][j].times(a);
                newrow.push(s);
                j = j + 1;
            }
            let ghost pre = self@;
            self.data[i] = newrow;
            proof {
                assert forall|k: int| 0 <= k < i + 1 implies (#[trigger] self@[k]).len() == old(
                    self,
                )@[k].len() by {
                    if k == i {
                        assert(self@[k] == newrow@);
                    } else {
                        assert(self@[k] == pre[k]);
                        assert(pre[k].len() == old(self)@[k].len());
                    }
                }
                assert forall|k: int, l: int|
                    0 <= k < i + 1 && 0 <= l < old(self)@[k].len() implies self.at(k, l) == (
                #[trigger] old(self).at(k, l)).sp_mul(a) by {
                    if k == i {
                        assert(self@[k] == newrow@);
                    }
                }
                assert forall|k: int, l: int|
                    0 <= k < i + 1 && 0 <= l < self@[k].len() implies (#[trigger] self.at(
                    k,
                    l,
                )).wf() by {
                    if k == i {
                        assert(self@[k] == newrow@);
                    } else {
                        assert(self@[k] == pre[k]);
                        assert(self.at(k, l) == old(self).at(k, l).sp_mul(a));
                    }
                }
            }
            i = i + 1;
        }
    }
}

} // verus!
