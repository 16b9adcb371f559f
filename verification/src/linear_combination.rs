use vstd::prelude::*;

use crate::error::DimMismatch;
use crate::scalar::Scalar;
use crate::vector::Vector;

verus! {

/// The dimension of a linear combination's result: that of the first vector,
/// or zero when there are no vectors at all.
pub open spec fn lc_dim<T>(u: Seq<Vector<T>>) -> int {
    if u.len() == 0 {
        0
    } else {
        u[0]@.len() as int
    }
}

/// Whether all the vectors share the dimension of the first.
pub open spec fn same_dims<T>(u: Seq<Vector<T>>) -> bool {
    forall|k: int| 0 <= k < u.len() ==> (#[trigger] u[k])@.len() == u[0]@.len()
}

/// The running value of coordinate `i` of the linear combination after the
/// first `k` weighted vectors, accumulated left to right from zero.
pub open spec fn lc_cell<T: Scalar>(u: Seq<Vector<T>>, coefs: Seq<T>, i: int, k: int) -> T
    decreases k,
{
    if k <= 0 {
        T::sp_zero()
    } else {
        lc_cell(u, coefs, i, k - 1).sp_add(u[k - 1]@[i].sp_mul(coefs[k - 1]))
    }
}

/// Whether every product and every running sum of coordinate `i` of the
/// linear combination fits the scalar representation through the first `k`
/// weighted vectors.
pub open spec fn lc_cell_ok<T: Scalar>(u: Seq<Vector<T>>, coefs: Seq<T>, i: int, k: int) -> bool
    decreases k,
{
    k > 0 ==> {
        &&& lc_cell_ok(u, coefs, i, k - 1)
        &&& u[k - 1]@[i].mul_ok(coefs[k - 1])
        &&& lc_cell(u, coefs, i, k - 1).add_ok(u[k - 1]@[i].sp_mul(coefs[k - 1]))
    }
}

proof fn lemma_lc_cell_ok_prefix<T: Scalar>(u: Seq<Vector<T>>, coefs: Seq<T>, i: int, k: int, m: int)
    requires
        lc_cell_ok(u, coefs, i, k),
        0 <= m <= k,
    ensures
        lc_cell_ok(u, coefs, i, m),
    decreases k,
{
    if m < k {
        lemma_lc_cell_ok_prefix(u, coefs, i, k - 1, m);
    }
}

/// The weighted sum of a family of vectors: coordinate `i` of the result is
/// the sum over `k` of `u[k][i] * coefs[k]`, accumulated left to right from
/// the zero vector. Fails when the number of coefficients differs from the
/// number of vectors, or when the vectors do not all share one dimension; an
/// empty family yields the empty vector. Nothing is mutated.
pub fn linear_combination<T: Scalar>(u: &Vec<Vector<T>>, coefs: &Vec<T>) -> (r: Result<
    Vector<T>,
    DimMismatch,
>)
    requires
        forall|k: int| 0 <= k < u@.len() ==> (#[trigger] u@[k]).wf(),
        forall|k: int| 0 <= k < coefs@.len() ==> (#[trigger] coefs@[k]).wf(),
        (u@.len() == coefs@.len() && same_dims(u@)) ==> forall|i: int|
            0 <= i < lc_dim(u@) ==> lc_cell_ok(u@, coefs@, i, u@.len() as int),
    ensures
        r is Ok <==> (u@.len() == coefs@.len() && same_dims(u@)),
        r matches Ok(w) ==> {
            &&& w@.len() == lc_dim(u@)
            &&& forall|i: int|
                0 <= i < lc_dim(u@) ==> w@[i] == lc_cell(u@, coefs@, i, u@.len() as int)
            &&& w.wf()
        },
        !(u@.len() == coefs@.len() && same_dims(u@)) ==> r == Err::<Vector<T>, DimMismatch>(
            DimMismatch,
        ),
{
    if u.len() != coefs.len() {
        return Err(DimMismatch);
    }
    let m = u.len();
    let mut k: usize = 0;
    while k < m
        invariant
            k <= m,
            m == u@.len(),
            forall|l: int| 0 <= l < k ==> (#[trigger] u@[l])@.len() == u@[0]@.len(),
        decreases m - k,
    {
        if u[k].data.len() != u[0].data.len() {
            return Err(DimMismatch);
        }
        k = k + 1;
    }
    let dim: usize = if m == 0 {
        0
    } else {
        u[0].data.len()
    };
    let mut out: Vec<T> = Vec::new();
    let mut i: usize = 0;
    while i < dim
        invariant
            i <= dim,
            dim == lc_dim(u@),
            out@.len() == i,
            forall|l: int| 0 <= l < i ==> out@[l] == lc_cell(u@, coefs@, l, 0),
            forall|l: int| 0 <= l < i ==> (#[trigger] out@[l]).wf(),
        decreases dim - i,
    {
        let z = T::zero();
        out.push(z);
        i = i + 1;
    }
    let mut k: usize = 0;
    while k < m
        invariant
            k <= m,
            m == u@.len(),
            m == coefs@.len(),
            dim == lc_dim(u@),
            same_dims(u@),
            forall|l: int| 0 <= l < m ==> (#[trigger] u@[l]).wf(),
            forall|l: int| 0 <= l < m ==> (#[trigger] coefs@[l]).wf(),
            forall|l: int| 0 <= l < dim ==> lc_cell_ok(u@, coefs@, l, m as int),
            out@.len() == dim,
            forall|l: int| 0 <= l < dim ==> out@[l] == lc_cell(u@, coefs@, l, k as int),
            forall|l: int| 0 <= l < dim ==> (#[trigger] out@[l]).wf(),
        decreases m - k,
    {
        let mut i: usize = 0;
        while i < dim
            invariant
                i <= dim,
                k < m,
                m == u@.len(),
                m == coefs@.len(),
                dim == lc_dim(u@),
                same_dims(u@),
                forall|l: int| 0 <= l < m ==> (#[trigger] u@[l]).wf(),
                forall|l: int| 0 <= l < m ==> (#[trigger] coefs@[l]).wf(),
                forall|l: int| 0 <= l < dim ==> lc_cell_ok(u@, coefs@, l, m as int),
                out@.len() == dim,
                forall|l: int| i <= l < dim ==> out@[l] == lc_cell(u@, coefs@, l, k as int),
                forall|l: int|
                    0 <= l < i ==> out@[l] == lc_cell(u@, coefs@, l, k as int + 1),
                forall|l: int| 0 <= l < dim ==> (#[trigger] out@[l]).wf(),
            decreases dim - i,
        {
            proof {
                lemma_lc_cell_ok_prefix(u@, coefs@, i as int, m as int, k as int + 1);
                assert(u@[k as int]@.len() == u@[0]@.len());
                assert(u@[k as int]@[i as int].wf());
            }
            let p = u[k].data[i].times(coefs[k]);
            let s = out[i].plus(p);
            out[i] = s;
            i = i + 1;
        }
        k = k + 1;
    }
    Ok(Vector { data: out })
}

} // verus!
