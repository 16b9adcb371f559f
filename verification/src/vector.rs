use vstd::prelude::*;

use crate::error::DimMismatch;
use crate::scalar::Normed;
use crate::scalar::Scalar;

verus! {

/// A fixed-length ordered sequence of scalars. Construction accepts any
/// length, zero included; every binary operation demands equal lengths on
/// both operands and fails before mutating anything when they differ.
#[derive(Clone, Debug)]
pub struct Vector<T> {
    pub data: Vec<T>,
}

impl<T> View for Vector<T> {
    type V = Seq<T>;

    open spec fn view(&self) -> Seq<T> {
        self.data@
    }
}

impl<T> From<Vec<T>> for Vector<T> {
    /// Wraps a raw sequence of elements; ownership transfers, nothing is
    /// validated.
    fn from(data: Vec<T>) -> (r: Vector<T>)
        ensures
            r@ == data@,
    {
        Vector { data }
    }
}

impl<T> vstd::std_specs::convert::FromSpecImpl<Vec<T>> for Vector<T> {
    open spec fn obeys_from_spec() -> bool {
        true
    }

    open spec fn from_spec(data: Vec<T>) -> Vector<T> {
        Vector { data }
    }
}

impl<T> Vector<T> {
    /// Wraps a raw sequence of elements; ownership transfers, nothing is
    /// validated.
    pub fn new(data: Vec<T>) -> (r: Vector<T>)
        ensures
            r@ == data@,
    {
        Vector { data }
    }

    /// The dimension of the vector.
    pub fn len(&self) -> (r: usize)
        ensures
            r == self@.len(),
    {
        self.data.len()
    }
}

/// The running value of the dot product over the first `n` coordinate pairs,
/// accumulated left to right from the additive identity.
pub open spec fn dot_partial<T: Scalar>(a: Seq<T>, b: Seq<T>, n: int) -> T
    decreases n,
{
    if n <= 0 {
        T::sp_zero()
    } else {
        dot_partial(a, b, n - 1).sp_add(a[n - 1].sp_mul(b[n - 1]))
    }
}

/// Whether every product and every running sum of the dot product over the
/// first `n` coordinate pairs fits the scalar representation.
pub open spec fn dot_ok<T: Scalar>(a: Seq<T>, b: Seq<T>, n: int) -> bool
    decreases n,
{
    n > 0 ==> {
        &&& dot_ok(a, b, n - 1)
        &&& a[n - 1].mul_ok(b[n - 1])
        &&& dot_partial(a, b, n - 1).add_ok(a[n - 1].sp_mul(b[n - 1]))
    }
}

proof fn lemma_dot_ok_prefix<T: Scalar>(a: Seq<T>, b: Seq<T>, n: int, m: int)
    requires
        dot_ok(a, b, n),
        0 <= m <= n,
    ensures
        dot_ok(a, b, m),
    decreases n,
{
    if m < n {
        lemma_dot_ok_prefix(a, b, n - 1, m);
    }
}

impl<T: Scalar> Vector<T> {
    /// Every element satisfies the scalar representation invariant.
    pub open spec fn wf(self) -> bool {
        forall|i: int| 0 <= i < self.data@.len() ==> (#[trigger] self.data@[i]).wf()
    }

    /// Elementwise addition in place. Fails, touching nothing, when the
    /// dimensions differ.
    pub fn add(&mut self, v: &Vector<T>) -> (r: Result<(), DimMismatch>)
        requires
            old(self).wf(),
            v.wf(),
            old(self)@.len() == v@.len() ==> forall|i: int|
                0 <= i < v@.len() ==> (#[trigger] old(self)@[i]).add_ok(v@[i]),
        ensures
            r is Ok <==> old(self)@.len() == v@.len(),
            r is Ok ==> final(self)@.len() == old(self)@.len() && forall|i: int|
                0 <= i < final(self)@.len() ==> final(self)@[i] == (#[trigger] old(self)@[i]).sp_add(v@[i]),
            r is Err ==> final(self)@ == old(self)@,
            final(self).wf(),
    {
        if self.data.len() != v.data.len() {
            return Err(DimMismatch);
        }
        let n = self.data.len();
        let mut i: usize = 0;
        while i < n
            invariant
                i <= n,
                n == old(self)@.len(),
                n == v@.len(),
                self@.len() == n,
                v.wf(),
                forall|k: int| 0 <= k < n ==> (#[trigger] old(self)@[k]).wf(),
                forall|k: int| 0 <= k < n ==> (#[trigger] old(self)@[k]).add_ok(v@[k]),
                forall|k: int| i <= k < n ==> self@[k] == old(self)@[k],
                forall|k: int|
                    0 <= k < i ==> self@[k] == (#[trigger] old(self)@[k]).sp_add(v@[k]),
                forall|k: int| 0 <= k < i ==> (#[trigger] self@[k]).wf(),
            decreases n - i,
        {
            let s = self.data[i].plus(v.data[i]);
            self.data[i] = s;
            i = i + 1;
        }
        Ok(())
    }

    /// Elementwise subtraction in place. Fails, touching nothing, when the
    /// dimensions differ.
    pub fn sub(&mut self, v: &Vector<T>) -> (r: Result<(), DimMismatch>)
        requires
            old(self).wf(),
            v.wf(),
            old(self)@.len() == v@.len() ==> forall|i: int|
                0 <= i < v@.len() ==> (#[trigger] old(self)@[i]).sub_ok(v@[i]),
        ensures
            r is Ok <==> old(self)@.len() == v@.len(),
            r is Ok ==> final(self)@.len() == old(self)@.len() && forall|i: int|
                0 <= i < final(self)@.len() ==> final(self)@[i] == (#[trigger] old(self)@[i]).sp_sub(v@[i]),
            r is Err ==> final(self)@ == old(self)@,
            final(self).wf(),
    {
        if self.data.len() != v.data.len() {
            return Err(DimMismatch);
        }
        let n = self.data.len();
        let mut i: usize = 0;
        while i < n
            invariant
                i <= n,
                n == old(self)@.len(),
                n == v@.len(),
                self@.len() == n,
                v.wf(),
                forall|k: int| 0 <= k < n ==> (#[trigger] old(self)@[k]).wf(),
                forall|k: int| 0 <= k < n ==> (#[trigger] old(self)@[k]).sub_ok(v@[k]),
                forall|k: int| i <= k < n ==> self@[k] == old(self)@[k],
                forall|k: int|
                    0 <= k < i ==> self@[k] == (#[trigger] old(self)@[k]).sp_sub(v@[k]),
                forall|k: int| 0 <= k < i ==> (#[trigger] self@[k]).wf(),
            decreases n - i,
        {
            let s = self.data[i].minus(v.data[i]);
            self.data[i] = s;
            i = i + 1;
        }
        Ok(())
    }

    /// Multiplies every element by the factor, in place.
    pub fn scl(&mut self, a: T)
        requires
            old(self).wf(),
            a.wf(),
            forall|i: int|
                0 <= i < old(self)@.len() ==> (#[trigger] old(self)@[i]).mul_ok(a),
        ensures
            final(self)@.len() == old(self)@.len(),
            forall|i: int|
                0 <= i < final(self)@.len() ==> final(self)@[i] == (#[trigger] old(self)@[i]).sp_mul(a),
            final(self).wf(),
    {
        let n = self.data.len();
        let mut i: usize = 0;
        while i < n
            invariant
                i <= n,
                n == old(self)@.len(),
                self@.len() == n,
                a.wf(),
                forall|k: int| 0 <= k < n ==> (#[trigger] old(self)@[k]).wf(),
                forall|k: int| 0 <= k < n ==> (#[trigger] old(self)@[k]).mul_ok(a),
                forall|k: int| i <= k < n ==> self@[k] == old(self)@[k],
                forall|k: int|
                    0 <= k < i ==> self@[k] == (#[trigger] old(self)@[k]).sp_mul(a),
                forall|k: int| 0 <= k < i ==> (#[trigger] self@[k]).wf(),
            decreases n - i,
        {
            let s = self.data[i].times(a);
            self.data[i] = s;
            i = i + 1;
        }
    }

    /// The dot product: the sum of the coordinatewise products, accumulated
    /// left to right from zero. A zero-length vector yields the additive
    /// identity. Fails when the dimensions differ.
    pub fn dot(&self, v: Vector<T>) -> (r: Result<T, DimMismatch>)
        requires
            self.wf(),
            v.wf(),
            self@.len() == v@.len() ==> dot_ok(self@, v@, self@.len() as int),
        ensures
            self@.len() == v@.len() ==> r == Ok::<T, DimMismatch>(
                dot_partial(self@, v@, self@.len() as int),
            ),
            self@.len() != v@.len() ==> r == Err::<T, DimMismatch>(DimMismatch),
    {
        if self.data.len() != v.data.len() {
            return Err(DimMismatch);
        }
        let n = self.data.len();
        let mut acc = T::zero();
        let mut i: usize = 0;
        while i < n
            invariant
                i <= n,
                n == self@.len(),
                n == v@.len(),
                self.wf(),
                v.wf(),
                dot_ok(self@, v@, n as int),
                acc == dot_partial(self@, v@, i as int),
                acc.wf(),
            decreases n - i,
        {
            proof {
                lemma_dot_ok_prefix(self@, v@, n as int, i + 1);
            }
            let p = self.data[i].times(v.data[i]);
            acc = acc.plus(p);
            i = i + 1;
        }
        Ok(acc)
    }
}

/// The running value of the sum of absolute values over the first `n`
/// elements, accumulated left to right from zero.
pub open spec fn abs_sum<T: Normed>(s: Seq<T>, n: int) -> T
    decreases n,
{
    if n <= 0 {
        T::sp_zero()
    } else {
        abs_sum(s, n - 1).sp_add(s[n - 1].sp_abs())
    }
}

/// Whether every absolute value and every running sum of `abs_sum` over the
/// first `n` elements fits the scalar representation.
pub open spec fn abs_sum_ok<T: Normed>(s: Seq<T>, n: int) -> bool
    decreases n,
{
    n > 0 ==> {
        &&& abs_sum_ok(s, n - 1)
        &&& s[n - 1].abs_ok()
        &&& abs_sum(s, n - 1).add_ok(s[n - 1].sp_abs())
    }
}

proof fn lemma_abs_sum_ok_prefix<T: Normed>(s: Seq<T>, n: int, m: int)
    requires
        abs_sum_ok(s, n),
        0 <= m <= n,
    ensures
        abs_sum_ok(s, m),
    decreases n,
{
    if m < n {
        lemma_abs_sum_ok_prefix(s, n - 1, m);
    }
}

/// The running value of the sum of squares over the first `n` elements,
/// accumulated left to right from zero.
pub open spec fn sq_sum<T: Scalar>(s: Seq<T>, n: int) -> T
    decreases n,
{
    if n <= 0 {
        T::sp_zero()
    } else {
        sq_sum(s, n - 1).sp_add(s[n - 1].sp_mul(s[n - 1]))
    }
}

/// Whether every square and every running sum of `sq_sum` over the first `n`
/// elements fits the scalar representation.
pub open spec fn sq_sum_ok<T: Scalar>(s: Seq<T>, n: int) -> bool
    decreases n,
{
    n > 0 ==> {
        &&& sq_sum_ok(s, n - 1)
        &&& s[n - 1].mul_ok(s[n - 1])
        &&& sq_sum(s, n - 1).add_ok(s[n - 1].sp_mul(s[n - 1]))
    }
}

proof fn lemma_sq_sum_ok_prefix<T: Scalar>(s: Seq<T>, n: int, m: int)
    requires
        sq_sum_ok(s, n),
        0 <= m <= n,
    ensures
        sq_sum_ok(s, m),
    decreases n,
{
    if m < n {
        lemma_sq_sum_ok_prefix(s, n - 1, m);
    }
}

impl<T: Scalar> Vector<T> {
    /// The square of the Euclidean norm: the sum of the squares of the
    /// elements, exactly. The norm itself is the square root of this value;
    /// taking the root is left to callers with a floating-point type at hand.
    pub fn norm_squared(&self) -> (r: T)
        requires
            self.wf(),
            sq_sum_ok(self@, self@.len() as int),
        ensures
            r == sq_sum(self@, self@.len() as int),
    {
        let n = self.data.len();
        let mut acc = T::zero();
        let mut i: usize = 0;
        while i < n
            invariant
                i <= n,
                n == self@.len(),
                self.wf(),
                sq_sum_ok(self@, n as int),
                acc == sq_sum(self@, i as int),
                acc.wf(),
            decreases n - i,
        {
            proof {
                lemma_sq_sum_ok_prefix(self@, n as int, i + 1);
            }
            let p = self.data[i].times(self.data[i]);
            acc = acc.plus(p);
            i = i + 1;
        }
        acc
    }
}

impl<T: Normed> Vector<T> {
    /// The taxicab norm: the sum of the absolute values of the elements,
    /// exactly. An empty vector yields zero.
    pub fn norm_1(&self) -> (r: T)
        requires
            self.wf(),
            abs_sum_ok(self@, self@.len() as int),
        ensures
            r == abs_sum(self@, self@.len() as int),
    {
        let n = self.data.len();
        let mut acc = T::zero();
        let mut i: usize = 0;
        while i < n
            invariant
                i <= n,
                n == self@.len(),
                self.wf(),
                abs_sum_ok(self@, n as int),
                acc == abs_sum(self@, i as int),
                acc.wf(),
            decreases n - i,
        {
            proof {
                lemma_abs_sum_ok_prefix(self@, n as int, i + 1);
            }
            let p = self.data[i].abs_v();
            acc = acc.plus(p);
            i = i + 1;
        }
        acc
    }

    /// The maximum norm: the greatest absolute value of any element. There is
    /// no limiting value to return for an empty vector, so one element is
    /// required.
    pub fn norm_inf(&self) -> (r: T)
        requires
            self.wf(),
            self@.len() > 0,
            forall|i: int| 0 <= i < self@.len() ==> (#[trigger] self@[i]).abs_ok(),
        ensures
            exists|i: int| 0 <= i < self@.len() && r == (#[trigger] self@[i]).sp_abs(),
            forall|i: int| 0 <= i < self@.len() ==> (#[trigger] self@[i]).sp_abs().sp_le(r),
    {
        let n = self.data.len();
        let mut m = self.data[0].abs_v();
        let mut i: usize = 1;
        proof {
            T::lemma_le_total(m, m);
        }
        while i < n
            invariant
                1 <= i <= n,
                n == self@.len(),
                self.wf(),
                forall|k: int| 0 <= k < n ==> (#[trigger] self@[k]).abs_ok(),
                m.wf(),
                exists|k: int| 0 <= k < i && m == (#[trigger] self@[k]).sp_abs(),
                forall|k: int| 0 <= k < i ==> (#[trigger] self@[k]).sp_abs().sp_le(m),
            decreases n - i,
        {
            let a = self.data[i].abs_v();
            if m.le_v(a) {
                proof {
                    assert forall|k: int| 0 <= k < i + 1 implies (#[trigger] self@[k])
                        .sp_abs()
                        .sp_le(a) by {
                        if k < i {
                            T::lemma_abs_wf(self@[k]);
                            T::lemma_le_trans(self@[k].sp_abs(), m, a);
                        } else {
                            T::lemma_le_total(a, a);
                        }
                    }
                }
                m = a;
            } else {
                proof {
                    T::lemma_le_total(m, self@[i as int].sp_abs());
                }
            }
            i = i + 1;
        }
        m
    }
}

/// Adding a vector and then subtracting it again restores every coordinate of
/// the original, whenever both elementwise steps fit the scalar
/// representation: what `add` produces, `sub` takes back.
pub proof fn lemma_add_then_sub<T: Scalar>(a: Vector<T>, b: Vector<T>)
    requires
        a.wf(),
        b.wf(),
        a@.len() == b@.len(),
        forall|i: int| 0 <= i < a@.len() ==> (#[trigger] a@[i]).add_ok(b@[i]),
        forall|i: int| 0 <= i < a@.len() ==> (#[trigger] a@[i]).sp_add(b@[i]).sub_ok(b@[i]),
    ensures
        forall|i: int|
            0 <= i < a@.len() ==> (#[trigger] a@[i]).sp_add(b@[i]).sp_sub(b@[i]).sp_eqv(a@[i]),
{
    assert forall|i: int|
        0 <= i < a@.len() implies (#[trigger] a@[i]).sp_add(b@[i]).sp_sub(b@[i]).sp_eqv(
        a@[i],
    ) by {
        T::lemma_add_sub(a@[i], b@[i]);
    }
}

/// Scaling by one is always permitted and leaves every coordinate unchanged.
pub proof fn lemma_scl_one<T: Scalar>(a: Vector<T>)
    requires
        a.wf(),
    ensures
        forall|i: int| 0 <= i < a@.len() ==> (#[trigger] a@[i]).mul_ok(T::sp_one()),
        forall|i: int| 0 <= i < a@.len() ==> (#[trigger] a@[i]).sp_mul(T::sp_one()) == a@[i],
{
    assert forall|i: int|
        0 <= i < a@.len() implies (#[trigger] a@[i]).mul_ok(T::sp_one()) && a@[i].sp_mul(
        T::sp_one(),
    ) == a@[i] by {
        T::lemma_mul_one(a@[i]);
    }
}

/// Scaling by zero is always permitted and yields the zero vector: every
/// coordinate of the result denotes zero.
pub proof fn lemma_scl_zero<T: Scalar>(a: Vector<T>)
    requires
        a.wf(),
    ensures
        forall|i: int| 0 <= i < a@.len() ==> (#[trigger] a@[i]).mul_ok(T::sp_zero()),
        forall|i: int|
            0 <= i < a@.len() ==> (#[trigger] a@[i]).sp_mul(T::sp_zero()).sp_eqv(T::sp_zero()),
{
    assert forall|i: int|
        0 <= i < a@.len() implies (#[trigger] a@[i]).mul_ok(T::sp_zero()) && a@[i].sp_mul(
        T::sp_zero(),
    ).sp_eqv(T::sp_zero()) by {
        T::lemma_mul_zero(a@[i]);
    }
}

proof fn lemma_dot_comm_rec<T: Scalar>(a: Seq<T>, b: Seq<T>, n: int)
    requires
        forall|i: int| 0 <= i < n ==> (#[trigger] a[i]).wf(),
        forall|i: int| 0 <= i < n ==> (#[trigger] b[i]).wf(),
        n <= a.len(),
        n <= b.len(),
        dot_ok(a, b, n),
    ensures
        dot_ok(b, a, n),
        dot_partial(a, b, n) == dot_partial(b, a, n),
    decreases n,
{
    if n > 0 {
        lemma_dot_comm_rec(a, b, n - 1);
        T::lemma_mul_comm(a[n - 1], b[n - 1]);
    }
}

/// The dot product is commutative: whenever `dot` may be asked for one order
/// of its operands, the other order is permitted too and yields the same
/// value.
pub proof fn lemma_dot_comm<T: Scalar>(a: Vector<T>, b: Vector<T>)
    requires
        a.wf(),
        b.wf(),
        a@.len() == b@.len(),
        dot_ok(a@, b@, a@.len() as int),
    ensures
        dot_ok(b@, a@, b@.len() as int),
        dot_partial(a@, b@, a@.len() as int) == dot_partial(b@, a@, b@.len() as int),
{
    lemma_dot_comm_rec(a@, b@, a@.len() as int);
}

} // verus!
