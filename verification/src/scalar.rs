use vstd::prelude::*;

verus! {

/// The capability set a type must offer to serve as a scalar: addition,
/// subtraction and multiplication closed over the type, a zero and a one,
/// under value (`Copy`) semantics.
///
/// Each operation has a specification-level meaning (`sp_add`, `sp_sub`,
/// `sp_mul`) together with a guard (`add_ok`, `sub_ok`, `mul_ok`) saying when
/// the result fits the representation; the executable methods are verified
/// against those meanings. `sp_eqv` says when two representations denote the
/// same scalar (for a plain integer it is equality; a fraction type may have
/// several representations of one value). The proof obligations at the end
/// are the algebraic laws every implementation must establish, and the laws
/// the container operations are proved from.
pub trait Scalar: Sized + Copy {
    /// The representation invariant of a scalar value.
    spec fn wf(self) -> bool;

    /// Whether two representations denote the same scalar value.
    spec fn sp_eqv(self, o: Self) -> bool;

    /// The sum of two scalars.
    spec fn sp_add(self, o: Self) -> Self;

    /// The difference of two scalars.
    spec fn sp_sub(self, o: Self) -> Self;

    /// The product of two scalars.
    spec fn sp_mul(self, o: Self) -> Self;

    /// The additive identity.
    spec fn sp_zero() -> Self;

    /// The multiplicative identity.
    spec fn sp_one() -> Self;

    /// Whether the sum of the two values fits the representation.
    spec fn add_ok(self, o: Self) -> bool;

    /// Whether the difference of the two values fits the representation.
    spec fn sub_ok(self, o: Self) -> bool;

    /// Whether the product of the two values fits the representation.
    spec fn mul_ok(self, o: Self) -> bool;

    fn plus(self, o: Self) -> (r: Self)
        requires
            self.wf(),
            o.wf(),
            self.add_ok(o),
        ensures
            r == self.sp_add(o),
            r.wf(),
    ;

    fn minus(self, o: Self) -> (r: Self)
        requires
            self.wf(),
            o.wf(),
            self.sub_ok(o),
        ensures
            r == self.sp_sub(o),
            r.wf(),
    ;

    fn times(self, o: Self) -> (r: Self)
        requires
            self.wf(),
            o.wf(),
            self.mul_ok(o),
        ensures
            r == self.sp_mul(o),
            r.wf(),
    ;

    fn zero() -> (r: Self)
        ensures
            r == Self::sp_zero(),
            r.wf(),
    ;

    fn one() -> (r: Self)
        ensures
            r == Self::sp_one(),
            r.wf(),
    ;

    /// Adding a value and then subtracting it again restores the original,
    /// whenever both steps fit the representation.
    proof fn lemma_add_sub(a: Self, b: Self)
        requires
            a.wf(),
            b.wf(),
            a.add_ok(b),
            a.sp_add(b).sub_ok(b),
        ensures
            a.sp_add(b).sp_sub(b).sp_eqv(a),
    ;

    /// One is a right identity of multiplication, and multiplying by it
    /// always fits.
    proof fn lemma_mul_one(a: Self)
        requires
            a.wf(),
        ensures
            a.mul_ok(Self::sp_one()),
            a.sp_mul(Self::sp_one()) == a,
    ;

    /// Multiplying by zero yields zero, and always fits.
    proof fn lemma_mul_zero(a: Self)
        requires
            a.wf(),
        ensures
            a.mul_ok(Self::sp_zero()),
            a.sp_mul(Self::sp_zero()).sp_eqv(Self::sp_zero()),
    ;

    /// Multiplication is commutative, and so is its guard.
    proof fn lemma_mul_comm(a: Self, b: Self)
        requires
            a.wf(),
            b.wf(),
        ensures
            a.mul_ok(b) == b.mul_ok(a),
            a.mul_ok(b) ==> a.sp_mul(b) == b.sp_mul(a),
    ;
}

/// The extra capabilities the norms ask of a scalar beyond ring arithmetic:
/// an absolute value and a total order. This is deliberately a separate,
/// narrower bound than `Scalar`'s laws need, mirroring the fact that a
/// magnitude is not expressible from addition and multiplication alone.
pub trait Normed: Scalar {
    /// The absolute value of a scalar.
    spec fn sp_abs(self) -> Self;

    /// Whether the absolute value fits the representation.
    spec fn abs_ok(self) -> bool;

    /// The order the maximum norm maximises over.
    spec fn sp_le(self, o: Self) -> bool;

    fn abs_v(self) -> (r: Self)
        requires
            self.wf(),
            self.abs_ok(),
        ensures
            r == self.sp_abs(),
            r.wf(),
    ;

    fn le_v(self, o: Self) -> (r: bool)
        requires
            self.wf(),
            o.wf(),
        ensures
            r == self.sp_le(o),
    ;

    /// The absolute value preserves the representation invariant.
    proof fn lemma_abs_wf(a: Self)
        requires
            a.wf(),
            a.abs_ok(),
        ensures
            a.sp_abs().wf(),
    ;

    /// The order is total.
    proof fn lemma_le_total(a: Self, b: Self)
        requires
            a.wf(),
            b.wf(),
        ensures
            a.sp_le(b) || b.sp_le(a),
    ;

    /// The order is transitive.
    proof fn lemma_le_trans(a: Self, b: Self, c: Self)
        requires
            a.wf(),
            b.wf(),
            c.wf(),
            a.sp_le(b),
            b.sp_le(c),
        ensures
            a.sp_le(c),
    ;
}

impl Scalar for i64 {
    open spec fn wf(self) -> bool {
        true
    }

    open spec fn sp_eqv(self, o: i64) -> bool {
        self == o
    }

    open spec fn sp_add(self, o: i64) -> i64 {
        (self + o) as i64
    }

    open spec fn sp_sub(self, o: i64) -> i64 {
        (self - o) as i64
    }

    open spec fn sp_mul(self, o: i64) -> i64 {
        (self * o) as i64
    }

    open spec fn sp_zero() -> i64 {
        0
    }

    open spec fn sp_one() -> i64 {
        1
    }

    open spec fn add_ok(self, o: i64) -> bool {
        i64::MIN <= self + o <= i64::MAX
    }

    open spec fn sub_ok(self, o: i64) -> bool {
        i64::MIN <= self - o <= i64::MAX
    }

    open spec fn mul_ok(self, o: i64) -> bool {
        i64::MIN <= self * o <= i64::MAX
    }

    fn plus(self, o: i64) -> (r: i64) {
        self + o
    }

    fn minus(self, o: i64) -> (r: i64) {
        self - o
    }

    fn times(self, o: i64) -> (r: i64) {
        self * o
    }

    fn zero() -> (r: i64) {
        0
    }

    fn one() -> (r: i64) {
        1
    }

    proof fn lemma_add_sub(a: i64, b: i64) {
    }

    proof fn lemma_mul_one(a: i64) {
    }

    proof fn lemma_mul_zero(a: i64) {
    }

    proof fn lemma_mul_comm(a: i64, b: i64) {
        assert(a * b == b * a) by (nonlinear_arith);
    }
}

impl Normed for i64 {
    open spec fn sp_abs(self) -> i64 {
        if self < 0 {
            (-self) as i64
        } else {
            self
        }
    }

    open spec fn abs_ok(self) -> bool {
        self > i64::MIN
    }

    open spec fn sp_le(self, o: i64) -> bool {
        self <= o
    }

    fn abs_v(self) -> (r: i64) {
        if self < 0 {
            -self
        } else {
            self
        }
    }

    fn le_v(self, o: i64) -> (r: bool) {
        self <= o
    }

    proof fn lemma_abs_wf(a: i64) {
    }

    proof fn lemma_le_total(a: i64, b: i64) {
    }

    proof fn lemma_le_trans(a: i64, b: i64, c: i64) {
    }
}

} // verus!
