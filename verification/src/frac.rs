use vstd::prelude::*;

use crate::scalar::Normed;
use crate::scalar::Scalar;

verus! {

/// An exact fraction: a numerator over a positive denominator. It serves as
/// the scalar type wherever a computation needs values between the integers —
/// an interpolation parameter, a fractional coefficient — while staying exact.
/// Arithmetic does not reduce results, so one value may have many
/// representations; `sp_eqv` (and the runtime `eqv`) compare by
/// cross-multiplication, and the guards (`add_ok`, ...) say when an
/// operation's unreduced result still fits the machine integers.
#[derive(Clone, Copy, Debug, PartialEq, Eq, Structural)]
pub struct Frac {
    pub num: i64,
    pub den: i64,
}

proof fn lemma_i64_prod_in_i128(a: int, b: int)
    by (nonlinear_arith)
    requires
        i64::MIN <= a <= i64::MAX,
        i64::MIN <= b <= i64::MAX,
    ensures
        i128::MIN <= a * b <= i128::MAX,
{
}

impl Frac {
    /// A fraction from a numerator and a positive denominator.
    pub fn new(num: i64, den: i64) -> (r: Frac)
        requires
            den > 0,
        ensures
            r == (Frac { num, den }),
            r.wf(),
    {
        Frac { num, den }
    }

    /// A whole number as a fraction over one.
    pub fn from_int(n: i64) -> (r: Frac)
        ensures
            r == (Frac { num: n, den: 1 }),
            r.wf(),
    {
        Frac { num: n, den: 1 }
    }

    /// Whether the two fractions denote the same value, by
    /// cross-multiplication in a wider integer type.
    pub fn eqv(self, o: Frac) -> (r: bool)
        ensures
            r == self.sp_eqv(o),
    {
        proof {
            lemma_i64_prod_in_i128(self.num as int, o.den as int);
            lemma_i64_prod_in_i128(o.num as int, self.den as int);
        }
        (self.num as i128) * (o.den as i128) == (o.num as i128) * (self.den as i128)
    }
}

impl Scalar for Frac {
    open spec fn wf(self) -> bool {
        self.den > 0
    }

    open spec fn sp_eqv(self, o: Frac) -> bool {
        self.num * o.den == o.num * self.den
    }

    open spec fn sp_add(self, o: Frac) -> Frac {
        Frac {
            num: (self.num * o.den + o.num * self.den) as i64,
            den: (self.den * o.den) as i64,
        }
    }

    open spec fn sp_sub(self, o: Frac) -> Frac {
        Frac {
            num: (self.num * o.den - o.num * self.den) as i64,
            den: (self.den * o.den) as i64,
        }
    }

    open spec fn sp_mul(self, o: Frac) -> Frac {
        Frac { num: (self.num * o.num) as i64, den: (self.den * o.den) as i64 }
    }

    open spec fn sp_zero() -> Frac {
        Frac { num: 0, den: 1 }
    }

    open spec fn sp_one() -> Frac {
        Frac { num: 1, den: 1 }
    }

    open spec fn add_ok(self, o: Frac) -> bool {
        &&& i64::MIN <= self.num * o.den <= i64::MAX
        &&& i64::MIN <= o.num * self.den <= i64::MAX
        &&& i64::MIN <= self.num * o.den + o.num * self.den <= i64::MAX
        &&& self.den * o.den <= i64::MAX
    }

    open spec fn sub_ok(self, o: Frac) -> bool {
        &&& i64::MIN <= self.num * o.den <= i64::MAX
        &&& i64::MIN <= o.num * self.den <= i64::MAX
        &&& i64::MIN <= self.num * o.den - o.num * self.den <= i64::MAX
        &&& self.den * o.den <= i64::MAX
    }

    open spec fn mul_ok(self, o: Frac) -> bool {
        &&& i64::MIN <= self.num * o.num <= i64::MAX
        &&& self.den * o.den <= i64::MAX
    }

    fn plus(self, o: Frac) -> (r: Frac) {
        proof {
            assert(self.den * o.den >= 1) by (nonlinear_arith)
                requires
                    self.den >= 1,
                    o.den >= 1,
            ;
        }
        Frac { num: self.num * o.den + o.num * self.den, den: self.den * o.den }
    }

    fn minus(self, o: Frac) -> (r: Frac) {
        proof {
            assert(self.den * o.den >= 1) by (nonlinear_arith)
                requires
                    self.den >= 1,
                    o.den >= 1,
            ;
        }
        Frac { num: self.num * o.den - o.num * self.den, den: self.den * o.den }
    }

    fn times(self, o: Frac) -> (r: Frac) {
        proof {
            assert(self.den * o.den >= 1) by (nonlinear_arith)
                requires
                    self.den >= 1,
                    o.den >= 1,
            ;
        }
        Frac { num: self.num * o.num, den: self.den * o.den }
    }

    fn zero() -> (r: Frac) {
        Frac { num: 0, den: 1 }
    }

    fn one() -> (r: Frac) {
        Frac { num: 1, den: 1 }
    }

    proof fn lemma_add_sub(a: Frac, b: Frac) {
        let n1 = a.num as int;
        let d1 = a.den as int;
        let n2 = b.num as int;
        let d2 = b.den as int;
        assert(d1 * d2 >= 1) by (nonlinear_arith)
            requires
                d1 >= 1,
                d2 >= 1,
        ;
        let s = a.sp_add(b);
        let sn = s.num as int;
        let sd = s.den as int;
        assert(sn == n1 * d2 + n2 * d1);
        assert(sd == d1 * d2);
        assert(sd * d2 >= 1) by (nonlinear_arith)
            requires
                sd >= 1,
                d2 >= 1,
        ;
        let d = s.sp_sub(b);
        assert(d.num as int == sn * d2 - n2 * sd);
        assert(d.den as int == sd * d2);
        assert((sn * d2 - n2 * sd) * d1 == n1 * (sd * d2)) by (nonlinear_arith)
            requires
                sn == n1 * d2 + n2 * d1,
                sd == d1 * d2,
        ;
    }

    proof fn lemma_mul_one(a: Frac) {
        assert(a.num * 1 == a.num);
        assert(a.den * 1 == a.den);
    }

    proof fn lemma_mul_zero(a: Frac) {
        assert(a.num * 0 == 0);
        assert(a.den * 1 == a.den);
    }

    proof fn lemma_mul_comm(a: Frac, b: Frac) {
        assert(a.num * b.num == b.num * a.num) by (nonlinear_arith);
        assert(a.den * b.den == b.den * a.den) by (nonlinear_arith);
    }
}

impl Normed for Frac {
    open spec fn sp_abs(self) -> Frac {
        Frac { num: if self.num < 0 { (-self.num) as i64 } else { self.num }, den: self.den }
    }

    open spec fn abs_ok(self) -> bool {
        self.num > i64::MIN
    }

    open spec fn sp_le(self, o: Frac) -> bool {
        self.num * o.den <= o.num * self.den
    }

    fn abs_v(self) -> (r: Frac) {
        if self.num < 0 {
            Frac { num: -self.num, den: self.den }
        } else {
            self
        }
    }

    fn le_v(self, o: Frac) -> (r: bool) {
        proof {
            lemma_i64_prod_in_i128(self.num as int, o.den as int);
            lemma_i64_prod_in_i128(o.num as int, self.den as int);
        }
        (self.num as i128) * (o.den as i128) <= (o.num as i128) * (self.den as i128)
    }

    proof fn lemma_abs_wf(a: Frac) {
    }

    proof fn lemma_le_total(a: Frac, b: Frac) {
    }

    proof fn lemma_le_trans(a: Frac, b: Frac, c: Frac) {
        let n1 = a.num as int;
        let d1 = a.den as int;
        let n2 = b.num as int;
        let d2 = b.den as int;
        let n3 = c.num as int;
        let d3 = c.den as int;
        assert(n1 * d3 <= n3 * d1) by (nonlinear_arith)
            requires
                d1 >= 1,
                d2 >= 1,
                d3 >= 1,
                n1 * d2 <= n2 * d1,
                n2 * d3 <= n3 * d2,
        ;
    }
}

} // verus!
