//! Arbitrary-precision rational numbers.
//!
//! A `Rat` is a fraction of two `Bignum`s with a positive denominator. It is
//! not kept reduced; equality and order are decided by cross-multiplication,
//! so no precision is ever lost.

use vstd::prelude::*;

use crate::bignum::{big_cmp, big_mul, Bignum};

verus! {

/// An arbitrary-precision rational number `num / den`.
#[derive(Debug)]
pub struct Rat {
    pub num: Bignum,
    pub den: Bignum,
}

impl Rat {
    /// Both parts canonical, and the denominator positive.
    pub open spec fn wf(&self) -> bool {
        &&& self.num.wf()
        &&& self.den.wf()
        &&& self.den.as_int() > 0
    }

    /// The numerator as a mathematical integer.
    pub open spec fn num_int(&self) -> int {
        self.num.as_int()
    }

    /// The denominator as a mathematical integer.
    pub open spec fn den_int(&self) -> int {
        self.den.as_int()
    }

    /// This rational equals the fraction `n / d` (by cross-multiplication).
    pub open spec fn is_frac(&self, n: int, d: int) -> bool {
        self.num_int() * d == n * self.den_int()
    }

    /// The rational denoted by an integer.
    pub fn from_int(i: &Bignum) -> (r: Rat)
        requires
            i.wf(),
        ensures
            r.wf(),
            r.num_int() == i.as_int(),
            r.den_int() == 1,
    {
        Rat { num: i.clone(), den: Bignum::from_u64(1) }
    }

    /// The fraction `n / d`, with the sign moved into the numerator.
    pub fn from_parts(n: &Bignum, d: &Bignum) -> (r: Rat)
        requires
            n.wf(),
            d.wf(),
            d.as_int() != 0,
        ensures
            r.wf(),
            r.is_frac(n.as_int(), d.as_int()),
            d.as_int() > 0 ==> r.num_int() == n.as_int() && r.den_int() == d.as_int(),
            d.as_int() < 0 ==> r.num_int() == -n.as_int() && r.den_int() == -d.as_int(),
    {
        let r = if d.is_positive() {
            Rat { num: n.clone(), den: d.clone() }
        } else {
            Rat { num: n.negated(), den: d.negated() }
        };
        proof {
            assert(r.num_int() * d.as_int() == n.as_int() * r.den_int()) by (nonlinear_arith)
                requires
                    (r.num_int() == n.as_int() && r.den_int() == d.as_int()) || (r.num_int()
                        == -n.as_int() && r.den_int() == -d.as_int()),
            ;
        }
        r
    }

    /// The sum; numerators cross-multiplied, denominators multiplied.
    pub fn add(&self, other: &Rat) -> (r: Rat)
        requires
            self.wf(),
            other.wf(),
        ensures
            r.wf(),
            r.num_int() == self.num_int() * other.den_int() + other.num_int() * self.den_int(),
            r.den_int() == self.den_int() * other.den_int(),
    {
        let n1 = big_mul(&self.num, &other.den);
        let n2 = big_mul(&other.num, &self.den);
        let n = crate::bignum::big_add(&n1, &n2);
        let d = big_mul(&self.den, &other.den);
        proof {
            assert(d.as_int() > 0) by (nonlinear_arith)
                requires
                    d.as_int() == self.den_int() * other.den_int(),
                    self.den_int() > 0,
                    other.den_int() > 0,
            ;
        }
        Rat { num: n, den: d }
    }

    /// The difference, as `self + (-other)`.
    pub fn sub(&self, other: &Rat) -> (r: Rat)
        requires
            self.wf(),
            other.wf(),
        ensures
            r.wf(),
            r.num_int() == self.num_int() * other.den_int() - other.num_int() * self.den_int(),
            r.den_int() == self.den_int() * other.den_int(),
    {
        let neg_other = Rat { num: other.num.negated(), den: other.den.clone() };
        let r = self.add(&neg_other);
        proof {
            assert(neg_other.num_int() * self.den_int() == -(other.num_int() * self.den_int()))
                by (nonlinear_arith)
                requires
                    neg_other.num_int() == -other.num_int(),
            ;
        }
        r
    }

    /// The product.
    pub fn mul(&self, other: &Rat) -> (r: Rat)
        requires
            self.wf(),
            other.wf(),
        ensures
            r.wf(),
            r.num_int() == self.num_int() * other.num_int(),
            r.den_int() == self.den_int() * other.den_int(),
    {
        let n = big_mul(&self.num, &other.num);
        let d = big_mul(&self.den, &other.den);
        proof {
            assert(d.as_int() > 0) by (nonlinear_arith)
                requires
                    d.as_int() == self.den_int() * other.den_int(),
                    self.den_int() > 0,
                    other.den_int() > 0,
            ;
        }
        Rat { num: n, den: d }
    }

    /// The quotient `self / other` for a non-zero divisor.
    pub fn div(&self, other: &Rat) -> (r: Rat)
        requires
            self.wf(),
            other.wf(),
            other.num_int() != 0,
        ensures
            r.wf(),
            r.is_frac(self.num_int() * other.den_int(), self.den_int() * other.num_int()),
    {
        let n = big_mul(&self.num, &other.den);
        let d = big_mul(&self.den, &other.num);
        proof {
            assert(d.as_int() != 0) by (nonlinear_arith)
                requires
                    d.as_int() == self.den_int() * other.num_int(),
                    self.den_int() > 0,
                    other.num_int() != 0,
            ;
        }
        Rat::from_parts(&n, &d)
    }

    /// The additive inverse.
    pub fn negated(&self) -> (r: Rat)
        requires
            self.wf(),
        ensures
            r.wf(),
            r.num_int() == -self.num_int(),
            r.den_int() == self.den_int(),
    {
        Rat { num: self.num.negated(), den: self.den.clone() }
    }

    /// Three-way order against another rational, by cross-multiplication.
    pub fn cmp_rat(&self, other: &Rat) -> (r: i32)
        requires
            self.wf(),
            other.wf(),
        ensures
            r == -1 || r == 0 || r == 1,
            (r == -1) <==> self.num_int() * other.den_int() < other.num_int() * self.den_int(),
            (r == 0) <==> self.num_int() * other.den_int() == other.num_int() * self.den_int(),
    {
        let lhs = big_mul(&self.num, &other.den);
        let rhs = big_mul(&other.num, &self.den);
        big_cmp(&lhs, &rhs)
    }
}

impl Rat {
    /// Decides well-formedness.
    pub fn check_wf(&self) -> (r: bool)
        ensures
            r == self.wf(),
    {
        if self.num.check_wf() && self.den.check_wf() {
            self.den.is_positive()
        } else {
            false
        }
    }
}

impl Clone for Rat {
    fn clone(&self) -> (res: Self)
        ensures
            res.num_int() == self.num_int(),
            res.den_int() == self.den_int(),
            res.wf() == self.wf(),
    {
        Rat { num: self.num.clone(), den: self.den.clone() }
    }
}

} // verus!
