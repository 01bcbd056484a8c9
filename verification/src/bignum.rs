//! Arbitrary-precision signed integers.
//!
//! A `Bignum` keeps a sign and base-2^32 limbs, least significant limb first,
//! in canonical form (no leading zero limb, and zero is never negative).
//! The arithmetic itself is done by `num_bigint`; each call stands behind a
//! trusted wrapper whose contract is exact over `as_int`.

use vstd::prelude::*;

use num_bigint::{BigInt, Sign};

verus! {

/// The integer denoted by base-2^32 limbs, least significant first.
pub open spec fn limbs_val(s: Seq<u32>) -> nat
    decreases s.len(),
{
    if s.len() == 0 {
        0
    } else {
        (s[0] + 0x1_0000_0000 * limbs_val(s.skip(1))) as nat
    }
}

/// An arbitrary-precision signed integer.
#[derive(Debug)]
pub struct Bignum {
    pub neg: bool,
    pub limbs: Vec<u32>,
}

impl Bignum {
    /// Canonical form: no leading zero limb, and zero is not negative.
    pub open spec fn wf(&self) -> bool {
        &&& (self.limbs.len() > 0 ==> self.limbs@.last() != 0)
        &&& (self.neg ==> self.limbs.len() > 0)
    }

    /// The mathematical integer this value denotes.
    pub open spec fn as_int(&self) -> int {
        if self.neg {
            -(limbs_val(self.limbs@) as int)
        } else {
            limbs_val(self.limbs@) as int
        }
    }
}

/// A limb sequence whose last limb is non-zero denotes a positive number.
pub proof fn lemma_limbs_val_pos(s: Seq<u32>)
    requires
        s.len() > 0,
        s.last() != 0,
    ensures
        limbs_val(s) > 0,
    decreases s.len(),
{
    if s.len() == 1 {
        assert(limbs_val(s.skip(1)) == 0);
    } else {
        assert(s.skip(1).last() == s.last());
        lemma_limbs_val_pos(s.skip(1));
    }
}

impl Bignum {
    pub fn zero() -> (r: Bignum)
        ensures
            r.wf(),
            r.as_int() == 0,
    {
        Bignum { neg: false, limbs: Vec::new() }
    }

    pub fn from_u64(n: u64) -> (r: Bignum)
        ensures
            r.wf(),
            r.as_int() == n as int,
    {
        let lo: u32 = (n & 0xFFFF_FFFF) as u32;
        let hi: u32 = (n >> 32) as u32;
        proof {
            assert(n == (n & 0xFFFF_FFFF) + 0x1_0000_0000 * (n >> 32)) by (bit_vector);
            assert((n & 0xFFFF_FFFF) <= 0xFFFF_FFFF) by (bit_vector);
            assert((n >> 32) <= 0xFFFF_FFFF) by (bit_vector);
            assert((n >> 32) == 0 ==> n == (n & 0xFFFF_FFFF)) by (bit_vector);
        }
        if hi != 0 {
            let r = Bignum { neg: false, limbs: vec![lo, hi] };
            proof {
                assert(r.limbs@ =~= seq![lo, hi]);
                assert(seq![lo, hi].skip(1) =~= seq![hi]);
                assert(seq![hi].skip(1) =~= Seq::<u32>::empty());
                assert(limbs_val(Seq::<u32>::empty()) == 0);
                assert(limbs_val(seq![hi]) == hi);
                assert(limbs_val(seq![lo, hi]) == lo + 0x1_0000_0000 * (hi as nat));
            }
            r
        } else if lo != 0 {
            let r = Bignum { neg: false, limbs: vec![lo] };
            proof {
                assert(r.limbs@ =~= seq![lo]);
                assert(seq![lo].skip(1) =~= Seq::<u32>::empty());
                assert(limbs_val(Seq::<u32>::empty()) == 0);
                assert(limbs_val(seq![lo]) == lo);
            }
            r
        } else {
            Bignum::zero()
        }
    }

    pub fn from_i64(n: i64) -> (r: Bignum)
        ensures
            r.wf(),
            r.as_int() == n as int,
    {
        if n >= 0 {
            Bignum::from_u64(n as u64)
        } else {
            let mag: u64 = (-(n as i128)) as u64;
            let m = Bignum::from_u64(mag);
            m.negated()
        }
    }

    /// The additive inverse; sign flip on the canonical form.
    pub fn negated(&self) -> (r: Bignum)
        requires
            self.wf(),
        ensures
            r.wf(),
            r.as_int() == -self.as_int(),
    {
        if self.limbs.len() == 0 {
            Bignum::zero()
        } else {
            Bignum { neg: !self.neg, limbs: self.limbs.clone() }
        }
    }

    pub fn is_zero(&self) -> (r: bool)
        requires
            self.wf(),
        ensures
            r == (self.as_int() == 0),
    {
        proof {
            if self.limbs@.len() > 0 {
                lemma_limbs_val_pos(self.limbs@);
            }
        }
        self.limbs.len() == 0
    }

    pub fn is_positive(&self) -> (r: bool)
        requires
            self.wf(),
        ensures
            r == (self.as_int() > 0),
    {
        proof {
            if self.limbs@.len() > 0 {
                lemma_limbs_val_pos(self.limbs@);
            }
        }
        !self.neg && self.limbs.len() > 0
    }
}

impl Bignum {
    /// Decides canonical form.
    pub fn check_wf(&self) -> (r: bool)
        ensures
            r == self.wf(),
    {
        if self.limbs.len() == 0 {
            !self.neg
        } else {
            self.limbs[self.limbs.len() - 1] != 0
        }
    }
}

impl Bignum {
    pub fn is_negative(&self) -> (r: bool)
        requires
            self.wf(),
        ensures
            r == (self.as_int() < 0),
    {
        proof {
            if self.limbs@.len() > 0 {
                lemma_limbs_val_pos(self.limbs@);
            }
        }
        self.neg
    }

    /// The value as a `u64`, where it fits.
    pub fn to_u64(&self) -> (r: Option<u64>)
        requires
            self.wf(),
        ensures
            match r {
                Option::Some(v) => v as int == self.as_int(),
                Option::None => self.as_int() < 0 || self.as_int() > u64::MAX,
            },
    {
        proof {
            if self.limbs@.len() > 0 {
                lemma_limbs_val_pos(self.limbs@);
            }
        }
        if self.neg {
            return Option::None;
        }
        if self.limbs.len() == 0 {
            return Option::Some(0);
        }
        if self.limbs.len() == 1 {
            let lo = self.limbs[0];
            proof {
                assert(self.limbs@ =~= seq![lo]);
                assert(seq![lo].skip(1) =~= Seq::<u32>::empty());
                assert(limbs_val(Seq::<u32>::empty()) == 0);
                assert(limbs_val(seq![lo]) == lo);
            }
            return Option::Some(lo as u64);
        }
        if self.limbs.len() == 2 {
            let lo = self.limbs[0];
            let hi = self.limbs[1];
            proof {
                assert(self.limbs@ =~= seq![lo, hi]);
                assert(seq![lo, hi].skip(1) =~= seq![hi]);
                assert(seq![hi].skip(1) =~= Seq::<u32>::empty());
                assert(limbs_val(Seq::<u32>::empty()) == 0);
                assert(limbs_val(seq![hi]) == hi);
                assert(limbs_val(seq![lo, hi]) == lo + 0x1_0000_0000 * (hi as nat));
            }
            return Option::Some((lo as u64) + 0x1_0000_0000u64 * (hi as u64));
        }
        proof {
            lemma_limbs_val_big(self.limbs@);
        }
        Option::None
    }
}

/// Three or more canonical limbs denote a value beyond `u64`.
proof fn lemma_limbs_val_big(s: Seq<u32>)
    requires
        s.len() >= 3,
        s.last() != 0,
    ensures
        limbs_val(s) > u64::MAX,
{
    let s1 = s.skip(1);
    let s2 = s.skip(2);
    assert(s1.skip(1) =~= s2);
    assert(s1.last() == s.last());
    assert(s2.last() == s.last());
    lemma_limbs_val_pos(s2);
    assert(limbs_val(s1) == (s1[0] + 0x1_0000_0000 * limbs_val(s2)) as nat);
    assert(limbs_val(s1) >= 0x1_0000_0000);
    assert(limbs_val(s) == (s[0] + 0x1_0000_0000 * limbs_val(s1)) as nat);
    assert(0x1_0000_0000 * limbs_val(s1) >= 0x1_0000_0000 * 0x1_0000_0000) by (nonlinear_arith)
        requires
            limbs_val(s1) >= 0x1_0000_0000,
    ;
}

impl Clone for Bignum {
    fn clone(&self) -> (res: Self)
        ensures
            res.neg == self.neg,
            res.limbs@ == self.limbs@,
            res.wf() == self.wf(),
            res.as_int() == self.as_int(),
    {
        Bignum { neg: self.neg, limbs: self.limbs.clone() }
    }
}

/// Relies on `num_bigint::BigInt`: `BigInt::new` builds the integer with the
/// given sign and base-2^32 limbs (normalizing a zero magnitude), `+` is exact
/// integer addition, and `to_u32_digits` hands back the sign and the canonical
/// limbs of the result.
#[verifier::external_body]
pub(crate) fn big_add(a: &Bignum, b: &Bignum) -> (r: Bignum)
    ensures
        r.wf(),
        r.as_int() == a.as_int() + b.as_int(),
{
    let x = BigInt::new(if a.neg { Sign::Minus } else { Sign::Plus }, a.limbs.clone());
    let y = BigInt::new(if b.neg { Sign::Minus } else { Sign::Plus }, b.limbs.clone());
    let (s, limbs) = (x + y).to_u32_digits();
    Bignum { neg: matches!(s, Sign::Minus), limbs }
}

/// Relies on `num_bigint::BigInt`: `*` is exact integer multiplication; the
/// conversions are as in `big_add`.
#[verifier::external_body]
pub(crate) fn big_mul(a: &Bignum, b: &Bignum) -> (r: Bignum)
    ensures
        r.wf(),
        r.as_int() == a.as_int() * b.as_int(),
{
    let x = BigInt::new(if a.neg { Sign::Minus } else { Sign::Plus }, a.limbs.clone());
    let y = BigInt::new(if b.neg { Sign::Minus } else { Sign::Plus }, b.limbs.clone());
    let (s, limbs) = (x * y).to_u32_digits();
    Bignum { neg: matches!(s, Sign::Minus), limbs }
}

/// Relies on `num_bigint::BigInt`'s `Ord::cmp`, which orders by integer value;
/// the conversions are as in `big_add`.
#[verifier::external_body]
pub(crate) fn big_cmp(a: &Bignum, b: &Bignum) -> (r: i32)
    ensures
        r == -1 || r == 0 || r == 1,
        (r == -1) <==> a.as_int() < b.as_int(),
        (r == 0) <==> a.as_int() == b.as_int(),
{
    let x = BigInt::new(if a.neg { Sign::Minus } else { Sign::Plus }, a.limbs.clone());
    let y = BigInt::new(if b.neg { Sign::Minus } else { Sign::Plus }, b.limbs.clone());
    match x.cmp(&y) {
        core::cmp::Ordering::Less => -1,
        core::cmp::Ordering::Equal => 0,
        core::cmp::Ordering::Greater => 1,
    }
}

/// The decimal digits of a non-negative integer, most significant first.
pub open spec fn dec_digits(n: nat) -> Seq<char>
    decreases n,
{
    if n < 10 {
        seq![((n + 0x30) as u8) as char]
    } else {
        dec_digits(n / 10).push(((n % 10 + 0x30) as u8) as char)
    }
}

/// The decimal rendering of an integer: a `-` sign, then the digits.
pub open spec fn dec_int(n: int) -> Seq<char> {
    if n < 0 {
        seq!['-'] + dec_digits((-n) as nat)
    } else {
        dec_digits(n as nat)
    }
}

/// Relies on `num_bigint::BigInt::to_str_radix` with radix 10: the decimal
/// digits of the magnitude, most significant first, prefixed with `-` for a
/// negative value; the conversions are as in `big_add`.
#[verifier::external_body]
pub(crate) fn big_to_decimal(a: &Bignum) -> (r: String)
    ensures
        r@ == dec_int(a.as_int()),
{
    let x = BigInt::new(if a.neg { Sign::Minus } else { Sign::Plus }, a.limbs.clone());
    x.to_str_radix(10)
}

} // verus!
