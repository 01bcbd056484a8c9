//! Infix operators: the numeric coercion matrix.
//!
//! Binary arithmetic and comparison dispatch on the pair of operand kinds.
//! Integers and booleans (coerced to integers) combine to integers, except
//! that `/` always promotes to an exact rational `Float`. As soon as a
//! `Float` takes part, both operands are promoted to exact rationals.
//! Comparisons across numeric kinds compare the promoted rational values with
//! no precision loss. Strings concatenate under `+` and repeat under
//! `* Integer/Boolean`, where a non-positive count yields the empty string.
//! Every other combination is a `TypeError` naming both operand kinds.

use vstd::prelude::*;

use crate::ast::Infix;
use crate::bignum::{big_add, big_mul, Bignum};
use crate::exception::{spec_raise, ExceptKind, Exception, SpecException};
use crate::host::NativeHost;
use crate::rational::Rat;
use crate::value::{envs_ok, spec_kind_name, val_wf, SpecValue, Value};
use crate::{res_view, ResultRuntime, Runtime};

verus! {

/// The symbol of an infix operator, as error messages spell it.
pub open spec fn infix_sym(op: Infix) -> Seq<char> {
    match op {
        Infix::Plus => "+"@,
        Infix::Minus => "-"@,
        Infix::Multiply => "*"@,
        Infix::Divide => "/"@,
        Infix::Equal => "=="@,
        Infix::NotEqual => "!="@,
        Infix::LessThan => "<"@,
        Infix::LessThanEqual => "<="@,
        Infix::GreaterThan => ">"@,
        Infix::GreaterThanEqual => ">="@,
    }
}

/// A comparison operator.
pub open spec fn is_comparison(op: Infix) -> bool {
    match op {
        Infix::Equal => true,
        Infix::NotEqual => true,
        Infix::LessThan => true,
        Infix::LessThanEqual => true,
        Infix::GreaterThan => true,
        Infix::GreaterThanEqual => true,
        _ => false,
    }
}

/// A value of a numeric kind: `Integer`, `Float`, or `Boolean`.
pub open spec fn is_numeric(v: SpecValue) -> bool {
    match v {
        SpecValue::Integer(_) => true,
        SpecValue::Float(_, _) => true,
        SpecValue::Boolean(_) => true,
        _ => false,
    }
}

/// A value that combines as an integer: `Integer` or `Boolean`.
pub open spec fn is_intlike(v: SpecValue) -> bool {
    match v {
        SpecValue::Integer(_) => true,
        SpecValue::Boolean(_) => true,
        _ => false,
    }
}

/// The integer a value coerces to.
pub open spec fn int_of(v: SpecValue) -> int {
    match v {
        SpecValue::Integer(i) => i,
        SpecValue::Boolean(b) => if b {
            1
        } else {
            0
        },
        _ => 0,
    }
}

/// The numerator of a value's promoted rational.
pub open spec fn num_of(v: SpecValue) -> int {
    match v {
        SpecValue::Float(n, _) => n,
        _ => int_of(v),
    }
}

/// The denominator of a value's promoted rational.
pub open spec fn den_of(v: SpecValue) -> int {
    match v {
        SpecValue::Float(_, d) => d,
        _ => 1,
    }
}

/// The message of the error an undefined operand pairing raises.
pub open spec fn not_supported_msg(op: Infix, a: SpecValue, b: SpecValue) -> Seq<char> {
    "'"@ + infix_sym(op) + "' not supported between instances of '"@ + spec_kind_name(a) + "' and '"@
        + spec_kind_name(b) + "'"@
}

/// `n` as a repetition count: negative counts mean none.
pub open spec fn max0(n: int) -> nat {
    if n > 0 {
        n as nat
    } else {
        0
    }
}

/// `s` repeated `n` times.
pub open spec fn str_repeat(s: Seq<char>, n: nat) -> Seq<char>
    decreases n,
{
    if n == 0 {
        Seq::empty()
    } else {
        str_repeat(s, (n - 1) as nat) + s
    }
}

/// What an infix application yields: the coercion matrix of the value model.
pub open spec fn infix_model(op: Infix, a: SpecValue, b: SpecValue, ctx: Seq<char>) -> Result<
    SpecValue,
    SpecException,
> {
    let fail = Result::<SpecValue, SpecException>::Err(
        spec_raise(ExceptKind::TypeError, not_supported_msg(op, a, b), ctx),
    );
    let div_zero = Result::<SpecValue, SpecException>::Err(
        spec_raise(ExceptKind::Error, "division by zero"@, ctx),
    );
    match a {
        SpecValue::Str(sa) => match b {
            SpecValue::Str(sb) => if op is Plus {
                Result::Ok(SpecValue::Str(sa + sb))
            } else {
                fail
            },
            SpecValue::Integer(_) | SpecValue::Boolean(_) => if op is Multiply {
                Result::Ok(SpecValue::Str(str_repeat(sa, max0(int_of(b)))))
            } else {
                fail
            },
            _ => fail,
        },
        _ => if is_numeric(a) && is_numeric(b) {
            if is_comparison(op) {
                let c1 = num_of(a) * den_of(b);
                let c2 = num_of(b) * den_of(a);
                Result::Ok(
                    SpecValue::Boolean(
                        match op {
                            Infix::Equal => c1 == c2,
                            Infix::NotEqual => c1 != c2,
                            Infix::LessThan => c1 < c2,
                            Infix::LessThanEqual => c1 <= c2,
                            Infix::GreaterThan => c1 > c2,
                            _ => c1 >= c2,
                        },
                    ),
                )
            } else if is_intlike(a) && is_intlike(b) {
                let x = int_of(a);
                let y = int_of(b);
                match op {
                    Infix::Plus => Result::Ok(SpecValue::Integer(x + y)),
                    Infix::Minus => Result::Ok(SpecValue::Integer(x - y)),
                    Infix::Multiply => Result::Ok(SpecValue::Integer(x * y)),
                    _ => if y == 0 {
                        div_zero
                    } else if y > 0 {
                        Result::Ok(SpecValue::Float(x, y))
                    } else {
                        Result::Ok(SpecValue::Float(-x, -y))
                    },
                }
            } else {
                let n1 = num_of(a);
                let d1 = den_of(a);
                let n2 = num_of(b);
                let d2 = den_of(b);
                match op {
                    Infix::Plus => Result::Ok(SpecValue::Float(n1 * d2 + n2 * d1, d1 * d2)),
                    Infix::Minus => Result::Ok(SpecValue::Float(n1 * d2 - n2 * d1, d1 * d2)),
                    Infix::Multiply => Result::Ok(SpecValue::Float(n1 * n2, d1 * d2)),
                    _ => if n2 == 0 {
                        div_zero
                    } else if d1 * n2 > 0 {
                        Result::Ok(SpecValue::Float(n1 * d2, d1 * n2))
                    } else {
                        Result::Ok(SpecValue::Float(-(n1 * d2), -(d1 * n2)))
                    },
                }
            }
        } else {
            fail
        },
    }
}

/// The symbol of an infix operator.
fn infix_symbol(op: Infix) -> (r: &'static str)
    ensures
        r@ == infix_sym(op),
{
    match op {
        Infix::Plus => "+",
        Infix::Minus => "-",
        Infix::Multiply => "*",
        Infix::Divide => "/",
        Infix::Equal => "==",
        Infix::NotEqual => "!=",
        Infix::LessThan => "<",
        Infix::LessThanEqual => "<=",
        Infix::GreaterThan => ">",
        Infix::GreaterThanEqual => ">=",
    }
}

/// Builds the undefined-pairing message executably.
fn not_supported_message(op: Infix, a: &Value, b: &Value) -> (m: String)
    ensures
        m@ == not_supported_msg(op, a@, b@),
{
    let mut m = String::from_str("'");
    m.append(infix_symbol(op));
    m.append("' not supported between instances of '");
    m.append(a.kind_name());
    m.append("' and '");
    m.append(b.kind_name());
    m.append("'");
    m
}

/// The promoted rational of a numeric value.
fn to_rat(v: &Value) -> (r: Option<Rat>)
    requires
        val_wf(*v),
    ensures
        match r {
            Option::Some(q) => is_numeric(v@) && q.wf() && q.num_int() == num_of(v@) && q.den_int()
                == den_of(v@),
            Option::None => !is_numeric(v@),
        },
{
    match v {
        Value::Integer(i) => Option::Some(Rat::from_int(i)),
        Value::Float(q) => Option::Some(q.clone()),
        Value::Boolean(b) => {
            if *b {
                Option::Some(Rat::from_int(&Bignum::from_u64(1)))
            } else {
                Option::Some(Rat::from_int(&Bignum::zero()))
            }
        },
        _ => Option::None,
    }
}

/// The integer an integer-like value coerces to.
fn to_int(v: &Value) -> (r: Option<Bignum>)
    requires
        val_wf(*v),
    ensures
        match r {
            Option::Some(i) => is_intlike(v@) && i.wf() && i.as_int() == int_of(v@),
            Option::None => !is_intlike(v@),
        },
{
    match v {
        Value::Integer(i) => Option::Some(i.clone()),
        Value::Boolean(b) => {
            if *b {
                Option::Some(Bignum::from_u64(1))
            } else {
                Option::Some(Bignum::zero())
            }
        },
        _ => Option::None,
    }
}

/// `s` repeated `count` times; a non-positive count yields the empty string.
fn repeat_str(s: &str, count: &Bignum) -> (r: String)
    requires
        count.wf(),
    ensures
        r@ == str_repeat(s@, max0(count.as_int())),
{
    let mut out = String::new();
    let mut i: Bignum = count.clone();
    let minus_one = Bignum::from_i64(-1);
    proof {
        if count.as_int() > 0 {
            assert(max0(count.as_int()) - max0(i.as_int()) == 0);
        }
        assert(str_repeat(s@, 0) =~= Seq::<char>::empty());
    }
    while i.is_positive()
        invariant
            i.wf(),
            minus_one.wf(),
            minus_one.as_int() == -1,
            max0(i.as_int()) <= max0(count.as_int()),
            out@ == str_repeat(s@, (max0(count.as_int()) - max0(i.as_int())) as nat),
        decreases max0(i.as_int()),
    {
        out.append(s);
        proof {
            let done = (max0(count.as_int()) - max0(i.as_int())) as nat;
            assert(str_repeat(s@, (done + 1) as nat) == str_repeat(s@, done) + s@);
        }
        i = big_add(&i, &minus_one);
    }
    out
}

impl<H: NativeHost> Runtime<H> {
    /// Applies an infix operator to two evaluated operands, by the coercion
    /// matrix; an undefined pairing raises a `TypeError` naming both kinds.
    pub fn infix(&self, infix: Infix, left: Value, right: Value) -> (r: ResultRuntime)
        requires
            self.wf(),
            val_wf(left),
            val_wf(right),
        ensures
            res_view(r) == infix_model(infix, left@, right@, self.module_context@),
            r is Ok ==> val_wf(r->Ok_0) && envs_ok(r->Ok_0@, self.env@.len() as int),
    {
        if let Value::Str(sa) = &left {
            match &right {
                Value::Str(sb) => {
                    if matches!(infix, Infix::Plus) {
                        let joined = sa.clone().concat(sb.as_str());
                        return Result::Ok(Value::Str(joined));
                    }
                },
                Value::Integer(i) => {
                    if matches!(infix, Infix::Multiply) {
                        return Result::Ok(Value::Str(repeat_str(sa.as_str(), i)));
                    }
                },
                Value::Boolean(b) => {
                    if matches!(infix, Infix::Multiply) {
                        let count = if *b {
                            Bignum::from_u64(1)
                        } else {
                            Bignum::zero()
                        };
                        return Result::Ok(Value::Str(repeat_str(sa.as_str(), &count)));
                    }
                },
                _ => {},
            }
            return Result::Err(
                Exception::raise(
                    ExceptKind::TypeError,
                    not_supported_message(infix, &left, &right),
                    &self.module_context,
                ),
            );
        }
        let q1 = to_rat(&left);
        let q2 = to_rat(&right);
        if let (Option::Some(qa), Option::Some(qb)) = (q1, q2) {
            let is_cmp = matches!(
                infix,
                Infix::Equal | Infix::NotEqual | Infix::LessThan | Infix::LessThanEqual
                    | Infix::GreaterThan | Infix::GreaterThanEqual
            );
            if is_cmp {
                let c = qa.cmp_rat(&qb);
                let outcome = match infix {
                    Infix::Equal => c == 0,
                    Infix::NotEqual => c != 0,
                    Infix::LessThan => c == -1,
                    Infix::LessThanEqual => c != 1,
                    Infix::GreaterThan => c == 1,
                    _ => c != -1,
                };
                return Result::Ok(Value::Boolean(outcome));
            }
            let x = to_int(&left);
            let y = to_int(&right);
            if let (Option::Some(xi), Option::Some(yi)) = (x, y) {
                return match infix {
                    Infix::Plus => Result::Ok(Value::Integer(big_add(&xi, &yi))),
                    Infix::Minus => Result::Ok(Value::Integer(big_add(&xi, &yi.negated()))),
                    Infix::Multiply => Result::Ok(Value::Integer(big_mul(&xi, &yi))),
                    _ => {
                        if yi.is_zero() {
                            Result::Err(
                                Exception::raise(
                                    ExceptKind::Error,
                                    String::from_str("division by zero"),
                                    &self.module_context,
                                ),
                            )
                        } else {
                            Result::Ok(Value::Float(Rat::from_parts(&xi, &yi)))
                        }
                    },
                };
            }
            return match infix {
                Infix::Plus => Result::Ok(Value::Float(qa.add(&qb))),
                Infix::Minus => Result::Ok(Value::Float(qa.sub(&qb))),
                Infix::Multiply => Result::Ok(Value::Float(qa.mul(&qb))),
                _ => {
                    if qb.num.is_zero() {
                        Result::Err(
                            Exception::raise(
                                ExceptKind::Error,
                                String::from_str("division by zero"),
                                &self.module_context,
                            ),
                        )
                    } else {
                        let n = big_mul(&qa.num, &qb.den);
                        let d = big_mul(&qa.den, &qb.num);
                        proof {
                            assert(d.as_int() != 0) by (nonlinear_arith)
                                requires
                                    d.as_int() == qa.den_int() * qb.num_int(),
                                    qa.den_int() > 0,
                                    qb.num_int() != 0,
                            ;
                        }
                        Result::Ok(Value::Float(Rat::from_parts(&n, &d)))
                    }
                },
            };
        }
        Result::Err(
            Exception::raise(
                ExceptKind::TypeError,
                not_supported_message(infix, &left, &right),
                &self.module_context,
            ),
        )
    }
}

} // verus!
