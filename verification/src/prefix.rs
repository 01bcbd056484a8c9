//! Prefix operators.
//!
//! `not` treats `Null` and `Boolean(false)` as falsy and everything else as
//! truthy. Unary `+` and `-` are defined for `Integer`, `Float` and `Boolean`
//! (coerced to an integer); any other operand kind is a `TypeError`.

use vstd::prelude::*;

use crate::ast::Prefix;
use crate::bignum::Bignum;
use crate::exception::{spec_raise, ExceptKind, Exception, SpecException};
use crate::host::NativeHost;
use crate::value::{spec_kind_name, SpecValue, Value};
use crate::{res_view, ResultRuntime, Runtime};

verus! {

/// The symbol of a prefix operator, as error messages spell it.
pub open spec fn prefix_sym(op: Prefix) -> Seq<char> {
    match op {
        Prefix::Not => "!"@,
        Prefix::Plus => "+"@,
        Prefix::Minus => "-"@,
    }
}

/// The message of the error a bad unary operand raises.
pub open spec fn unary_type_msg(op: Prefix, v: SpecValue) -> Seq<char> {
    "bad operand type for unary "@ + prefix_sym(op) + ": '"@ + spec_kind_name(v) + "'"@
}

/// What a prefix application yields: the coercion rules of the value model.
pub open spec fn prefix_model(op: Prefix, v: SpecValue, ctx: Seq<char>) -> Result<
    SpecValue,
    SpecException,
> {
    match op {
        Prefix::Not => Result::Ok(
            SpecValue::Boolean(
                match v {
                    SpecValue::Null => true,
                    SpecValue::Boolean(b) => !b,
                    _ => false,
                },
            ),
        ),
        Prefix::Plus => match v {
            SpecValue::Integer(i) => Result::Ok(SpecValue::Integer(i)),
            SpecValue::Float(n, d) => Result::Ok(SpecValue::Float(n, d)),
            SpecValue::Boolean(b) => Result::Ok(
                SpecValue::Integer(
                    if b {
                        1
                    } else {
                        0
                    },
                ),
            ),
            _ => Result::Err(spec_raise(ExceptKind::TypeError, unary_type_msg(op, v), ctx)),
        },
        Prefix::Minus => match v {
            SpecValue::Integer(i) => Result::Ok(SpecValue::Integer(-i)),
            SpecValue::Float(n, d) => Result::Ok(SpecValue::Float(-n, d)),
            SpecValue::Boolean(b) => Result::Ok(
                SpecValue::Integer(
                    if b {
                        -1
                    } else {
                        0
                    },
                ),
            ),
            _ => Result::Err(spec_raise(ExceptKind::TypeError, unary_type_msg(op, v), ctx)),
        },
    }
}

/// Builds the bad-unary-operand message executably.
fn unary_type_message(op: Prefix, v: &Value) -> (m: String)
    ensures
        m@ == unary_type_msg(op, v@),
{
    let mut m = String::from_str("bad operand type for unary ");
    match op {
        Prefix::Not => m.append("!"),
        Prefix::Plus => m.append("+"),
        Prefix::Minus => m.append("-"),
    }
    m.append(": '");
    m.append(v.kind_name());
    m.append("'");
    m
}

impl<H: NativeHost> Runtime<H> {
    /// Unary `not`: `Null` and `false` are falsy, all else truthy.
    pub fn prefix_not_op(&self, right: Value) -> (r: ResultRuntime)
        requires
            self.wf(),
        ensures
            res_view(r) == prefix_model(Prefix::Not, right@, self.module_context@),
            r is Ok,
    {
        Result::Ok(
            match right {
                Value::Null => Value::Boolean(true),
                Value::Boolean(b) => Value::Boolean(!b),
                _ => Value::Boolean(false),
            },
        )
    }

    /// Unary `+`: identity on numbers, boolean coerced to an integer.
    pub fn prefix_plus_op(&self, right: Value) -> (r: ResultRuntime)
        requires
            self.wf(),
            crate::value::val_wf(right),
        ensures
            res_view(r) == prefix_model(Prefix::Plus, right@, self.module_context@),
            r is Ok ==> crate::value::val_wf(r->Ok_0) && crate::value::envs_ok(
                r->Ok_0@,
                self.env@.len() as int,
            ),
    {
        match right {
            Value::Integer(i) => Result::Ok(Value::Integer(i)),
            Value::Float(q) => Result::Ok(Value::Float(q)),
            Value::Boolean(b) => {
                if b {
                    Result::Ok(Value::Integer(Bignum::from_u64(1)))
                } else {
                    Result::Ok(Value::Integer(Bignum::zero()))
                }
            },
            other => Result::Err(
                Exception::raise(
                    ExceptKind::TypeError,
                    unary_type_message(Prefix::Plus, &other),
                    &self.module_context,
                ),
            ),
        }
    }

    /// Unary `-`: negation on numbers, boolean coerced to an integer.
    pub fn prefix_minus_op(&self, right: Value) -> (r: ResultRuntime)
        requires
            self.wf(),
            crate::value::val_wf(right),
        ensures
            res_view(r) == prefix_model(Prefix::Minus, right@, self.module_context@),
            r is Ok ==> crate::value::val_wf(r->Ok_0) && crate::value::envs_ok(
                r->Ok_0@,
                self.env@.len() as int,
            ),
    {
        match right {
            Value::Integer(i) => Result::Ok(Value::Integer(i.negated())),
            Value::Float(q) => Result::Ok(Value::Float(q.negated())),
            Value::Boolean(b) => {
                if b {
                    Result::Ok(Value::Integer(Bignum::from_i64(-1)))
                } else {
                    Result::Ok(Value::Integer(Bignum::zero()))
                }
            },
            other => Result::Err(
                Exception::raise(
                    ExceptKind::TypeError,
                    unary_type_message(Prefix::Minus, &other),
                    &self.module_context,
                ),
            ),
        }
    }

    /// Dispatches a prefix operator.
    pub fn prefix(&self, prefix: Prefix, right: Value) -> (r: ResultRuntime)
        requires
            self.wf(),
            crate::value::val_wf(right),
        ensures
            res_view(r) == prefix_model(prefix, right@, self.module_context@),
            r is Ok ==> crate::value::val_wf(r->Ok_0) && crate::value::envs_ok(
                r->Ok_0@,
                self.env@.len() as int,
            ),
    {
        match prefix {
            Prefix::Not => self.prefix_not_op(right),
            Prefix::Plus => self.prefix_plus_op(right),
            Prefix::Minus => self.prefix_minus_op(right),
        }
    }
}

} // verus!
