//! Expression evaluation: the dispatcher.
//!
//! An infix expression evaluates its left operand before its right, and both
//! before operator dispatch. A function literal becomes an anonymous
//! `Function` capturing the current scope by reference. Attribute access
//! resolves an exported symbol of a `ModuleHandle` through the host and is an
//! `AttributeError` on every other kind.

use vstd::prelude::*;

use crate::ast::{clone_params, clone_statements, expr_wf, Expression, SpecExpression, SpecLiteral};
use crate::exception::{spec_raise, ExceptKind, Exception, SpecException};
use crate::host::NativeHost;
use crate::env::{lookup, SpecScope};
use crate::identifier::name_error_msg;
use crate::value::{spec_kind_name, val_wf, SpecValue, Value};
use crate::{lemma_eval_trans, res_view, ResultRuntime, Runtime};

verus! {

/// The message of the error a missing attribute raises.
pub open spec fn attribute_msg(v: SpecValue, name: Seq<char>) -> Seq<char> {
    "'"@ + spec_kind_name(v) + "' object has no attribute '"@ + name + "'"@
}

/// The value of a straight-line expression — one built from scalar
/// literals, identifiers, prefix and infix operators and indexing alone —
/// against a given environment. Such an expression calls nothing, recurses
/// through no function body and touches no host, so its outcome is a pure
/// function of the environment; anything else is out of this fragment.
pub open spec fn simple_expr_value(
    env: Seq<SpecScope>,
    scope: int,
    ctx: Seq<char>,
    e: SpecExpression,
) -> Option<Result<SpecValue, SpecException>>
    decreases e,
{
    match e {
        SpecExpression::Identifier(name) => Option::Some(
            match lookup(env, scope, name) {
                Option::Some(v) => Result::Ok(v),
                Option::None => Result::Err(
                    spec_raise(ExceptKind::NameError, name_error_msg(name), ctx),
                ),
            },
        ),
        SpecExpression::Literal(_) => match scalar_literal_value(e) {
            Option::Some(sv) => Option::Some(Result::Ok(sv)),
            Option::None => Option::None,
        },
        SpecExpression::Prefix(op, inner) => match simple_expr_value(env, scope, ctx, *inner) {
            Option::Some(Result::Ok(v)) => Option::Some(crate::prefix::prefix_model(op, v, ctx)),
            Option::Some(Result::Err(err)) => Option::Some(Result::Err(err)),
            Option::None => Option::None,
        },
        SpecExpression::Infix(op, l, r) => match simple_expr_value(env, scope, ctx, *l) {
            Option::Some(Result::Ok(a)) => match simple_expr_value(env, scope, ctx, *r) {
                Option::Some(Result::Ok(b)) => Option::Some(
                    crate::infix::infix_model(op, a, b, ctx),
                ),
                Option::Some(Result::Err(err)) => Option::Some(Result::Err(err)),
                Option::None => Option::None,
            },
            Option::Some(Result::Err(err)) => Option::Some(Result::Err(err)),
            Option::None => Option::None,
        },
        SpecExpression::Index(l, i) => match simple_expr_value(env, scope, ctx, *l) {
            Option::Some(Result::Ok(a)) => match simple_expr_value(env, scope, ctx, *i) {
                Option::Some(Result::Ok(b)) => Option::Some(
                    crate::index::index_model(a, b, ctx),
                ),
                Option::Some(Result::Err(err)) => Option::Some(Result::Err(err)),
                Option::None => Option::None,
            },
            Option::Some(Result::Err(err)) => Option::Some(Result::Err(err)),
            Option::None => Option::None,
        },
        _ => Option::None,
    }
}

/// Fuel that suffices to evaluate a straight-line expression: one unit per
/// nesting level, since every child evaluates with one unit less.
pub open spec fn expr_fuel(e: SpecExpression) -> nat
    decreases e,
{
    match e {
        SpecExpression::Identifier(_) => 1,
        SpecExpression::Literal(_) => 2,
        SpecExpression::Prefix(_, inner) => 1 + expr_fuel(*inner),
        SpecExpression::Infix(_, l, r) => {
            let fl = expr_fuel(*l);
            let fr = expr_fuel(*r);
            1 + if fl >= fr {
                fl
            } else {
                fr
            }
        },
        SpecExpression::Index(l, i) => {
            let fl = expr_fuel(*l);
            let fr = expr_fuel(*i);
            1 + if fl >= fr {
                fl
            } else {
                fr
            }
        },
        _ => 1,
    }
}

/// The value a scalar literal expression denotes, where it is one: such an
/// expression evaluates to exactly this value, with no way to fail.
pub open spec fn scalar_literal_value(e: SpecExpression) -> Option<SpecValue> {
    match e {
        SpecExpression::Literal(l) => match l {
            SpecLiteral::Null => Option::Some(SpecValue::Null),
            SpecLiteral::Integer(i) => Option::Some(SpecValue::Integer(i)),
            SpecLiteral::Float(n, d) => Option::Some(SpecValue::Float(n, d)),
            SpecLiteral::Boolean(b) => Option::Some(SpecValue::Boolean(b)),
            SpecLiteral::Str(s) => Option::Some(SpecValue::Str(s)),
            _ => Option::None,
        },
        _ => Option::None,
    }
}

impl<H: NativeHost> Runtime<H> {
    /// Evaluates one expression.
    pub fn expression(&mut self, expression: &Expression, fuel: u64) -> (r: ResultRuntime)
        requires
            old(self).wf(),
            expr_wf(*expression),
        ensures
            final(self).evolves_from(*old(self)),
            final(self).bindings_unchanged(*old(self)),
            r is Ok ==> final(self).value_ok(r->Ok_0),
            match expression@ {
                SpecExpression::Identifier(name) => fuel >= 1 ==> final(self).env_unchanged(
                    *old(self),
                ) && (match r {
                    Result::Ok(v) => lookup(old(self).env@, old(self).scope as int, name)
                        == Option::Some(v@),
                    Result::Err(e) => lookup(old(self).env@, old(self).scope as int, name) is None
                        && e@ == spec_raise(
                        ExceptKind::NameError,
                        name_error_msg(name),
                        old(self).module_context@,
                    ),
                }),
                SpecExpression::Fn { params, body } => fuel >= 1 ==> final(self).env_unchanged(
                    *old(self),
                ) && (r matches Result::Ok(v) && v@ == (SpecValue::Function {
                    name: Option::None,
                    params,
                    body,
                    env: old(self).scope as int,
                })),
                _ => true,
            },
            scalar_literal_value(expression@) matches Option::Some(sv) ==> (fuel >= 2 ==> (r
            matches Result::Ok(v) && v@ == sv)),
            simple_expr_value(
                old(self).env@,
                old(self).scope as int,
                old(self).module_context@,
                expression@,
            ) matches Option::Some(out) ==> (fuel >= expr_fuel(expression@)
                ==> final(self).env_unchanged(*old(self)) && res_view(r) == out),
            r matches Result::Err(e) ==> crate::error_frames_ok(e@, old(self).module_context@),
            crate::semantics::eval_expr(
                old(self).env@,
                old(self).scope as int,
                old(self).module_context@,
                expression@,
                fuel as nat,
            ) matches Option::Some(o) ==> final(self).env@ == o.0
                && res_view(r) == o.1,
        decreases fuel,
    {
        if fuel == 0 {
            return Result::Err(self.fuel_error());
        }
        match expression {
            Expression::Identifier(identifier) => self.identifier(identifier),
            Expression::Literal(literal) => self.literal(literal, (fuel - 1) as u64),
            Expression::Prefix(op, right_expression) => {
                let right = match self.expression(&**right_expression, (fuel - 1) as u64) {
                    Result::Ok(v) => v,
                    Result::Err(e) => {
                        return Result::Err(e);
                    },
                };
                self.prefix(*op, right)
            },
            Expression::Infix(op, left_expression, right_expression) => {
                let left = match self.expression(&**left_expression, (fuel - 1) as u64) {
                    Result::Ok(v) => v,
                    Result::Err(e) => {
                        return Result::Err(e);
                    },
                };
                let ghost mid = *self;
                let right = match self.expression(&**right_expression, (fuel - 1) as u64) {
                    Result::Ok(v) => v,
                    Result::Err(e) => {
                        proof {
                            lemma_eval_trans(*old(self), mid, *self);
                        }
                        return Result::Err(e);
                    },
                };
                proof {
                    lemma_eval_trans(*old(self), mid, *self);
                }
                self.infix(*op, left, right)
            },
            Expression::Fn { params, body } => {
                let function = Value::Function {
                    name: Option::None,
                    params: clone_params(params),
                    body: clone_statements(body),
                    env: self.scope,
                };
                Result::Ok(function)
            },
            Expression::Call { function, arguments } => self.call(
                &**function,
                arguments,
                (fuel - 1) as u64,
            ),
            Expression::Index(left_expression, index_expression) => {
                let left = match self.expression(&**left_expression, (fuel - 1) as u64) {
                    Result::Ok(v) => v,
                    Result::Err(e) => {
                        return Result::Err(e);
                    },
                };
                let ghost mid = *self;
                let index = match self.expression(&**index_expression, (fuel - 1) as u64) {
                    Result::Ok(v) => v,
                    Result::Err(e) => {
                        proof {
                            lemma_eval_trans(*old(self), mid, *self);
                        }
                        return Result::Err(e);
                    },
                };
                proof {
                    lemma_eval_trans(*old(self), mid, *self);
                    crate::value::lemma_envs_ok_mono(
                        left@,
                        mid.env@.len() as int,
                        self.env@.len() as int,
                    );
                }
                self.index(left, index)
            },
            Expression::Attribute(target_expression, name) => {
                let target = match self.expression(&**target_expression, (fuel - 1) as u64) {
                    Result::Ok(v) => v,
                    Result::Err(e) => {
                        return Result::Err(e);
                    },
                };
                self.attribute(target, name)
            },
        }
    }

    /// Resolves an attribute. On a `ModuleHandle` the name is looked up among
    /// the library's exported symbols through the host, yielding a
    /// `NativeFunction` bound to that module; anything else — a missing
    /// symbol, or any other target kind — raises an `AttributeError` naming
    /// the target's kind and the attribute.
    pub fn attribute(&mut self, target: Value, name: &String) -> (r: ResultRuntime)
        requires
            old(self).wf(),
            val_wf(target),
        ensures
            final(self).evolves_from(*old(self)),
            final(self).env_unchanged(*old(self)),
            final(self).bindings_unchanged(*old(self)),
            r is Ok ==> final(self).value_ok(r->Ok_0),
            match target@ {
                SpecValue::ModuleHandle { module: m, .. } => match r {
                    Result::Ok(v) => v@ matches SpecValue::NativeFunction {
                        name: resolved_name,
                        arity: _,
                        module: resolved_module,
                    } && resolved_name == name@ && resolved_module == m,
                    Result::Err(e) => e@ == spec_raise(
                        ExceptKind::AttributeError,
                        attribute_msg(target@, name@),
                        old(self).module_context@,
                    ),
                },
                _ => r matches Result::Err(e) && e@ == spec_raise(
                    ExceptKind::AttributeError,
                    attribute_msg(target@, name@),
                    old(self).module_context@,
                ),
            },
    {
        let resolved: Option<i64> = match &target {
            Value::ModuleHandle { name: _, path: _, module } => self.host.resolve(*module, name),
            _ => Option::None,
        };
        match (&target, resolved) {
            (Value::ModuleHandle { name: _, path: _, module }, Option::Some(arity)) => {
                Result::Ok(
                    Value::NativeFunction { name: name.clone(), arity, module: *module },
                )
            },
            _ => {
                let mut m = String::from_str("'");
                m.append(target.kind_name());
                m.append("' object has no attribute '");
                m.append(name.as_str());
                m.append("'");
                Result::Err(
                    Exception::raise(ExceptKind::AttributeError, m, &self.module_context),
                )
            },
        }
    }
}

} // verus!
