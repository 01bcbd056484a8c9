//! The big-step model of evaluation.
//!
//! These spec functions mirror the executable evaluator step for step over
//! spec values: the same fuel discipline (every entry point spends one unit,
//! exhaustion is the fuel error), the same environment threading, the same
//! traceback frames. The outcome is `None` exactly where evaluation passes
//! through the native host — an import, an attribute resolution, a native
//! call — and is therefore not a function of the program and the
//! environment alone. Each evaluator function's contract equates its result
//! and final environment with its model whenever the model is decided.

use vstd::prelude::*;

use crate::ast::{SpecExpression, SpecLiteral, SpecStatement};
use crate::call::{arity_msg, fn_display_name, not_callable_msg};
use crate::env::{lookup, SpecScope};
use crate::exception::{spec_frame, spec_raise, ExceptKind, SpecException};
use crate::expression::scalar_literal_value;
use crate::identifier::name_error_msg;
use crate::index::index_model;
use crate::infix::infix_model;
use crate::literal::unhashable_msg;
use crate::prefix::prefix_model;
use crate::value::{is_hashable, spec_map_insert, SpecValue};

verus! {

/// A decided evaluation outcome: the environment after it, and a value or
/// an exception.
pub type SpecOutcome = Option<(Seq<SpecScope>, Result<SpecValue, SpecException>)>;

/// The exception the evaluator raises when its fuel bound runs out.
pub open spec fn fuel_exception(ctx: Seq<char>) -> SpecException {
    spec_raise(ExceptKind::Error, "evaluation fuel exhausted"@, ctx)
}

/// `e` with one more frame for this module, as a propagation boundary
/// appends it.
pub open spec fn with_frame(e: SpecException, ctx: Seq<char>) -> SpecException {
    SpecException { kind: e.kind, message: e.message, frames: e.frames.push(spec_frame(ctx)) }
}

/// The bindings a call frame starts with: each parameter bound to its
/// argument positionally; of a repeated parameter name, the last wins.
pub open spec fn positional_bindings(params: Seq<Seq<char>>, args: Seq<SpecValue>) -> Map<
    Seq<char>,
    SpecValue,
>
    decreases params.len(),
{
    if params.len() == 0 {
        Map::empty()
    } else {
        positional_bindings(params.drop_last(), args.drop_last()).insert(
            params.last(),
            args.last(),
        )
    }
}

/// What evaluating one expression yields.
pub open spec fn eval_expr(
    env: Seq<SpecScope>,
    scope: int,
    ctx: Seq<char>,
    e: SpecExpression,
    fuel: nat,
) -> SpecOutcome
    decreases fuel, 0int, 0int,
{
    if fuel == 0 {
        Option::Some((env, Result::Err(fuel_exception(ctx))))
    } else {
        match e {
            SpecExpression::Identifier(name) => Option::Some(
                (
                    env,
                    match lookup(env, scope, name) {
                        Option::Some(v) => Result::Ok(v),
                        Option::None => Result::Err(
                            spec_raise(ExceptKind::NameError, name_error_msg(name), ctx),
                        ),
                    },
                ),
            ),
            SpecExpression::Literal(l) => eval_literal(env, scope, ctx, l, (fuel - 1) as nat),
            SpecExpression::Prefix(op, inner) => match eval_expr(
                env,
                scope,
                ctx,
                *inner,
                (fuel - 1) as nat,
            ) {
                Option::Some((env1, Result::Ok(v))) => Option::Some(
                    (env1, prefix_model(op, v, ctx)),
                ),
                other => other,
            },
            SpecExpression::Infix(op, l, r) => match eval_expr(
                env,
                scope,
                ctx,
                *l,
                (fuel - 1) as nat,
            ) {
                Option::Some((env1, Result::Ok(a))) => match eval_expr(
                    env1,
                    scope,
                    ctx,
                    *r,
                    (fuel - 1) as nat,
                ) {
                    Option::Some((env2, Result::Ok(b))) => Option::Some(
                        (env2, infix_model(op, a, b, ctx)),
                    ),
                    other => other,
                },
                other => other,
            },
            SpecExpression::Fn { params, body } => Option::Some(
                (
                    env,
                    Result::Ok(
                        SpecValue::Function { name: Option::None, params, body, env: scope },
                    ),
                ),
            ),
            SpecExpression::Call { function, arguments } => eval_call(
                env,
                scope,
                ctx,
                *function,
                arguments,
                (fuel - 1) as nat,
            ),
            SpecExpression::Index(l, i) => match eval_expr(env, scope, ctx, *l, (fuel - 1) as nat) {
                Option::Some((env1, Result::Ok(a))) => match eval_expr(
                    env1,
                    scope,
                    ctx,
                    *i,
                    (fuel - 1) as nat,
                ) {
                    Option::Some((env2, Result::Ok(b))) => Option::Some(
                        (env2, index_model(a, b, ctx)),
                    ),
                    other => other,
                },
                other => other,
            },
            SpecExpression::Attribute(target, name) => match eval_expr(
                env,
                scope,
                ctx,
                *target,
                (fuel - 1) as nat,
            ) {
                Option::Some((env1, Result::Err(err))) => Option::Some(
                    (env1, Result::Err(err)),
                ),
                Option::Some((env1, Result::Ok(v))) => if v is ModuleHandle {
                    Option::None
                } else {
                    Option::Some(
                        (
                            env1,
                            Result::Err(
                                spec_raise(
                                    ExceptKind::AttributeError,
                                    crate::expression::attribute_msg(v, name),
                                    ctx,
                                ),
                            ),
                        ),
                    )
                },
                Option::None => Option::None,
            },
        }
    }
}

/// What evaluating one literal yields.
pub open spec fn eval_literal(
    env: Seq<SpecScope>,
    scope: int,
    ctx: Seq<char>,
    l: SpecLiteral,
    fuel: nat,
) -> SpecOutcome
    decreases fuel, 0int, 0int,
{
    if fuel == 0 {
        Option::Some((env, Result::Err(fuel_exception(ctx))))
    } else {
        match l {
            SpecLiteral::Vector(es) => eval_vector_literal(env, scope, ctx, es, (fuel - 1) as nat),
            SpecLiteral::HashMap(ps) => eval_map_literal(env, scope, ctx, ps, (fuel - 1) as nat),
            _ => Option::Some(
                (
                    env,
                    Result::Ok(scalar_literal_value(SpecExpression::Literal(l))->0),
                ),
            ),
        }
    }
}

/// What building a vector literal yields.
pub open spec fn eval_vector_literal(
    env: Seq<SpecScope>,
    scope: int,
    ctx: Seq<char>,
    es: Seq<SpecExpression>,
    fuel: nat,
) -> SpecOutcome
    decreases fuel, 1int, 0int,
{
    if fuel == 0 {
        Option::Some((env, Result::Err(fuel_exception(ctx))))
    } else {
        match eval_exprs(env, scope, ctx, es, fuel) {
            Option::Some((env1, Result::Ok(vs))) => Option::Some(
                (env1, Result::Ok(SpecValue::Vector(vs))),
            ),
            Option::Some((env1, Result::Err(err))) => Option::Some((env1, Result::Err(err))),
            Option::None => Option::None,
        }
    }
}

/// What building a map literal yields.
pub open spec fn eval_map_literal(
    env: Seq<SpecScope>,
    scope: int,
    ctx: Seq<char>,
    ps: Seq<(SpecExpression, SpecExpression)>,
    fuel: nat,
) -> SpecOutcome
    decreases fuel, 1int, 0int,
{
    if fuel == 0 {
        Option::Some((env, Result::Err(fuel_exception(ctx))))
    } else {
        match eval_pairs(env, scope, ctx, ps, Seq::empty(), fuel) {
            Option::Some((env1, Result::Ok(pairs))) => Option::Some(
                (env1, Result::Ok(SpecValue::HashMap(pairs))),
            ),
            Option::Some((env1, Result::Err(err))) => Option::Some((env1, Result::Err(err))),
            Option::None => Option::None,
        }
    }
}

/// What evaluating a sequence of expressions, left to right, yields.
pub open spec fn eval_exprs(
    env: Seq<SpecScope>,
    scope: int,
    ctx: Seq<char>,
    es: Seq<SpecExpression>,
    fuel: nat,
) -> Option<(Seq<SpecScope>, Result<Seq<SpecValue>, SpecException>)>
    decreases fuel, 0int, es.len() as int,
{
    if fuel == 0 {
        Option::Some((env, Result::Err(fuel_exception(ctx))))
    } else if es.len() == 0 {
        Option::Some((env, Result::Ok(Seq::empty())))
    } else {
        match eval_expr(env, scope, ctx, es[0], (fuel - 1) as nat) {
            Option::Some((env1, Result::Ok(v))) => match eval_exprs(
                env1,
                scope,
                ctx,
                es.skip(1),
                fuel,
            ) {
                Option::Some((env2, Result::Ok(vs))) => Option::Some(
                    (env2, Result::Ok(seq![v] + vs)),
                ),
                other => other,
            },
            Option::Some((env1, Result::Err(err))) => Option::Some((env1, Result::Err(err))),
            Option::None => Option::None,
        }
    }
}

/// What evaluating the key/value pairs of a map literal yields, inserting
/// into `acc` as it goes: a later key equal to an earlier one replaces its
/// value, and an unhashable key kind is a type error.
pub open spec fn eval_pairs(
    env: Seq<SpecScope>,
    scope: int,
    ctx: Seq<char>,
    ps: Seq<(SpecExpression, SpecExpression)>,
    acc: Seq<(SpecValue, SpecValue)>,
    fuel: nat,
) -> Option<(Seq<SpecScope>, Result<Seq<(SpecValue, SpecValue)>, SpecException>)>
    decreases fuel, 0int, ps.len() as int,
{
    if fuel == 0 {
        Option::Some((env, Result::Err(fuel_exception(ctx))))
    } else if ps.len() == 0 {
        Option::Some((env, Result::Ok(acc)))
    } else {
        match eval_expr(env, scope, ctx, ps[0].0, (fuel - 1) as nat) {
            Option::Some((env1, Result::Ok(k))) => if !is_hashable(k) {
                Option::Some(
                    (env1, Result::Err(spec_raise(ExceptKind::TypeError, unhashable_msg(k), ctx))),
                )
            } else {
                match eval_expr(env1, scope, ctx, ps[0].1, (fuel - 1) as nat) {
                    Option::Some((env2, Result::Ok(v))) => eval_pairs(
                        env2,
                        scope,
                        ctx,
                        ps.skip(1),
                        spec_map_insert(acc, k, v),
                        fuel,
                    ),
                    Option::Some((env2, Result::Err(err))) => Option::Some(
                        (env2, Result::Err(err)),
                    ),
                    Option::None => Option::None,
                }
            },
            Option::Some((env1, Result::Err(err))) => Option::Some((env1, Result::Err(err))),
            Option::None => Option::None,
        }
    }
}

/// What a call expression yields: the callee evaluates first, then the
/// arguments, then the call protocol applies.
pub open spec fn eval_call(
    env: Seq<SpecScope>,
    scope: int,
    ctx: Seq<char>,
    function: SpecExpression,
    arguments: Seq<SpecExpression>,
    fuel: nat,
) -> SpecOutcome
    decreases fuel, 0int, 0int,
{
    if fuel == 0 {
        Option::Some((env, Result::Err(fuel_exception(ctx))))
    } else {
        match eval_expr(env, scope, ctx, function, (fuel - 1) as nat) {
            Option::Some((env1, Result::Ok(f))) => eval_call_object(
                env1,
                scope,
                ctx,
                f,
                arguments,
                (fuel - 1) as nat,
            ),
            other => other,
        }
    }
}

/// What applying an evaluated callee to argument expressions yields: the
/// arguments evaluate left to right, and the first failing one propagates
/// without the callee ever being applied.
pub open spec fn eval_call_object(
    env: Seq<SpecScope>,
    scope: int,
    ctx: Seq<char>,
    function: SpecValue,
    arguments: Seq<SpecExpression>,
    fuel: nat,
) -> SpecOutcome
    decreases fuel, 1int, 0int,
{
    if fuel == 0 {
        Option::Some((env, Result::Err(fuel_exception(ctx))))
    } else {
        match eval_exprs(env, scope, ctx, arguments, fuel) {
            Option::Some((env1, Result::Ok(args))) => eval_call_value(
                env1,
                ctx,
                function,
                args,
                (fuel - 1) as nat,
            ),
            Option::Some((env1, Result::Err(err))) => Option::Some((env1, Result::Err(err))),
            Option::None => Option::None,
        }
    }
}

/// What applying a callee value to evaluated arguments yields. A matching
/// call runs the body as a block in a fresh scope — parented on the
/// function's captured scope, its parameters bound positionally — and an
/// error from the body propagates with one frame appended. A native callee
/// passes through the host and is not decided here.
pub open spec fn eval_call_value(
    env: Seq<SpecScope>,
    ctx: Seq<char>,
    function: SpecValue,
    args: Seq<SpecValue>,
    fuel: nat,
) -> SpecOutcome
    decreases fuel, 0int, 0int,
{
    if fuel == 0 {
        Option::Some((env, Result::Err(fuel_exception(ctx))))
    } else {
        match function {
            SpecValue::Function { name, params, body, env: fenv } => if args.len()
                != params.len() {
                Option::Some(
                    (
                        env,
                        Result::Err(
                            SpecException {
                                kind: ExceptKind::TypeError,
                                message: arity_msg(
                                    fn_display_name(name),
                                    params.len() as int,
                                    args.len() as int,
                                ),
                                frames: Seq::empty(),
                            },
                        ),
                    ),
                )
            } else {
                let child = env.push(
                    SpecScope {
                        parent: Option::Some(fenv),
                        bindings: positional_bindings(params, args),
                    },
                );
                match eval_block(child, env.len() as int, ctx, body, (fuel - 1) as nat) {
                    Option::Some((env2, Result::Ok(v))) => Option::Some(
                        (env2, Result::Ok(v)),
                    ),
                    Option::Some((env2, Result::Err(err))) => Option::Some(
                        (env2, Result::Err(with_frame(err, ctx))),
                    ),
                    Option::None => Option::None,
                }
            },
            SpecValue::NativeFunction { name, arity, .. } => if arity >= 0 && args.len()
                != arity {
                Option::Some(
                    (
                        env,
                        Result::Err(
                            SpecException {
                                kind: ExceptKind::TypeError,
                                message: arity_msg(name, arity, args.len() as int),
                                frames: Seq::empty(),
                            },
                        ),
                    ),
                )
            } else {
                Option::None
            },
            _ => Option::Some(
                (
                    env,
                    Result::Err(
                        spec_raise(ExceptKind::TypeError, not_callable_msg(function), ctx),
                    ),
                ),
            ),
        }
    }
}

/// What evaluating one statement yields: its value (the expression's for an
/// expression-return, `Null` otherwise) and the environment after it.
pub open spec fn eval_stmt(
    env: Seq<SpecScope>,
    scope: int,
    ctx: Seq<char>,
    s: SpecStatement,
    fuel: nat,
) -> SpecOutcome
    decreases fuel, 0int, 0int,
{
    if fuel == 0 {
        Option::Some((env, Result::Err(fuel_exception(ctx))))
    } else {
        match s {
            SpecStatement::Let(name, init) => match eval_expr(
                env,
                scope,
                ctx,
                init,
                (fuel - 1) as nat,
            ) {
                Option::Some((env1, Result::Ok(v))) => Option::Some(
                    (
                        env1.update(
                            scope,
                            SpecScope {
                                parent: env1[scope].parent,
                                bindings: env1[scope].bindings.insert(name, v),
                            },
                        ),
                        Result::Ok(SpecValue::Null),
                    ),
                ),
                Option::Some((env1, Result::Err(err))) => Option::Some(
                    (
                        env1.update(
                            scope,
                            SpecScope {
                                parent: env1[scope].parent,
                                bindings: env1[scope].bindings.insert(name, SpecValue::Null),
                            },
                        ),
                        Result::Err(err),
                    ),
                ),
                Option::None => Option::None,
            },
            SpecStatement::Fn { name, params, body } => Option::Some(
                (
                    env.update(
                        scope,
                        SpecScope {
                            parent: env[scope].parent,
                            bindings: env[scope].bindings.insert(
                                name,
                                SpecValue::Function {
                                    name: Option::Some(name),
                                    params,
                                    body,
                                    env: scope,
                                },
                            ),
                        },
                    ),
                    Result::Ok(SpecValue::Null),
                ),
            ),
            SpecStatement::Expression(e) => match eval_expr(env, scope, ctx, e, (fuel - 1) as nat) {
                Option::Some((env1, Result::Ok(_))) => Option::Some(
                    (env1, Result::Ok(SpecValue::Null)),
                ),
                other => other,
            },
            SpecStatement::ExpressionReturn(e) => eval_expr(env, scope, ctx, e, (fuel - 1) as nat),
            SpecStatement::Import(_) => Option::None,
        }
    }
}

/// What evaluating a statement sequence yields: left to right, the value of
/// the last expression-return (or `Null`), the first error stopping it with
/// one frame appended for the block.
pub open spec fn eval_block(
    env: Seq<SpecScope>,
    scope: int,
    ctx: Seq<char>,
    stmts: Seq<SpecStatement>,
    fuel: nat,
) -> SpecOutcome
    decreases fuel, 1int, 0int,
{
    if fuel == 0 {
        Option::Some((env, Result::Err(fuel_exception(ctx))))
    } else {
        eval_stmts(env, scope, ctx, stmts, SpecValue::Null, fuel)
    }
}

/// The block's statement loop: `acc` holds the value of the last
/// expression-return seen so far.
pub open spec fn eval_stmts(
    env: Seq<SpecScope>,
    scope: int,
    ctx: Seq<char>,
    stmts: Seq<SpecStatement>,
    acc: SpecValue,
    fuel: nat,
) -> SpecOutcome
    decreases fuel, 0int, stmts.len() as int,
{
    if fuel == 0 {
        Option::Some((env, Result::Err(fuel_exception(ctx))))
    } else if stmts.len() == 0 {
        Option::Some((env, Result::Ok(acc)))
    } else {
        match eval_stmt(env, scope, ctx, stmts[0], (fuel - 1) as nat) {
            Option::Some((env1, Result::Ok(v))) => eval_stmts(
                env1,
                scope,
                ctx,
                stmts.skip(1),
                if stmts[0] is ExpressionReturn {
                    v
                } else {
                    acc
                },
                fuel,
            ),
            Option::Some((env1, Result::Err(err))) => Option::Some(
                (env1, Result::Err(with_frame(err, ctx))),
            ),
            Option::None => Option::None,
        }
    }
}

/// `rest` with `prefix` prepended to its value list, where it has one: the
/// shape an argument- or element-loop's remaining work composes with.
pub open spec fn prepend_values(
    prefix: Seq<SpecValue>,
    rest: Option<(Seq<SpecScope>, Result<Seq<SpecValue>, SpecException>)>,
) -> Option<(Seq<SpecScope>, Result<Seq<SpecValue>, SpecException>)> {
    match rest {
        Option::Some((env, Result::Ok(vs))) => Option::Some((env, Result::Ok(prefix + vs))),
        other => other,
    }
}

} // verus!
