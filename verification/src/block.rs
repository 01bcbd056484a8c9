//! Block evaluation: an ordered statement sequence.
//!
//! Besides the frame conditions, the block's contract carries two models.
//! `semantics::eval_block` is the exact fuel-indexed mirror of evaluation:
//! whenever it is decided — that is, whenever no native host is touched —
//! the block's result and final environment equal it, calls and collection
//! literals included. `simple_block_value`, kept beside it, is the
//! fuel-independent view of straight-line programs (no calls at all): for
//! those it gives the same answer at every sufficient fuel bound.

use vstd::prelude::*;

use crate::ast::{stmts_wf, SpecStatement, Statement};
use crate::env::SpecScope;
use crate::exception::{spec_frame, ExceptionPoint, Position, SpecException};
use crate::expression::{expr_fuel, simple_expr_value};
use crate::host::NativeHost;
use crate::value::{SpecValue, Value};
use crate::{lemma_evolves_trans, res_view, ResultRuntime, Runtime};

verus! {

/// One straight-line statement against a given environment: the environment
/// after it, and either the block result so far (updated by an
/// expression-return) or the error it raises, with the frames it was raised
/// with. A statement outside the straight-line fragment is out.
pub open spec fn simple_stmt_step(
    env: Seq<SpecScope>,
    scope: int,
    ctx: Seq<char>,
    s: SpecStatement,
    acc: SpecValue,
) -> Option<(Seq<SpecScope>, Result<SpecValue, SpecException>)> {
    match s {
        SpecStatement::Let(name, init) => match simple_expr_value(env, scope, ctx, init) {
            Option::Some(Result::Ok(v)) => Option::Some(
                (
                    env.update(
                        scope,
                        SpecScope {
                            parent: env[scope].parent,
                            bindings: env[scope].bindings.insert(name, v),
                        },
                    ),
                    Result::Ok(acc),
                ),
            ),
            Option::Some(Result::Err(err)) => Option::Some(
                (
                    env.update(
                        scope,
                        SpecScope {
                            parent: env[scope].parent,
                            bindings: env[scope].bindings.insert(name, SpecValue::Null),
                        },
                    ),
                    Result::Err(err),
                ),
            ),
            Option::None => Option::None,
        },
        SpecStatement::Fn { name, params, body } => Option::Some(
            (
                env.update(
                    scope,
                    SpecScope {
                        parent: env[scope].parent,
                        bindings: env[scope].bindings.insert(
                            name,
                            SpecValue::Function {
                                name: Option::Some(name),
                                params,
                                body,
                                env: scope,
                            },
                        ),
                    },
                ),
                Result::Ok(acc),
            ),
        ),
        SpecStatement::Expression(e) => match simple_expr_value(env, scope, ctx, e) {
            Option::Some(Result::Ok(_)) => Option::Some((env, Result::Ok(acc))),
            Option::Some(Result::Err(err)) => Option::Some((env, Result::Err(err))),
            Option::None => Option::None,
        },
        SpecStatement::ExpressionReturn(e) => match simple_expr_value(env, scope, ctx, e) {
            Option::Some(Result::Ok(v)) => Option::Some((env, Result::Ok(v))),
            Option::Some(Result::Err(err)) => Option::Some((env, Result::Err(err))),
            Option::None => Option::None,
        },
        SpecStatement::Import(_) => Option::None,
    }
}

/// A run of a straight-line statement sequence: the environment threads
/// left to right, the accumulator holds the last expression-return's value,
/// and the first error stops it with one frame appended for this block.
pub open spec fn simple_block_value(
    env: Seq<SpecScope>,
    scope: int,
    ctx: Seq<char>,
    stmts: Seq<SpecStatement>,
    acc: SpecValue,
) -> Option<(Seq<SpecScope>, Result<SpecValue, SpecException>)>
    decreases stmts.len(),
{
    if stmts.len() == 0 {
        Option::Some((env, Result::Ok(acc)))
    } else {
        match simple_stmt_step(env, scope, ctx, stmts[0], acc) {
            Option::Some((env2, Result::Ok(acc2))) => simple_block_value(
                env2,
                scope,
                ctx,
                stmts.skip(1),
                acc2,
            ),
            Option::Some((env2, Result::Err(err))) => Option::Some(
                (
                    env2,
                    Result::Err(
                        SpecException {
                            kind: err.kind,
                            message: err.message,
                            frames: err.frames.push(spec_frame(ctx)),
                        },
                    ),
                ),
            ),
            Option::None => Option::None,
        }
    }
}

/// Fuel that suffices for one straight-line statement.
pub open spec fn stmt_fuel(s: SpecStatement) -> nat {
    match s {
        SpecStatement::Let(_, e) => expr_fuel(e) + 1,
        SpecStatement::Fn { .. } => 1,
        SpecStatement::Expression(e) => expr_fuel(e) + 1,
        SpecStatement::ExpressionReturn(e) => expr_fuel(e) + 1,
        SpecStatement::Import(_) => 1,
    }
}

/// Fuel that suffices for a straight-line statement sequence: one unit for
/// the block, and enough for its longest statement.
pub open spec fn block_fuel(stmts: Seq<SpecStatement>) -> nat
    decreases stmts.len(),
{
    if stmts.len() == 0 {
        1
    } else {
        let f0 = stmt_fuel(stmts[0]) + 1;
        let fr = block_fuel(stmts.skip(1));
        if f0 >= fr {
            f0
        } else {
            fr
        }
    }
}

impl<H: NativeHost> Runtime<H> {
    /// Evaluates a statement sequence left to right; the block's value is the
    /// value of its last `ExpressionReturn`, or `Null` without one. The first
    /// error stops it and propagates with one frame appended here. An empty
    /// sequence yields `Null`, and one of function declarations alone cannot
    /// fail, fuel permitting.
    pub fn block(&mut self, statements: Vec<Statement>, fuel: u64) -> (r: ResultRuntime)
        requires
            old(self).wf(),
            stmts_wf(statements@),
        ensures
            final(self).evolves_from(*old(self)),
            match r {
                Result::Ok(v) => final(self).value_ok(v) && ((forall|j: int|
                    0 <= j < statements@.len() ==> !((#[trigger] statements@[j])@
                        is ExpressionReturn)) ==> v@ == SpecValue::Null),
                Result::Err(e) => e@.frames.len() >= 1 && e@.frames.last() == spec_frame(
                    old(self).module_context@,
                ),
            },
            fuel >= 1 && statements@.len() == 0 ==> (r matches Result::Ok(v) && v@
                == SpecValue::Null),
            fuel >= 2 && (forall|j: int|
                0 <= j < statements@.len() ==> (#[trigger] statements@[j])@ is Fn) ==> r is Ok,
            simple_block_value(
                old(self).env@,
                old(self).scope as int,
                old(self).module_context@,
                crate::ast::stmts_view(statements@),
                SpecValue::Null,
            ) matches Option::Some(bo) ==> (fuel >= block_fuel(crate::ast::stmts_view(statements@))
                ==> final(self).env@ == bo.0 && res_view(r) == bo.1),
            crate::semantics::eval_block(
                old(self).env@,
                old(self).scope as int,
                old(self).module_context@,
                crate::ast::stmts_view(statements@),
                fuel as nat,
            ) matches Option::Some(o) ==> final(self).env@ == o.0
                && res_view(r) == o.1,
        decreases fuel,
    {
        if fuel == 0 {
            return Result::Err(self.fuel_error());
        }
        let mut result: Value = Value::Null;
        let mut i: usize = 0;
        proof {
            assert(crate::ast::stmts_view(statements@).skip(0) =~= crate::ast::stmts_view(
                statements@,
            ));
        }
        while i < statements.len()
            invariant
                crate::semantics::eval_stmts(
                    old(self).env@,
                    old(self).scope as int,
                    old(self).module_context@,
                    crate::ast::stmts_view(statements@),
                    SpecValue::Null,
                    fuel as nat,
                ) matches Option::Some(w) ==> crate::semantics::eval_stmts(
                    self.env@,
                    old(self).scope as int,
                    old(self).module_context@,
                    crate::ast::stmts_view(statements@).skip(i as int),
                    result@,
                    fuel as nat,
                ) == Option::Some(w),
                stmts_wf(statements@),
                fuel >= 1,
                i <= statements.len(),
                self.evolves_from(*old(self)),
                self.value_ok(result),
                self.module_context@ == old(self).module_context@,
                (forall|j: int|
                    0 <= j < i ==> !((#[trigger] statements@[j])@ is ExpressionReturn)) ==> result@
                    == SpecValue::Null,
                simple_block_value(
                    old(self).env@,
                    old(self).scope as int,
                    old(self).module_context@,
                    crate::ast::stmts_view(statements@),
                    SpecValue::Null,
                ) matches Option::Some(bo) ==> (fuel >= block_fuel(
                    crate::ast::stmts_view(statements@),
                ) ==> (fuel >= block_fuel(
                    crate::ast::stmts_view(statements@).skip(i as int),
                ) && simple_block_value(
                    self.env@,
                    old(self).scope as int,
                    old(self).module_context@,
                    crate::ast::stmts_view(statements@).skip(i as int),
                    result@,
                ) == Option::Some(bo))),
            decreases statements.len() - i,
        {
            let ghost mid = *self;
            let ghost sv = crate::ast::stmts_view(statements@);
            let ghost whole = simple_block_value(
                old(self).env@,
                old(self).scope as int,
                old(self).module_context@,
                sv,
                SpecValue::Null,
            );
            let ghost on_track = whole is Some && fuel >= block_fuel(sv);
            proof {
                assert(sv.skip(i as int)[0] == sv[i as int]);
                assert(sv[i as int] == statements@[i as int]@);
                assert(sv.skip(i as int).skip(1) =~= sv.skip(i as int + 1));
            }
            let is_return = matches!(&statements[i], Statement::ExpressionReturn(_));
            match self.statement(&statements[i], (fuel - 1) as u64) {
                Result::Ok(v) => {
                    proof {
                        lemma_evolves_trans(*old(self), mid, *self);
                        if on_track {
                            let step = simple_stmt_step(
                                mid.env@,
                                old(self).scope as int,
                                old(self).module_context@,
                                sv[i as int],
                                result@,
                            );
                            assert(step is Some);
                            let pair = step->0;
                            assert(pair.1 is Ok);
                            assert(self.env@ == pair.0);
                            if is_return {
                                assert(pair.1->Ok_0 == v@);
                            } else {
                                assert(pair.1->Ok_0 == result@);
                            }
                        }
                    }
                    if is_return {
                        result = v;
                    } else {
                        proof {
                            crate::value::lemma_envs_ok_mono(
                                result@,
                                mid.env@.len() as int,
                                self.env@.len() as int,
                            );
                        }
                    }
                },
                Result::Err(mut e) => {
                    let ghost before_push = e@;
                    e.push(
                        ExceptionPoint::new(self.module_context.clone(), Position::new(0, 0)),
                    );
                    proof {
                        lemma_evolves_trans(*old(self), mid, *self);
                        if fuel >= 2 && forall|j: int|
                            0 <= j < statements@.len() ==> (#[trigger] statements@[j])@ is Fn {
                            assert(statements@[i as int]@ is Fn);
                            assert(false);
                        }
                        if on_track {
                            let step = simple_stmt_step(
                                mid.env@,
                                old(self).scope as int,
                                old(self).module_context@,
                                sv[i as int],
                                result@,
                            );
                            assert(step is Some);
                            let pair = step->0;
                            assert(pair.1 is Err);
                            assert(before_push == pair.1->Err_0);
                            assert(self.env@ == pair.0);
                            assert(e@.frames =~= before_push.frames.push(
                                spec_frame(old(self).module_context@),
                            ));
                            let goal = whole->0;
                            assert(goal.1 == Result::<SpecValue, SpecException>::Err(e@));
                        }
                    }
                    return Result::Err(e);
                },
            }
            i = i + 1;
        }
        proof {
            assert(crate::ast::stmts_view(statements@).skip(i as int)
                =~= Seq::<SpecStatement>::empty());
        }
        Result::Ok(result)
    }
}

} // verus!
