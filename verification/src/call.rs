//! The call protocol.
//!
//! The callee expression evaluates first, then each argument left to right.
//! A `Function` demands exactly as many arguments as it has parameters; the
//! arity error is raised before anything of the body runs. The body then
//! evaluates as a block in a fresh child of the function's captured scope —
//! lexical scoping, not the caller's scope — with the parameters bound
//! positionally, and an error from it propagates with one frame appended. A
//! `NativeFunction` demands its declared arity unless that is negative (any
//! count), and its result is validated before it re-enters the evaluator.
//! Any other callee kind is a `TypeError`.

use vstd::prelude::*;

use crate::ast::{exprs_wf, expr_wf, Expression, SpecExpression};
use crate::bignum::{dec_int, big_to_decimal, Bignum};
use crate::exception::{spec_raise, ExceptKind, Exception, ExceptionPoint, Position, SpecException};
use crate::host::NativeHost;
use crate::value::{
    check_value, envs_ok, envs_ok_seq, lemma_envs_ok_mono, lemma_envs_ok_seq_mono, spec_kind_name,
    val_wf, vals_view, vals_wf, SpecValue, Value,
};
use crate::{is_fuel_error, lemma_eval_trans, lemma_evolves_trans, res_view, ResultRuntime, Runtime};

verus! {

/// The name an arity error reports: the function's own, or a placeholder.
pub open spec fn fn_display_name(name: Option<Seq<char>>) -> Seq<char> {
    match name {
        Option::Some(n) => n,
        Option::None => "<anonymous>"@,
    }
}

/// The message of the error a wrong argument count raises.
pub open spec fn arity_msg(name: Seq<char>, expected: int, found: int) -> Seq<char> {
    name + "() expected "@ + dec_int(expected) + " argument, found "@ + dec_int(found)
}

/// The message of the error a non-callable callee raises.
pub open spec fn not_callable_msg(v: SpecValue) -> Seq<char> {
    "'"@ + spec_kind_name(v) + "' object is not callable"@
}

/// Builds the wrong-argument-count message executably.
fn arity_message(name: &str, expected: u64, found: u64) -> (m: String)
    ensures
        m@ == arity_msg(name@, expected as int, found as int),
{
    let mut m = String::from_str(name);
    m.append("() expected ");
    let e = big_to_decimal(&Bignum::from_u64(expected));
    m.append(e.as_str());
    m.append(" argument, found ");
    let f = big_to_decimal(&Bignum::from_u64(found));
    m.append(f.as_str());
    m
}

impl<H: NativeHost> Runtime<H> {
    /// Evaluates the callee, then the arguments, then applies the call
    /// protocol. For a function-literal callee with no arguments the outcome
    /// is pinned below: a parameter mismatch is exactly the arity error, and
    /// an empty body yields `Null` (given fuel for those few steps).
    pub fn call(&mut self, function: &Expression, arguments: &Vec<Expression>, fuel: u64) -> (r:
        ResultRuntime)
        requires
            old(self).wf(),
            expr_wf(*function),
            exprs_wf(arguments@),
        ensures
            final(self).evolves_from(*old(self)),
            final(self).bindings_unchanged(*old(self)),
            r is Ok ==> final(self).value_ok(r->Ok_0),
            function@ matches SpecExpression::Fn { params, .. } ==> (arguments@.len() == 0
                && params.len() != 0 && fuel >= 3 ==> final(self).env_unchanged(*old(self)) && (
            r matches Result::Err(e) && e@ == (SpecException {
                kind: ExceptKind::TypeError,
                message: arity_msg("<anonymous>"@, params.len() as int, 0),
                frames: Seq::empty(),
            }))),
            function@ matches SpecExpression::Fn { params, body } ==> (arguments@.len() == 0
                && params.len() == 0 && body.len() == 0 && fuel >= 4 ==> (r matches Result::Ok(v)
                && v@ == SpecValue::Null)),
            r matches Result::Err(e) ==> crate::error_frames_ok(e@, old(self).module_context@),
            crate::semantics::eval_call(
                old(self).env@,
                old(self).scope as int,
                old(self).module_context@,
                function@,
                crate::ast::exprs_view(arguments@),
                fuel as nat,
            ) matches Option::Some(o) ==> final(self).env@ == o.0
                && res_view(r) == o.1,
        decreases fuel,
    {
        if fuel == 0 {
            return Result::Err(self.fuel_error());
        }
        let callee = match self.expression(function, (fuel - 1) as u64) {
            Result::Ok(v) => v,
            Result::Err(e) => {
                return Result::Err(e);
            },
        };
        let ghost mid = *self;
        let r = self.call_object(callee, arguments, (fuel - 1) as u64);
        proof {
            lemma_eval_trans(*old(self), mid, *self);
        }
        r
    }

    /// Evaluates the arguments left to right, then applies the call protocol
    /// to the already-evaluated callee. With no arguments nothing recurses
    /// before the protocol, so its verdicts — the arity error, the
    /// not-callable error, `Null` from an empty body — are pinned exactly.
    pub fn call_object(&mut self, function: Value, arguments: &Vec<Expression>, fuel: u64) -> (r:
        ResultRuntime)
        requires
            old(self).wf(),
            val_wf(function),
            envs_ok(function@, old(self).env@.len() as int),
            exprs_wf(arguments@),
        ensures
            final(self).evolves_from(*old(self)),
            final(self).bindings_unchanged(*old(self)),
            r is Ok ==> final(self).value_ok(r->Ok_0),
            function@ matches SpecValue::Function { name, params, .. } ==> (arguments@.len() == 0
                && params.len() != 0 && fuel >= 2 ==> final(self).env_unchanged(*old(self)) && (
            r matches Result::Err(e) && e@ == (SpecException {
                kind: ExceptKind::TypeError,
                message: arity_msg(fn_display_name(name), params.len() as int, 0),
                frames: Seq::empty(),
            }))),
            function@ matches SpecValue::Function { params, body, .. } ==> (arguments@.len() == 0
                && params.len() == 0 && body.len() == 0 && fuel >= 3 ==> (r matches Result::Ok(v)
                && v@ == SpecValue::Null)),
            function@ matches SpecValue::NativeFunction { name, arity, .. } ==> (arguments@.len()
                == 0 && arity > 0 && fuel >= 2 ==> final(self).env_unchanged(*old(self)) && (r
            matches Result::Err(e) && e@ == (SpecException {
                kind: ExceptKind::TypeError,
                message: arity_msg(name, arity, 0),
                frames: Seq::empty(),
            }))),
            !(function@ is Function || function@ is NativeFunction) ==> (arguments@.len() == 0
                && fuel >= 2 ==> final(self).env_unchanged(*old(self)) && (r matches Result::Err(
                e,
            ) && e@ == spec_raise(
                ExceptKind::TypeError,
                not_callable_msg(function@),
                old(self).module_context@,
            ))),
            r matches Result::Err(e) ==> crate::error_frames_ok(e@, old(self).module_context@),
            crate::semantics::eval_call_object(
                old(self).env@,
                old(self).scope as int,
                old(self).module_context@,
                function@,
                crate::ast::exprs_view(arguments@),
                fuel as nat,
            ) matches Option::Some(o) ==> final(self).env@ == o.0
                && res_view(r) == o.1,
        decreases fuel,
    {
        if fuel == 0 {
            return Result::Err(self.fuel_error());
        }
        let mut args: Vec<Value> = Vec::new();
        let mut i: usize = 0;
        proof {
            assert(crate::ast::exprs_view(arguments@).skip(0) =~= crate::ast::exprs_view(
                arguments@,
            ));
            assert(vals_view(args@) =~= Seq::<SpecValue>::empty());
            let first = crate::semantics::eval_exprs(
                self.env@,
                self.scope as int,
                self.module_context@,
                crate::ast::exprs_view(arguments@),
                fuel as nat,
            );
            match first {
                Option::Some((e2, Result::Ok(vs))) => {
                    assert(Seq::<SpecValue>::empty() + vs =~= vs);
                },
                _ => {},
            }
        }
        while i < arguments.len()
            invariant
                exprs_wf(arguments@),
                fuel >= 1,
                i <= arguments.len(),
                self.evolves_from(*old(self)),
                self.bindings_unchanged(*old(self)),
                i == 0 ==> self.env@ == old(self).env@,
                val_wf(function),
                envs_ok(function@, old(self).env@.len() as int),
                args@.len() == i as int,
                vals_wf(args@),
                envs_ok_seq(vals_view(args@), self.env@.len() as int),
                crate::semantics::eval_exprs(
                    old(self).env@,
                    old(self).scope as int,
                    old(self).module_context@,
                    crate::ast::exprs_view(arguments@),
                    fuel as nat,
                ) matches Option::Some(w) ==> crate::semantics::prepend_values(
                    vals_view(args@),
                    crate::semantics::eval_exprs(
                        self.env@,
                        old(self).scope as int,
                        old(self).module_context@,
                        crate::ast::exprs_view(arguments@).skip(i as int),
                        fuel as nat,
                    ),
                ) == Option::Some(w),
            decreases arguments.len() - i,
        {
            let ghost mid = *self;
            let ghost es_view = crate::ast::exprs_view(arguments@);
            proof {
                assert(es_view.skip(i as int)[0] == es_view[i as int]);
                assert(es_view[i as int] == arguments@[i as int]@);
                assert(es_view.skip(i as int).skip(1) =~= es_view.skip(i as int + 1));
            }
            let value = match self.expression(&arguments[i], (fuel - 1) as u64) {
                Result::Ok(v) => v,
                Result::Err(e) => {
                    proof {
                        lemma_eval_trans(*old(self), mid, *self);
                    }
                    return Result::Err(e);
                },
            };
            proof {
                lemma_eval_trans(*old(self), mid, *self);
                lemma_envs_ok_seq_mono(
                    vals_view(args@),
                    mid.env@.len() as int,
                    self.env@.len() as int,
                );
                let whole = crate::semantics::eval_exprs(
                    old(self).env@,
                    old(self).scope as int,
                    old(self).module_context@,
                    es_view,
                    fuel as nat,
                );
                if whole is Some {
                    let rest = crate::semantics::eval_exprs(
                        self.env@,
                        old(self).scope as int,
                        old(self).module_context@,
                        es_view.skip(i as int + 1),
                        fuel as nat,
                    );
                    assert(crate::semantics::eval_exprs(
                        mid.env@,
                        old(self).scope as int,
                        old(self).module_context@,
                        es_view.skip(i as int),
                        fuel as nat,
                    ) == crate::semantics::prepend_values(seq![value@], rest));
                    match rest {
                        Option::Some((e2, Result::Ok(vs))) => {
                            assert(vals_view(args@) + (seq![value@] + vs) =~= vals_view(
                                args@,
                            ).push(value@) + vs);
                        },
                        _ => {},
                    }
                }
            }
            let ghost before = args@;
            args.push(value);
            proof {
                assert(vals_view(args@) =~= vals_view(before).push(value@));
                assert forall|j: int| 0 <= j < args@.len() implies val_wf(#[trigger] args@[j]) by {
                    if j < before.len() {
                        assert(args@[j] == before[j]);
                        assert(val_wf(before[j]));
                    } else {
                        assert(args@[j] == value);
                    }
                }
                assert forall|j: int| 0 <= j < vals_view(args@).len() implies envs_ok(
                    #[trigger] vals_view(args@)[j],
                    self.env@.len() as int,
                ) by {
                    assert(vals_view(args@)[j] == args@[j]@);
                    if j < before.len() {
                        assert(args@[j] == before[j]);
                        assert(vals_view(before)[j] == before[j]@);
                        assert(envs_ok(vals_view(before)[j], self.env@.len() as int));
                    } else {
                        assert(args@[j] == value);
                    }
                }
            }
            i = i + 1;
        }
        let ghost mid = *self;
        proof {
            lemma_envs_ok_mono(function@, old(self).env@.len() as int, self.env@.len() as int);
            assert(crate::ast::exprs_view(arguments@).skip(i as int) =~= Seq::<
                crate::ast::SpecExpression,
            >::empty());
            let whole = crate::semantics::eval_exprs(
                old(self).env@,
                old(self).scope as int,
                old(self).module_context@,
                crate::ast::exprs_view(arguments@),
                fuel as nat,
            );
            if whole is Some {
                assert(vals_view(args@) + Seq::<SpecValue>::empty() =~= vals_view(args@));
            }
        }
        let r = self.call_value(function, args, (fuel - 1) as u64);
        proof {
            lemma_eval_trans(*old(self), mid, *self);
        }
        r
    }

    /// Applies a callee value to already-evaluated arguments.
    ///
    /// A wrong argument count against a `Function`'s parameters or a
    /// `NativeFunction`'s non-negative arity raises exactly the `TypeError`
    /// naming the function, the expected count and the given count — before
    /// any of the body runs, so the environment is exactly as it was. A
    /// non-callable callee raises a `TypeError` naming its kind, likewise
    /// without effect. (Only at fuel zero does the fuel error pre-empt
    /// these.) A matching call runs the body in a fresh scope whose parent is
    /// the function's captured scope — and stays so ever after — and an
    /// empty body yields `Null`.
    pub fn call_value(&mut self, function: Value, args: Vec<Value>, fuel: u64) -> (r:
        ResultRuntime)
        requires
            old(self).wf(),
            val_wf(function),
            envs_ok(function@, old(self).env@.len() as int),
            vals_wf(args@),
            envs_ok_seq(vals_view(args@), old(self).env@.len() as int),
        ensures
            final(self).evolves_from(*old(self)),
            final(self).bindings_unchanged(*old(self)),
            r is Ok ==> final(self).value_ok(r->Ok_0),
            function@ matches SpecValue::Function { name, params, .. } ==> (args@.len()
                != params.len() ==> final(self).env_unchanged(*old(self)) && (r matches
            Result::Err(e) && ((fuel == 0 && is_fuel_error(e@)) || e@ == (SpecException {
                kind: ExceptKind::TypeError,
                message: arity_msg(fn_display_name(name), params.len() as int, args@.len() as int),
                frames: Seq::empty(),
            })))),
            function@ matches SpecValue::NativeFunction { name, arity, .. } ==> (arity >= 0
                && args@.len() != arity ==> final(self).env_unchanged(*old(self)) && (r matches
            Result::Err(e) && ((fuel == 0 && is_fuel_error(e@)) || e@ == (SpecException {
                kind: ExceptKind::TypeError,
                message: arity_msg(name, arity, args@.len() as int),
                frames: Seq::empty(),
            })))),
            !(function@ is Function || function@ is NativeFunction) ==> final(self).env_unchanged(
                *old(self),
            ) && (r matches Result::Err(e) && ((fuel == 0 && is_fuel_error(e@)) || e@
                == spec_raise(
                ExceptKind::TypeError,
                not_callable_msg(function@),
                old(self).module_context@,
            ))),
            function@ matches SpecValue::Function { env, params, .. } ==> (args@.len()
                == params.len() && fuel >= 1 ==> final(self).env@.len() > old(self).env@.len()
                && final(self).env@[old(self).env@.len() as int].parent == Option::Some(env)),
            function@ matches SpecValue::Function { params, body, .. } ==> (args@.len()
                == params.len() && body.len() == 0 && fuel >= 2 ==> (r matches Result::Ok(v)
                && v@ == SpecValue::Null)),
            function@ matches SpecValue::Function { params, .. } ==> (args@.len() == params.len()
                && fuel >= 1 ==> (r matches Result::Err(e) ==> e@.frames.len() >= 1
                && e@.frames.last() == crate::exception::spec_frame(old(self).module_context@))),
            function@ matches SpecValue::NativeFunction { arity, .. } ==> ((arity < 0 || args@.len()
                == arity) && fuel >= 1 ==> (r matches Result::Err(e) ==> e@.frames.len() >= 1
                && e@.frames.last() == crate::exception::spec_frame(old(self).module_context@))),
            r matches Result::Err(e) ==> crate::error_frames_ok(e@, old(self).module_context@),
            crate::semantics::eval_call_value(
                old(self).env@,
                old(self).module_context@,
                function@,
                vals_view(args@),
                fuel as nat,
            ) matches Option::Some(o) ==> final(self).env@ == o.0
                && res_view(r) == o.1,
        decreases fuel,
    {
        if fuel == 0 {
            return Result::Err(self.fuel_error());
        }
        match function {
            Value::Function { name, params, body, env } => {
                if args.len() != params.len() {
                    let display: &str = match &name {
                        Option::Some(n) => n.as_str(),
                        Option::None => "<anonymous>",
                    };
                    let m = arity_message(display, params.len() as u64, args.len() as u64);
                    return Result::Err(Exception::in_runtime(ExceptKind::TypeError, m));
                }
        let child = self.env.new_scope(env);
                proof {
                    assert(self.env@.len() == old(self).env@.len() + 1);
                }
        let mut i: usize = 0;
                while i < params.len()
                    invariant
                        i <= params.len(),
                        params@.len() == args@.len(),
                        vals_wf(args@),
                        envs_ok_seq(vals_view(args@), old(self).env@.len() as int),
                        self.env.wf(),
                        (child as int) < self.env@.len(),
                        self.env@.len() == old(self).env@.len() + 1,
                        child as int == old(self).env@.len(),
                        self.scope == old(self).scope,
                        self.module_context@ == old(self).module_context@,
                        (old(self).scope as int) < old(self).env@.len(),
                        self.env@[child as int].parent == Option::Some(env as int),
                        forall|k: int|
                            0 <= k < old(self).env@.len() ==> (#[trigger] self.env@[k]).parent
                                == old(self).env@[k].parent,
                        forall|k: int|
                            0 <= k < old(self).env@.len() ==> (#[trigger] self.env@[k]).bindings
                                == old(self).env@[k].bindings,
                        self.env@ == old(self).env@.push(
                            crate::env::SpecScope {
                                parent: Option::Some(env as int),
                                bindings: crate::semantics::positional_bindings(
                                    crate::ast::params_view(params@).take(i as int),
                                    vals_view(args@).take(i as int),
                                ),
                            },
                        ),
                    decreases params.len() - i,
                {
                    let p = params[i].clone();
                    let a = args[i].clone();
                    proof {
                        assert(val_wf(args@[i as int]));
                        assert(vals_view(args@)[i as int] == args@[i as int]@);
                        assert(envs_ok(vals_view(args@)[i as int], old(self).env@.len() as int));
                        lemma_envs_ok_mono(args@[i as int]@, old(self).env@.len() as int, self.env@.len() as int);
                    }
                    let ghost before_env = self.env@;
                    self.env.set(child, p, a);
                    proof {
                        assert forall|k: int| 0 <= k < old(self).env@.len() implies (#[trigger] self.env@[k]).bindings
                            == old(self).env@[k].bindings by {
                            assert(self.env@[k] == before_env[k]);
                        }
                        assert forall|k: int| 0 <= k < old(self).env@.len() implies (#[trigger] self.env@[k]).parent
                            == old(self).env@[k].parent by {
                            assert(self.env@[k] == before_env[k]);
                        }
                        let pv = crate::ast::params_view(params@);
                        let av = vals_view(args@);
                        assert(p@ == pv[i as int]);
                        assert(a@ == av[i as int]);
                        assert(pv.take(i as int + 1).drop_last() =~= pv.take(i as int));
                        assert(av.take(i as int + 1).drop_last() =~= av.take(i as int));
                        assert(pv.take(i as int + 1).last() == pv[i as int]);
                        assert(av.take(i as int + 1).last() == av[i as int]);
                        assert(crate::semantics::positional_bindings(
                            pv.take(i as int + 1),
                            av.take(i as int + 1),
                        ) == crate::semantics::positional_bindings(
                            pv.take(i as int),
                            av.take(i as int),
                        ).insert(pv[i as int], av[i as int]));
                        assert(self.env@ =~= old(self).env@.push(
                            crate::env::SpecScope {
                                parent: Option::Some(env as int),
                                bindings: crate::semantics::positional_bindings(
                                    pv.take(i as int + 1),
                                    av.take(i as int + 1),
                                ),
                            },
                        ));
                    }
                    i = i + 1;
                }
                proof {
                    assert(crate::ast::params_view(params@).take(i as int)
                        =~= crate::ast::params_view(params@));
                    assert(vals_view(args@).take(i as int) =~= vals_view(args@));
                }
                let saved = self.scope;
                self.scope = child;
                let ghost at_body = *self;
                let res = self.block(body, (fuel - 1) as u64);
                let ghost after_body = *self;
                self.scope = saved;
                proof {
                    assert(after_body.evolves_from(at_body));
                    assert(self.wf());
                    assert forall|k: int|
                        0 <= k < old(self).env@.len() && k != old(self).scope implies (#[trigger] self.env@[k]).bindings
                        == old(self).env@[k].bindings by {
                        assert(k != child as int);
                        assert(self.env@[k].bindings == at_body.env@[k].bindings);
                        assert(at_body.env@[k].bindings == old(self).env@[k].bindings);
                    }
                    assert forall|k: int| 0 <= k < old(self).env@.len() implies (#[trigger] self.env@[k]).parent
                        == old(self).env@[k].parent by {
                        assert(self.env@[k].parent == at_body.env@[k].parent);
                    }
                    assert(self.evolves_from(*old(self)));
                }
                match res {
                    Result::Ok(v) => Result::Ok(v),
                    Result::Err(mut e) => {
                        e.push(
                            ExceptionPoint::new(self.module_context.clone(), Position::new(0, 0)),
                        );
                        Result::Err(e)
                    },
                }
            },
            Value::NativeFunction { name, arity, module } => {
                if arity >= 0 && (args.len() as u64) != (arity as u64) {
                    let m = arity_message(name.as_str(), arity as u64, args.len() as u64);
                    return Result::Err(Exception::in_runtime(ExceptKind::TypeError, m));
                }
                match self.host.invoke(module, &name, args) {
                    Result::Ok(v) => {
                        let n = self.env.scope_count();
                        if check_value(&v, n) {
                            Result::Ok(v)
                        } else {
                            Result::Err(
                                Exception::raise(
                                    ExceptKind::Error,
                                    String::from_str(
                                        "native function returned a malformed value",
                                    ),
                                    &self.module_context,
                                ),
                            )
                        }
                    },
                    Result::Err(mut e) => {
                        e.push(
                            ExceptionPoint::new(self.module_context.clone(), Position::new(0, 0)),
                        );
                        Result::Err(e)
                    },
                }
            },
            other => {
                let mut m = String::from_str("'");
                m.append(other.kind_name());
                m.append("' object is not callable");
                Result::Err(Exception::raise(ExceptKind::TypeError, m, &self.module_context))
            },
        }
    }
}

} // verus!
