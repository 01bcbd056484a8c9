//! Statement evaluation.
//!
//! `Let` binds the evaluated value in the current scope; if the initializer
//! fails, the name is first bound to `Null` — so later lookups see a defined
//! but null binding — and the error then propagates. `Fn` binds a `Function`
//! that carries its own name and captures the current scope. An expression
//! statement evaluates and discards; an expression-return statement's value
//! becomes the enclosing block's candidate result. `Import` loads a native
//! extension through the host and binds a `ModuleHandle` under the file's
//! base name.

use vstd::prelude::*;

use crate::ast::{clone_params, clone_statements, stmt_wf, SpecStatement, Statement};
use crate::exception::{spec_raise, ExceptKind, Exception, ExceptionPoint, Position};
use crate::host::{module_name, spec_module_name, NativeHost, OpenOutcome};
use crate::env::SpecScope;
use crate::expression::{expr_fuel, simple_expr_value};
use crate::value::{SpecValue, Value};
use crate::{is_fuel_error, lemma_evolves_trans, res_view, ResultRuntime, Runtime};

verus! {

impl<H: NativeHost> Runtime<H> {
    /// Evaluates one statement. Every statement form but `ExpressionReturn`
    /// yields `Null`; what each binds in the current scope is stated below.
    /// A function declaration cannot fail (given one unit of fuel); a `Let`
    /// with a scalar-literal initializer binds exactly that scalar; and a
    /// failed `Let` always leaves the name bound to `Null` — the fuel error
    /// pre-empts that binding only at fuel zero.
    pub fn statement(&mut self, statement: &Statement, fuel: u64) -> (r: ResultRuntime)
        requires
            old(self).wf(),
            stmt_wf(*statement),
        ensures
            final(self).evolves_from(*old(self)),
            r is Ok ==> final(self).value_ok(r->Ok_0),
            match statement@ {
                SpecStatement::Let(name, _) => match r {
                    Result::Ok(v) => v@ == SpecValue::Null && final(self).bindings_at(
                        old(self).scope as int,
                    ).contains_key(name) && final(self).bindings_at(old(self).scope as int) == old(self).bindings_at(old(self).scope as int).insert(
                        name,
                        final(self).bindings_at(old(self).scope as int)[name],
                    ),
                    Result::Err(e) => (fuel == 0 && is_fuel_error(e@) && final(self).env_unchanged(
                        *old(self),
                    )) || final(self).bindings_at(old(self).scope as int) == old(self).bindings_at(
                        old(self).scope as int,
                    ).insert(name, SpecValue::Null),
                },
                SpecStatement::Fn { name, params, body } => match r {
                    Result::Ok(v) => v@ == SpecValue::Null && final(self).env@ == old(
                        self,
                    ).env@.update(
                        old(self).scope as int,
                        SpecScope {
                            parent: old(self).env@[old(self).scope as int].parent,
                            bindings: old(self).bindings_at(old(self).scope as int).insert(
                                name,
                                SpecValue::Function {
                                    name: Option::Some(name),
                                    params: params,
                                    body: body,
                                    env: old(self).scope as int,
                                },
                            ),
                        },
                    ),
                    Result::Err(e) => fuel == 0 && is_fuel_error(e@) && final(self).env_unchanged(
                        *old(self),
                    ),
                },
                SpecStatement::Expression(_) => r is Ok ==> r->Ok_0@ == SpecValue::Null,
                SpecStatement::ExpressionReturn(_) => true,
                SpecStatement::Import(path) => r is Ok ==> r->Ok_0@ == SpecValue::Null && final(self).bindings_at(old(self).scope as int).contains_key(spec_module_name(path)) && final(self).bindings_at(old(self).scope as int) == old(self).bindings_at(
                    old(self).scope as int,
                ).insert(
                    spec_module_name(path),
                    final(self).bindings_at(old(self).scope as int)[spec_module_name(path)],
                ) && (final(self).bindings_at(old(self).scope as int)[spec_module_name(path)]
                    matches SpecValue::ModuleHandle { name: hn, path: hp, module: _ } && hn
                    == spec_module_name(path) && hp == path),
            },
            statement@ matches SpecStatement::Let(name, init) ==> (simple_expr_value(
                old(self).env@,
                old(self).scope as int,
                old(self).module_context@,
                init,
            ) matches Option::Some(out) ==> (fuel >= expr_fuel(init) + 1 ==> match out {
                Result::Ok(v) => r matches Result::Ok(rv) && rv@ == SpecValue::Null
                    && final(self).env@ == old(self).env@.update(
                    old(self).scope as int,
                    SpecScope {
                        parent: old(self).env@[old(self).scope as int].parent,
                        bindings: old(self).bindings_at(old(self).scope as int).insert(name, v),
                    },
                ),
                Result::Err(err) => r matches Result::Err(e2) && e2@ == err && final(self).env@
                    == old(self).env@.update(
                    old(self).scope as int,
                    SpecScope {
                        parent: old(self).env@[old(self).scope as int].parent,
                        bindings: old(self).bindings_at(old(self).scope as int).insert(
                            name,
                            SpecValue::Null,
                        ),
                    },
                ),
            })),
            statement@ matches SpecStatement::Expression(e) ==> (simple_expr_value(
                old(self).env@,
                old(self).scope as int,
                old(self).module_context@,
                e,
            ) matches Option::Some(out) ==> (fuel >= expr_fuel(e) + 1
                ==> final(self).env_unchanged(*old(self)) && match out {
                Result::Ok(_) => r matches Result::Ok(rv) && rv@ == SpecValue::Null,
                Result::Err(err) => r matches Result::Err(e2) && e2@ == err,
            })),
            statement@ matches SpecStatement::ExpressionReturn(e) ==> (simple_expr_value(
                old(self).env@,
                old(self).scope as int,
                old(self).module_context@,
                e,
            ) matches Option::Some(out) ==> (fuel >= expr_fuel(e) + 1
                ==> final(self).env_unchanged(*old(self)) && res_view(r) == out)),
            r matches Result::Err(e) ==> crate::error_frames_ok(e@, old(self).module_context@),
            crate::semantics::eval_stmt(
                old(self).env@,
                old(self).scope as int,
                old(self).module_context@,
                statement@,
                fuel as nat,
            ) matches Option::Some(o) ==> final(self).env@ == o.0
                && res_view(r) == o.1,
        decreases fuel,
    {
        if fuel == 0 {
            return Result::Err(self.fuel_error());
        }
        let ghost pre = *self;
        match statement {
            Statement::Let(name, value) => {
                let value_object = match self.expression(value, (fuel - 1) as u64) {
                    Result::Ok(v) => v,
                    Result::Err(e) => {
                        let ghost mid = *self;
                        self.env.set(self.scope, name.clone(), Value::Null);
                        proof {
                            assert(self.wf());
                            assert(self.evolves_from(mid));
                            lemma_evolves_trans(pre, mid, *self);
                            assert(mid.env@[pre.scope as int].bindings == pre.env@[pre.scope as int].bindings);
                        }
                        return Result::Err(e);
                    },
                };
                let ghost mid = *self;
                self.env.set(self.scope, name.clone(), value_object);
                proof {
                    assert(self.evolves_from(mid));
                    lemma_evolves_trans(pre, mid, *self);
                    assert(mid.env@[pre.scope as int].bindings
                        == pre.env@[pre.scope as int].bindings);
                }
                Result::Ok(Value::Null)
            },
            Statement::Fn { name, params, body } => {
                let function = Value::Function {
                    name: Option::Some(name.clone()),
                    params: clone_params(params),
                    body: clone_statements(body),
                    env: self.scope,
                };
                proof {
                    assert(crate::value::val_wf(function));
                    assert(crate::value::envs_ok(function@, self.env@.len() as int));
                }
                self.env.set(self.scope, name.clone(), function);
                proof {
                    assert(self.evolves_from(pre));
                }
                Result::Ok(Value::Null)
            },
            Statement::Expression(expression) => {
                match self.expression(expression, (fuel - 1) as u64) {
                    Result::Ok(_) => Result::Ok(Value::Null),
                    Result::Err(e) => Result::Err(e),
                }
            },
            Statement::ExpressionReturn(expression) => self.expression(
                expression,
                (fuel - 1) as u64,
            ),
            Statement::Import(path) => self.import_module(path),
        }
    }

    /// Loads the native extension library at `path` through the host and
    /// binds a `ModuleHandle` under the file's base name. A path the host
    /// reports as a source module is delegated elsewhere and raises a generic
    /// `Error` here; so does a library the host cannot open, with the host's
    /// message. If the library exports `init`, it is invoked once with no
    /// arguments, and an error from it propagates with one frame.
    fn import_module(&mut self, path: &String) -> (r: ResultRuntime)
        requires
            old(self).wf(),
        ensures
            final(self).evolves_from(*old(self)),
            r is Ok ==> final(self).value_ok(r->Ok_0) && r->Ok_0@ == SpecValue::Null && final(self).bindings_at(old(self).scope as int).contains_key(spec_module_name(path@)) && final(self).bindings_at(old(self).scope as int) == old(self).bindings_at(
                old(self).scope as int,
            ).insert(
                spec_module_name(path@),
                final(self).bindings_at(old(self).scope as int)[spec_module_name(path@)],
            ) && (final(self).bindings_at(old(self).scope as int)[spec_module_name(path@)]
                matches SpecValue::ModuleHandle { name: hn, path: hp, module: _ } && hn
                == spec_module_name(path@) && hp == path@),
            r matches Result::Err(e) ==> final(self).env_unchanged(*old(self)) && e@.frames.len()
                >= 1 && e@.frames.last() == crate::exception::spec_frame(
                old(self).module_context@,
            ),
    {
        let ghost pre = *self;
        let id: u64 = match self.host.open_library(path) {
            OpenOutcome::Opened(id) => id,
            OpenOutcome::SourceModule => {
                return Result::Err(
                    Exception::raise(
                        ExceptKind::Error,
                        String::from_str("import of source modules is not implemented"),
                        &self.module_context,
                    ),
                );
            },
            OpenOutcome::Failed(message) => {
                return Result::Err(
                    Exception::raise(ExceptKind::Error, message, &self.module_context),
                );
            },
        };
        let init_name = String::from_str("init");
        match self.host.resolve(id, &init_name) {
            Option::Some(_) => {
                match self.host.invoke(id, &init_name, Vec::new()) {
                    Result::Ok(_) => {},
                    Result::Err(mut e) => {
                        e.push(
                            ExceptionPoint::new(self.module_context.clone(), Position::new(0, 0)),
                        );
                        return Result::Err(e);
                    },
                }
            },
            Option::None => {},
        }
        let name = module_name(path.as_str());
        let handle = Value::ModuleHandle { name: name.clone(), path: path.clone(), module: id };
        self.env.set(self.scope, name, handle);
        proof {
            assert(self.evolves_from(pre));
        }
        Result::Ok(Value::Null)
    }
}

} // verus!
