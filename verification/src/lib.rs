//! A tree-walking evaluator for a small dynamically-typed scripting language.
//!
//! The crate consumes an already-parsed statement sequence
//! (`ast::AbstractSyntaxTree`) and produces a runtime value (`value::Value`)
//! or a propagated exception with a traceback (`exception::Exception`).
//! Lexing, parsing and the command line are outside collaborators; so is the
//! loading of native extension libraries, which the evaluator reaches only
//! through the `host::NativeHost` trait.
//!
//! Because the verifier demands termination and an evaluated program may
//! recurse forever, every evaluation entry point takes a fuel bound; each
//! nested evaluation step consumes one unit, and a run that exhausts it ends
//! in a generic error that says so. The contracts tie the whole evaluation
//! down: every evaluator function's result and final environment equal the
//! big-step model (`semantics`) whenever that model is decided — it is
//! undecided exactly where the native host takes part — and the fuel error
//! pre-empts an outcome the library alone decides only at fuel zero.

use vstd::prelude::*;

pub mod ast;
pub mod bignum;
pub mod block;
pub mod call;
pub mod env;
pub mod exception;
pub mod expression;
pub mod host;
pub mod identifier;
pub mod index;
pub mod infix;
pub mod laws;
pub mod literal;
pub mod prefix;
pub mod rational;
pub mod semantics;
pub mod statement;
pub mod value;

use crate::ast::{stmts_wf, AbstractSyntaxTree};
use crate::env::EnvArena;
use crate::exception::{spec_frame, ExceptKind, Exception, SpecException};
use crate::host::NativeHost;
use crate::value::{envs_ok, val_wf, SpecValue, Value};

verus! {

/// What an evaluation step yields: a value, or a propagated exception.
pub type ResultRuntime = Result<Value, Exception>;

/// The mirror of a runtime result.
pub open spec fn res_view(r: ResultRuntime) -> Result<SpecValue, SpecException> {
    match r {
        Result::Ok(v) => Result::Ok(v@),
        Result::Err(e) => Result::Err(e@),
    }
}

/// The exception that says the fuel bound ran out.
pub open spec fn is_fuel_error(e: SpecException) -> bool {
    e.kind == ExceptKind::Error && e.message == "evaluation fuel exhausted"@
}

/// What holds of every exception the evaluator lets out: its frames are
/// empty (an arity error is constructed so) or end with the frame of the
/// module the evaluator runs — frames are only ever appended here.
pub open spec fn error_frames_ok(e: SpecException, ctx: Seq<char>) -> bool {
    e.frames.len() == 0 || e.frames.last() == spec_frame(ctx)
}

/// The evaluator: the scope arena, the scope it is currently evaluating in,
/// the module name its traceback frames carry, and the native-extension host.
pub struct Runtime<H: NativeHost> {
    pub env: EnvArena,
    pub scope: usize,
    pub module_context: String,
    pub host: H,
}

impl<H: NativeHost> Runtime<H> {
    /// The arena is sound and the current scope lies inside it.
    pub open spec fn wf(&self) -> bool {
        &&& self.env.wf()
        &&& (self.scope as int) < self.env@.len()
    }

    /// A value the evaluator may hand out or store: well-formed, with every
    /// captured scope inside this arena.
    pub open spec fn value_ok(&self, v: Value) -> bool {
        val_wf(v) && envs_ok(v@, self.env@.len() as int)
    }

    /// What every evaluation step preserves: the current scope and module
    /// stand; scopes are only added; no scope changes its parent; and no
    /// already-existing scope but the current one changes its bindings. A
    /// closure body therefore mutates only scopes of its own call frames.
    pub open spec fn evolves_from(&self, pre: Self) -> bool {
        &&& self.wf()
        &&& self.scope == pre.scope
        &&& self.module_context@ == pre.module_context@
        &&& self.env@.len() >= pre.env@.len()
        &&& (forall|i: int|
            0 <= i < pre.env@.len() ==> (#[trigger] self.env@[i]).parent == pre.env@[i].parent)
        &&& (forall|i: int|
            0 <= i < pre.env@.len() && i != pre.scope ==> (#[trigger] self.env@[i]).bindings
                == pre.env@[i].bindings)
    }

    /// The environment did not change at all.
    pub open spec fn env_unchanged(&self, pre: Self) -> bool {
        self.env@ == pre.env@
    }

    /// The bindings of scope `i`.
    pub open spec fn bindings_at(&self, i: int) -> Map<Seq<char>, SpecValue> {
        self.env@[i].bindings
    }

    /// No scope that already existed changed its bindings. Expression
    /// evaluation guarantees this: only statements bind, and they bind in
    /// their own frame's scope, which for any nested call is a fresh one.
    pub open spec fn bindings_unchanged(&self, pre: Self) -> bool {
        forall|i: int|
            0 <= i < pre.env@.len() ==> (#[trigger] self.env@[i]).bindings == pre.env@[i].bindings
    }
}

/// `evolves_from` composes.
pub proof fn lemma_evolves_trans<H: NativeHost>(a: Runtime<H>, b: Runtime<H>, c: Runtime<H>)
    requires
        b.evolves_from(a),
        c.evolves_from(b),
    ensures
        c.evolves_from(a),
{
    assert forall|i: int| 0 <= i < a.env@.len() implies (#[trigger] c.env@[i]).parent
        == a.env@[i].parent by {
        assert(b.env@[i].parent == a.env@[i].parent);
    }
    assert forall|i: int| 0 <= i < a.env@.len() && i != a.scope implies (#[trigger] c.env@[i]).bindings
        == a.env@[i].bindings by {
        assert(b.env@[i].bindings == a.env@[i].bindings);
    }
}

/// `evolves_from` with `bindings_unchanged` composes.
pub proof fn lemma_eval_trans<H: NativeHost>(a: Runtime<H>, b: Runtime<H>, c: Runtime<H>)
    requires
        b.evolves_from(a),
        b.bindings_unchanged(a),
        c.evolves_from(b),
        c.bindings_unchanged(b),
    ensures
        c.evolves_from(a),
        c.bindings_unchanged(a),
{
    lemma_evolves_trans(a, b, c);
    assert forall|i: int| 0 <= i < a.env@.len() implies (#[trigger] c.env@[i]).bindings
        == a.env@[i].bindings by {
        assert(b.env@[i].bindings == a.env@[i].bindings);
    }
}

impl<H: NativeHost> Runtime<H> {
    /// A fresh evaluator: one empty root scope, no bindings.
    pub fn new(module_context: String, host: H) -> (r: Self)
        ensures
            r.wf(),
            r.scope == 0,
            r.env@.len() == 1,
            r.env@[0].bindings == Map::<Seq<char>, SpecValue>::empty(),
            r.module_context@ == module_context@,
    {
        Runtime { env: EnvArena::single_scope(), scope: 0, module_context, host }
    }

    /// An evaluator over an existing arena, evaluating in the given scope.
    pub fn from_env(env: EnvArena, scope: usize, module_context: String, host: H) -> (r: Self)
        requires
            env.wf(),
            scope < env@.len(),
        ensures
            r.wf(),
            r.env@ == env@,
            r.scope == scope,
            r.module_context@ == module_context@,
    {
        Runtime { env, scope, module_context, host }
    }

    /// The exception for an exhausted fuel bound, with one frame here.
    pub(crate) fn fuel_error(&self) -> (r: Exception)
        ensures
            r@ == crate::exception::spec_raise(
                ExceptKind::Error,
                "evaluation fuel exhausted"@,
                self.module_context@,
            ),
            is_fuel_error(r@),
    {
        Exception::raise(
            ExceptKind::Error,
            String::from_str("evaluation fuel exhausted"),
            &self.module_context,
        )
    }

    /// Runs a parsed program: its statements in order, in the current scope.
    /// The result is the value of the last `ExpressionReturn` statement of
    /// the sequence, or `Null` if it has none.
    pub fn run(&mut self, ast: AbstractSyntaxTree, fuel: u64) -> (r: ResultRuntime)
        requires
            old(self).wf(),
            stmts_wf(ast.statements@),
        ensures
            final(self).evolves_from(*old(self)),
            match r {
                Result::Ok(v) => final(self).value_ok(v),
                Result::Err(e) => e@.frames.len() >= 1 && e@.frames.last() == spec_frame(
                    old(self).module_context@,
                ),
            },
            fuel >= 1 && ast.statements@.len() == 0 ==> (r matches Result::Ok(v) && v@
                == SpecValue::Null),
            fuel >= 2 && (forall|j: int|
                0 <= j < ast.statements@.len() ==> (#[trigger] ast.statements@[j])@ is Fn) ==> r
                is Ok,
            crate::block::simple_block_value(
                old(self).env@,
                old(self).scope as int,
                old(self).module_context@,
                ast@,
                SpecValue::Null,
            ) matches Option::Some(bo) ==> (fuel >= crate::block::block_fuel(ast@)
                ==> final(self).env@ == bo.0 && res_view(r) == bo.1),
            crate::semantics::eval_block(
                old(self).env@,
                old(self).scope as int,
                old(self).module_context@,
                ast@,
                fuel as nat,
            ) matches Option::Some(o) ==> final(self).env@ == o.0 && res_view(r) == o.1,
    {
        self.block(ast.statements, fuel)
    }

}

} // verus!
