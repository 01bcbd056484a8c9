//! Tests of the native-extension path, with a scripted host standing in for
//! the dynamic-library loader.

use gl_runtime::ast::{AbstractSyntaxTree, Expression, Statement};
use gl_runtime::bignum::Bignum;
use gl_runtime::exception::{ExceptKind, Exception};
use gl_runtime::host::{NativeHost, OpenOutcome};
use gl_runtime::value::Value;
use gl_runtime::Runtime;

const FUEL: u64 = 100_000;

/// A host with one loadable library, `libs/demo.so`, exporting `init`,
/// `count` (any arity) and `pair` (arity 2). It records every invocation.
struct ScriptedHost {
    init_fails: bool,
    invocations: Vec<(u64, String, usize)>,
}

impl ScriptedHost {
    fn new() -> ScriptedHost {
        ScriptedHost { init_fails: false, invocations: Vec::new() }
    }
}

impl NativeHost for ScriptedHost {
    fn open_library(&mut self, path: &String) -> OpenOutcome {
        if path.as_str() == "libs/demo.so" {
            OpenOutcome::Opened(7)
        } else if path.ends_with(".gl") {
            OpenOutcome::SourceModule
        } else {
            OpenOutcome::Failed(format!("cannot open shared object file: {}", path))
        }
    }

    fn resolve(&mut self, module: u64, symbol: &String) -> Option<i64> {
        if module != 7 {
            return None;
        }
        match symbol.as_str() {
            "init" => Some(0),
            "count" => Some(-1),
            "pair" => Some(2),
            _ => None,
        }
    }

    fn invoke(&mut self, module: u64, symbol: &String, args: Vec<Value>) -> Result<Value, Exception> {
        self.invocations.push((module, symbol.clone(), args.len()));
        match symbol.as_str() {
            "init" => {
                if self.init_fails {
                    Err(Exception::in_runtime(
                        ExceptKind::Error,
                        "init refused".to_string(),
                    ))
                } else {
                    Ok(Value::Null)
                }
            },
            "count" => Ok(Value::Integer(Bignum::from_u64(args.len() as u64))),
            "pair" => Ok(Value::Vector(args)),
            _ => Err(Exception::in_runtime(ExceptKind::Error, "no such symbol".to_string())),
        }
    }
}

/// A host whose one native function hands back a malformed value: a bignum
/// with a leading zero limb.
struct MalformedHost;

impl NativeHost for MalformedHost {
    fn open_library(&mut self, _path: &String) -> OpenOutcome {
        OpenOutcome::Opened(1)
    }

    fn resolve(&mut self, _module: u64, _symbol: &String) -> Option<i64> {
        Some(-1)
    }

    fn invoke(
        &mut self,
        _module: u64,
        _symbol: &String,
        _args: Vec<Value>,
    ) -> Result<Value, Exception> {
        Ok(Value::Integer(Bignum { neg: false, limbs: vec![1, 0] }))
    }
}

fn import(path: &str) -> Statement {
    Statement::Import(path.to_string())
}

fn attr(target: Expression, name: &str) -> Expression {
    Expression::Attribute(Box::new(target), name.to_string())
}

fn ident(name: &str) -> Expression {
    Expression::Identifier(name.to_string())
}

fn call(function: Expression, arguments: Vec<Expression>) -> Expression {
    Expression::Call { function: Box::new(function), arguments }
}

fn int_lit(n: i64) -> Expression {
    Expression::Literal(gl_runtime::ast::Literal::Integer(Bignum::from_i64(n)))
}

fn ret(value: Expression) -> Statement {
    Statement::ExpressionReturn(value)
}

fn as_i64(v: &Value) -> i64 {
    match v {
        Value::Integer(b) => {
            let mag: u64 = if b.limbs.is_empty() { 0 } else { b.limbs[0] as u64 };
            if b.neg {
                -(mag as i64)
            } else {
                mag as i64
            }
        },
        other => panic!("expected an integer, got {:?}", other),
    }
}

#[test]
fn import_binds_module_under_base_name() {
    let mut runtime = Runtime::new("main".to_string(), ScriptedHost::new());
    let program = vec![import("libs/demo.so"), ret(ident("demo"))];
    let v = runtime.run(AbstractSyntaxTree { statements: program }, FUEL).unwrap();
    match v {
        Value::ModuleHandle { name, path, module } => {
            assert_eq!(name.as_str(), "demo");
            assert_eq!(path.as_str(), "libs/demo.so");
            assert_eq!(module, 7);
        },
        other => panic!("expected a module handle, got {:?}", other),
    }
}

#[test]
fn import_invokes_init_once() {
    let mut runtime = Runtime::new("main".to_string(), ScriptedHost::new());
    let program = vec![import("libs/demo.so")];
    runtime.run(AbstractSyntaxTree { statements: program }, FUEL).unwrap();
    assert_eq!(runtime.host.invocations, vec![(7u64, "init".to_string(), 0usize)]);
}

#[test]
fn failing_init_propagates_with_a_frame() {
    let mut host = ScriptedHost::new();
    host.init_fails = true;
    let mut runtime = Runtime::new("main".to_string(), host);
    let program = vec![import("libs/demo.so")];
    let e = runtime.run(AbstractSyntaxTree { statements: program }, FUEL).unwrap_err();
    assert_eq!(e.kind, ExceptKind::Error);
    assert_eq!(e.message.as_str(), "init refused");
    // One frame from the import site, one from the enclosing block.
    assert_eq!(e.traceback.len(), 2);
}

#[test]
fn open_failure_carries_the_host_message() {
    let mut runtime = Runtime::new("main".to_string(), ScriptedHost::new());
    let program = vec![import("libs/absent.so")];
    let e = runtime.run(AbstractSyntaxTree { statements: program }, FUEL).unwrap_err();
    assert_eq!(e.kind, ExceptKind::Error);
    assert_eq!(e.message.as_str(), "cannot open shared object file: libs/absent.so");
}

#[test]
fn source_module_import_is_not_implemented() {
    let mut runtime = Runtime::new("main".to_string(), ScriptedHost::new());
    let program = vec![import("libs/module.gl")];
    let e = runtime.run(AbstractSyntaxTree { statements: program }, FUEL).unwrap_err();
    assert_eq!(e.kind, ExceptKind::Error);
    assert_eq!(e.message.as_str(), "import of source modules is not implemented");
}

#[test]
fn attribute_access_resolves_a_native_function() {
    let mut runtime = Runtime::new("main".to_string(), ScriptedHost::new());
    let program = vec![import("libs/demo.so"), ret(attr(ident("demo"), "pair"))];
    let v = runtime.run(AbstractSyntaxTree { statements: program }, FUEL).unwrap();
    match v {
        Value::NativeFunction { name, arity, module } => {
            assert_eq!(name.as_str(), "pair");
            assert_eq!(arity, 2);
            assert_eq!(module, 7);
        },
        other => panic!("expected a native function, got {:?}", other),
    }
}

#[test]
fn missing_attribute_raises_attribute_error() {
    let mut runtime = Runtime::new("main".to_string(), ScriptedHost::new());
    let program = vec![import("libs/demo.so"), ret(attr(ident("demo"), "absent"))];
    let e = runtime.run(AbstractSyntaxTree { statements: program }, FUEL).unwrap_err();
    assert_eq!(e.kind, ExceptKind::AttributeError);
    assert_eq!(e.message.as_str(), "'module' object has no attribute 'absent'");
}

#[test]
fn attribute_on_a_non_module_raises_attribute_error() {
    let mut runtime = Runtime::new("main".to_string(), ScriptedHost::new());
    let program = vec![ret(attr(int_lit(1), "anything"))];
    let e = runtime.run(AbstractSyntaxTree { statements: program }, FUEL).unwrap_err();
    assert_eq!(e.kind, ExceptKind::AttributeError);
    assert_eq!(e.message.as_str(), "'int' object has no attribute 'anything'");
}

#[test]
fn native_call_passes_arguments_through() {
    let mut runtime = Runtime::new("main".to_string(), ScriptedHost::new());
    let program = vec![
        import("libs/demo.so"),
        ret(call(attr(ident("demo"), "count"), vec![int_lit(1), int_lit(2), int_lit(3)])),
    ];
    let v = runtime.run(AbstractSyntaxTree { statements: program }, FUEL).unwrap();
    assert_eq!(as_i64(&v), 3);
}

#[test]
fn native_arity_mismatch_raises_type_error() {
    let mut runtime = Runtime::new("main".to_string(), ScriptedHost::new());
    let program = vec![
        import("libs/demo.so"),
        ret(call(attr(ident("demo"), "pair"), vec![int_lit(1)])),
    ];
    let e = runtime.run(AbstractSyntaxTree { statements: program }, FUEL).unwrap_err();
    assert_eq!(e.kind, ExceptKind::TypeError);
    assert_eq!(e.message.as_str(), "pair() expected 2 argument, found 1");
}

#[test]
fn negative_native_arity_accepts_any_count() {
    let mut runtime = Runtime::new("main".to_string(), ScriptedHost::new());
    let program = vec![import("libs/demo.so"), ret(call(attr(ident("demo"), "count"), vec![]))];
    let v = runtime.run(AbstractSyntaxTree { statements: program }, FUEL).unwrap();
    assert_eq!(as_i64(&v), 0);
}

#[test]
fn malformed_native_result_is_rejected() {
    let mut runtime = Runtime::new("main".to_string(), MalformedHost);
    let program = vec![
        import("anything.so"),
        ret(call(attr(ident("anything"), "f"), vec![])),
    ];
    let e = runtime.run(AbstractSyntaxTree { statements: program }, FUEL).unwrap_err();
    assert_eq!(e.kind, ExceptKind::Error);
    assert_eq!(e.message.as_str(), "native function returned a malformed value");
}

#[test]
fn module_name_strips_directories_and_extension() {
    let mut runtime = Runtime::new("main".to_string(), MalformedHost);
    let program = vec![import("a/b/widget.native.so"), ret(ident("widget.native"))];
    let v = runtime.run(AbstractSyntaxTree { statements: program }, FUEL).unwrap();
    assert!(matches!(v, Value::ModuleHandle { .. }));
}
