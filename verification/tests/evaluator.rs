//! End-to-end tests of the evaluator over hand-built statement trees.

use gl_runtime::ast::{AbstractSyntaxTree, Expression, Infix, Literal, Prefix, Statement};
use gl_runtime::bignum::Bignum;
use gl_runtime::exception::{ExceptKind, Exception};
use gl_runtime::env::EnvArena;
use gl_runtime::host::NoExtensions;
use gl_runtime::rational::Rat;
use gl_runtime::value::Value;
use gl_runtime::Runtime;

const FUEL: u64 = 100_000;

fn int_lit(n: i64) -> Expression {
    Expression::Literal(Literal::Integer(Bignum::from_i64(n)))
}

fn float(num: i64, den: i64) -> Expression {
    let r = Rat::from_parts(&Bignum::from_i64(num), &Bignum::from_i64(den));
    Expression::Literal(Literal::Float(r))
}

fn boolean(b: bool) -> Expression {
    Expression::Literal(Literal::Boolean(b))
}

fn null() -> Expression {
    Expression::Literal(Literal::Null)
}

fn text(s: &str) -> Expression {
    Expression::Literal(Literal::Str(s.to_string()))
}

fn ident(name: &str) -> Expression {
    Expression::Identifier(name.to_string())
}

fn infix(op: Infix, left: Expression, right: Expression) -> Expression {
    Expression::Infix(op, Box::new(left), Box::new(right))
}

fn prefix(op: Prefix, inner: Expression) -> Expression {
    Expression::Prefix(op, Box::new(inner))
}

fn index(target: Expression, idx: Expression) -> Expression {
    Expression::Index(Box::new(target), Box::new(idx))
}

fn call(function: Expression, arguments: Vec<Expression>) -> Expression {
    Expression::Call { function: Box::new(function), arguments }
}

fn vector(items: Vec<Expression>) -> Expression {
    Expression::Literal(Literal::Vector(items))
}

fn hashmap(pairs: Vec<(Expression, Expression)>) -> Expression {
    Expression::Literal(Literal::HashMap(pairs))
}

fn let_stmt(name: &str, value: Expression) -> Statement {
    Statement::Let(name.to_string(), value)
}

fn ret(value: Expression) -> Statement {
    Statement::ExpressionReturn(value)
}

fn expr_stmt(value: Expression) -> Statement {
    Statement::Expression(value)
}

fn fn_stmt(name: &str, params: &[&str], body: Vec<Statement>) -> Statement {
    Statement::Fn {
        name: name.to_string(),
        params: params.iter().map(|p| p.to_string()).collect(),
        body,
    }
}

fn eval(statements: Vec<Statement>) -> Result<Value, Exception> {
    let mut runtime = Runtime::new("main".to_string(), NoExtensions);
    runtime.run(AbstractSyntaxTree { statements }, FUEL)
}

fn as_i64(v: &Value) -> i64 {
    match v {
        Value::Integer(b) => {
            let mut mag: u64 = 0;
            if !b.limbs.is_empty() {
                mag += b.limbs[0] as u64;
            }
            if b.limbs.len() > 1 {
                mag += (b.limbs[1] as u64) << 32;
            }
            assert!(b.limbs.len() <= 2, "integer too large for the test helper");
            if b.neg {
                -(mag as i64)
            } else {
                mag as i64
            }
        },
        other => panic!("expected an integer, got {:?}", other),
    }
}

fn as_str(v: &Value) -> &str {
    match v {
        Value::Str(s) => s.as_str(),
        other => panic!("expected a string, got {:?}", other),
    }
}

fn as_bool(v: &Value) -> bool {
    match v {
        Value::Boolean(b) => *b,
        other => panic!("expected a boolean, got {:?}", other),
    }
}

fn expect_err(r: Result<Value, Exception>) -> Exception {
    match r {
        Ok(v) => panic!("expected an error, got {:?}", v),
        Err(e) => e,
    }
}

#[test]
fn precedence_program_evaluates_to_eight() {
    // let x = 2; let y = 3; x + y * 2  (with `*` binding tighter)
    let program = vec![
        let_stmt("x", int_lit(2)),
        let_stmt("y", int_lit(3)),
        ret(infix(Infix::Plus, ident("x"), infix(Infix::Multiply, ident("y"), int_lit(2)))),
    ];
    let v = eval(program).unwrap();
    assert_eq!(as_i64(&v), 8);
}

#[test]
fn function_declaration_and_call() {
    // fn add(a, b) { a + b } add(1, 2)
    let program = vec![
        fn_stmt("add", &["a", "b"], vec![ret(infix(Infix::Plus, ident("a"), ident("b")))]),
        ret(call(ident("add"), vec![int_lit(1), int_lit(2)])),
    ];
    let v = eval(program).unwrap();
    assert_eq!(as_i64(&v), 3);
}

#[test]
fn undefined_identifier_raises_name_error() {
    let e = expect_err(eval(vec![ret(ident("foo"))]));
    assert_eq!(e.kind, ExceptKind::NameError);
    assert_eq!(e.message.as_str(), "name 'foo' is not defined");
}

#[test]
fn name_error_traceback_grows_at_boundaries() {
    let e = expect_err(eval(vec![ret(ident("foo"))]));
    // One frame from the error site, one from the enclosing block.
    assert_eq!(e.traceback.len(), 2);
    assert_eq!(e.traceback[0].module.as_str(), "main");
    assert_eq!(e.traceback[1].module.as_str(), "main");
}

#[test]
fn integer_division_is_exact_rational() {
    let v = eval(vec![ret(infix(Infix::Divide, int_lit(1), int_lit(2)))]).unwrap();
    match v {
        Value::Float(r) => {
            assert!(!r.num.neg);
            assert_eq!(r.num.limbs, vec![1]);
            assert_eq!(r.den.limbs, vec![2]);
        },
        other => panic!("expected a float, got {:?}", other),
    }
}

#[test]
fn division_never_truncates() {
    // 7 / 2 == 3.5, not 3: compare against the rational literal 7/2.
    let v = eval(vec![ret(infix(Infix::Equal, infix(Infix::Divide, int_lit(7), int_lit(2)), float(7, 2)))])
        .unwrap();
    assert!(as_bool(&v));
    let v = eval(vec![ret(infix(Infix::Equal, infix(Infix::Divide, int_lit(7), int_lit(2)), int_lit(3)))])
        .unwrap();
    assert!(!as_bool(&v));
}

#[test]
fn division_by_zero_is_an_error() {
    let e = expect_err(eval(vec![ret(infix(Infix::Divide, int_lit(1), int_lit(0)))]));
    assert_eq!(e.kind, ExceptKind::Error);
    assert_eq!(e.message.as_str(), "division by zero");
}

#[test]
fn string_repeat_equals_repeated_concat() {
    let lhs = eval(vec![ret(infix(Infix::Multiply, text("ab"), int_lit(3)))]).unwrap();
    let rhs = eval(vec![ret(infix(
        Infix::Plus,
        infix(Infix::Plus, text("ab"), text("ab")),
        text("ab"),
    ))])
    .unwrap();
    assert_eq!(as_str(&lhs), "ababab");
    assert_eq!(as_str(&lhs), as_str(&rhs));
}

#[test]
fn string_repeat_zero_is_empty() {
    let v = eval(vec![ret(infix(Infix::Multiply, text("ab"), int_lit(0)))]).unwrap();
    assert_eq!(as_str(&v), "");
}

#[test]
fn string_repeat_negative_is_empty() {
    let v = eval(vec![ret(infix(Infix::Multiply, text("ab"), int_lit(-1)))]).unwrap();
    assert_eq!(as_str(&v), "");
}

#[test]
fn string_repeat_by_boolean() {
    let v = eval(vec![ret(infix(Infix::Multiply, text("ab"), boolean(true)))]).unwrap();
    assert_eq!(as_str(&v), "ab");
    let v = eval(vec![ret(infix(Infix::Multiply, text("ab"), boolean(false)))]).unwrap();
    assert_eq!(as_str(&v), "");
}

#[test]
fn string_concatenation() {
    let v = eval(vec![ret(infix(Infix::Plus, text("foo"), text("bar")))]).unwrap();
    assert_eq!(as_str(&v), "foobar");
}

#[test]
fn string_comparison_is_a_type_error() {
    // The coercion matrix defines only `+` for string pairs.
    let e = expect_err(eval(vec![ret(infix(Infix::Equal, text("a"), text("a")))]));
    assert_eq!(e.kind, ExceptKind::TypeError);
    assert_eq!(e.message.as_str(), "'==' not supported between instances of 'str' and 'str'");
}

#[test]
fn wrong_argument_count_raises_type_error() {
    let program = vec![
        fn_stmt("f", &["a", "b"], vec![ret(ident("a"))]),
        ret(call(ident("f"), vec![int_lit(1)])),
    ];
    let e = expect_err(eval(program));
    assert_eq!(e.kind, ExceptKind::TypeError);
    assert_eq!(e.message.as_str(), "f() expected 2 argument, found 1");
}

#[test]
fn wrong_argument_count_runs_nothing_of_the_body() {
    // The body would rebind `probe` in outer's scope if it ran; the arity
    // error comes first, so `probe` keeps its value.
    let program = vec![
        let_stmt("probe", int_lit(1)),
        fn_stmt("f", &["a"], vec![expr_stmt(ident("no_such_name"))]),
        expr_stmt(call(ident("f"), vec![])),
    ];
    let e = expect_err(eval(program));
    assert_eq!(e.kind, ExceptKind::TypeError);
    assert_eq!(e.message.as_str(), "f() expected 1 argument, found 0");
}

#[test]
fn anonymous_function_arity_message() {
    let anon = Expression::Fn { params: vec!["a".to_string()], body: vec![ret(ident("a"))] };
    let e = expect_err(eval(vec![ret(call(anon, vec![]))]));
    assert_eq!(e.kind, ExceptKind::TypeError);
    assert_eq!(e.message.as_str(), "<anonymous>() expected 1 argument, found 0");
}

#[test]
fn closures_observe_live_mutation() {
    // fn outer() { let x = 1; fn inner() { x } let x = 2; inner() }
    let program = vec![
        fn_stmt(
            "outer",
            &[],
            vec![
                let_stmt("x", int_lit(1)),
                fn_stmt("inner", &[], vec![ret(ident("x"))]),
                let_stmt("x", int_lit(2)),
                ret(call(ident("inner"), vec![])),
            ],
        ),
        ret(call(ident("outer"), vec![])),
    ];
    let v = eval(program).unwrap();
    assert_eq!(as_i64(&v), 2);
}

#[test]
fn calls_use_lexical_scoping() {
    // The callee resolves names in its captured scope, not the caller's.
    let program = vec![
        let_stmt("x", int_lit(10)),
        fn_stmt("get_x", &[], vec![ret(ident("x"))]),
        fn_stmt(
            "shadow",
            &[],
            vec![let_stmt("x", int_lit(99)), ret(call(ident("get_x"), vec![]))],
        ),
        ret(call(ident("shadow"), vec![])),
    ];
    let v = eval(program).unwrap();
    assert_eq!(as_i64(&v), 10);
}

#[test]
fn negative_vector_index_raises_index_error() {
    let v123 = vector(vec![int_lit(1), int_lit(2), int_lit(3)]);
    let e = expect_err(eval(vec![ret(index(v123, int_lit(-1)))]));
    assert_eq!(e.kind, ExceptKind::IndexError);
    assert_eq!(e.message.as_str(), "vec index out of range");
}

#[test]
fn out_of_range_vector_index_raises_index_error() {
    let v123 = vector(vec![int_lit(1), int_lit(2), int_lit(3)]);
    let e = expect_err(eval(vec![ret(index(v123, int_lit(5)))]));
    assert_eq!(e.kind, ExceptKind::IndexError);
    assert_eq!(e.message.as_str(), "vec index out of range");
}

#[test]
fn vector_index_in_range() {
    let v123 = vector(vec![int_lit(10), int_lit(20), int_lit(30)]);
    let v = eval(vec![ret(index(v123, int_lit(1)))]).unwrap();
    assert_eq!(as_i64(&v), 20);
}

#[test]
fn absent_map_key_raises_key_error() {
    let map = hashmap(vec![(text("a"), int_lit(1))]);
    let e = expect_err(eval(vec![ret(index(map, text("b")))]));
    assert_eq!(e.kind, ExceptKind::KeyError);
    assert!(e.message.as_str().contains("b"));
}

#[test]
fn present_map_key_resolves() {
    let map = hashmap(vec![(text("a"), int_lit(1)), (text("b"), int_lit(2))]);
    let v = eval(vec![ret(index(map, text("b")))]).unwrap();
    assert_eq!(as_i64(&v), 2);
}

#[test]
fn numeric_map_keys_compare_by_value() {
    // A map key `1` answers to the promoted equal `true`.
    let map = hashmap(vec![(int_lit(1), text("one"))]);
    let v = eval(vec![ret(index(map, boolean(true)))]).unwrap();
    assert_eq!(as_str(&v), "one");
}

#[test]
fn later_map_key_wins() {
    let map = hashmap(vec![(text("a"), int_lit(1)), (text("a"), int_lit(2))]);
    let v = eval(vec![ret(index(map, text("a")))]).unwrap();
    assert_eq!(as_i64(&v), 2);
}

#[test]
fn unhashable_map_key_raises_type_error() {
    let map = hashmap(vec![(vector(vec![]), int_lit(1))]);
    let e = expect_err(eval(vec![expr_stmt(map)]));
    assert_eq!(e.kind, ExceptKind::TypeError);
    assert_eq!(e.message.as_str(), "unhashable type: 'vec'");
}

#[test]
fn indexing_a_non_collection_raises_type_error() {
    let e = expect_err(eval(vec![ret(index(int_lit(1), int_lit(0)))]));
    assert_eq!(e.kind, ExceptKind::TypeError);
    assert_eq!(e.message.as_str(), "'int' object is not subscriptable");
}

#[test]
fn vector_index_must_be_integer() {
    let v123 = vector(vec![int_lit(1)]);
    let e = expect_err(eval(vec![ret(index(v123, text("x")))]));
    assert_eq!(e.kind, ExceptKind::TypeError);
    assert_eq!(e.message.as_str(), "list indices must be integers, not str");
}

#[test]
fn calling_a_non_callable_raises_type_error() {
    let e = expect_err(eval(vec![ret(call(int_lit(3), vec![]))]));
    assert_eq!(e.kind, ExceptKind::TypeError);
    assert_eq!(e.message.as_str(), "'int' object is not callable");
}

#[test]
fn numeric_equality_promotes_across_kinds() {
    let v = eval(vec![ret(infix(Infix::Equal, int_lit(1), float(1, 1)))]).unwrap();
    assert!(as_bool(&v));
    let v = eval(vec![ret(infix(Infix::Equal, int_lit(1), boolean(true)))]).unwrap();
    assert!(as_bool(&v));
    let v = eval(vec![ret(infix(Infix::Equal, float(1, 2), float(2, 4)))]).unwrap();
    assert!(as_bool(&v));
    let v = eval(vec![ret(infix(Infix::LessThan, float(1, 3), float(1, 2)))]).unwrap();
    assert!(as_bool(&v));
}

#[test]
fn boolean_arithmetic_coerces_to_integers() {
    let v = eval(vec![ret(infix(Infix::Plus, boolean(true), boolean(true)))]).unwrap();
    assert_eq!(as_i64(&v), 2);
    let v = eval(vec![ret(infix(Infix::Multiply, boolean(true), int_lit(5)))]).unwrap();
    assert_eq!(as_i64(&v), 5);
}

#[test]
fn float_arithmetic_is_exact() {
    // 1/2 + 1/2 == 1
    let sum = infix(Infix::Plus, float(1, 2), float(1, 2));
    let v = eval(vec![ret(infix(Infix::Equal, sum, int_lit(1)))]).unwrap();
    assert!(as_bool(&v));
    // 1/3 * 3 == 1
    let product = infix(Infix::Multiply, float(1, 3), int_lit(3));
    let v = eval(vec![ret(infix(Infix::Equal, product, int_lit(1)))]).unwrap();
    assert!(as_bool(&v));
}

#[test]
fn mixed_operand_kinds_raise_type_error() {
    let e = expect_err(eval(vec![ret(infix(Infix::Plus, int_lit(1), text("x")))]));
    assert_eq!(e.kind, ExceptKind::TypeError);
    assert_eq!(e.message.as_str(), "'+' not supported between instances of 'int' and 'str'");
    let e = expect_err(eval(vec![ret(infix(Infix::Plus, null(), int_lit(1)))]));
    assert_eq!(e.kind, ExceptKind::TypeError);
    assert_eq!(e.message.as_str(), "'+' not supported between instances of 'null' and 'int'");
}

#[test]
fn prefix_operators() {
    let v = eval(vec![ret(prefix(Prefix::Minus, int_lit(5)))]).unwrap();
    assert_eq!(as_i64(&v), -5);
    let v = eval(vec![ret(prefix(Prefix::Plus, boolean(true)))]).unwrap();
    assert_eq!(as_i64(&v), 1);
    let v = eval(vec![ret(prefix(Prefix::Minus, boolean(true)))]).unwrap();
    assert_eq!(as_i64(&v), -1);
    let v = eval(vec![ret(prefix(Prefix::Not, null()))]).unwrap();
    assert!(as_bool(&v));
    let v = eval(vec![ret(prefix(Prefix::Not, boolean(true)))]).unwrap();
    assert!(!as_bool(&v));
    let v = eval(vec![ret(prefix(Prefix::Not, int_lit(0)))]).unwrap();
    assert!(!as_bool(&v));
}

#[test]
fn bad_unary_operand_raises_type_error() {
    let e = expect_err(eval(vec![ret(prefix(Prefix::Minus, text("x")))]));
    assert_eq!(e.kind, ExceptKind::TypeError);
    assert_eq!(e.message.as_str(), "bad operand type for unary -: 'str'");
}

#[test]
fn failed_let_binds_null_defensively() {
    let mut runtime = Runtime::new("main".to_string(), NoExtensions);
    let first = runtime.run(
        AbstractSyntaxTree { statements: vec![let_stmt("x", ident("missing"))] },
        FUEL,
    );
    assert!(first.is_err());
    let second = runtime.run(AbstractSyntaxTree { statements: vec![ret(ident("x"))] }, FUEL);
    assert!(matches!(second.unwrap(), Value::Null));
}

#[test]
fn block_value_is_last_return_expression() {
    // A trailing non-return statement leaves the last return value standing.
    let v = eval(vec![ret(int_lit(1)), let_stmt("y", int_lit(2))]).unwrap();
    assert_eq!(as_i64(&v), 1);
}

#[test]
fn block_without_return_yields_null() {
    let v = eval(vec![expr_stmt(infix(Infix::Plus, int_lit(1), int_lit(1)))]).unwrap();
    assert!(matches!(v, Value::Null));
}

#[test]
fn empty_program_yields_null() {
    let v = eval(vec![]).unwrap();
    assert!(matches!(v, Value::Null));
}

#[test]
fn large_integer_arithmetic() {
    // 10^9 * 10^9 == 10^18, past 32 bits but within the test helper's range.
    let v = eval(vec![ret(infix(Infix::Multiply, int_lit(1_000_000_000), int_lit(1_000_000_000)))])
        .unwrap();
    assert_eq!(as_i64(&v), 1_000_000_000_000_000_000);
}

#[test]
fn subtraction_below_zero() {
    let v = eval(vec![ret(infix(Infix::Minus, int_lit(3), int_lit(5)))]).unwrap();
    assert_eq!(as_i64(&v), -2);
}

#[test]
fn fuel_exhaustion_reports_an_error() {
    let program = vec![
        fn_stmt("spin", &[], vec![ret(call(ident("spin"), vec![]))]),
        ret(call(ident("spin"), vec![])),
    ];
    let mut runtime = Runtime::new("main".to_string(), NoExtensions);
    let e = expect_err(runtime.run(AbstractSyntaxTree { statements: program }, 500));
    assert_eq!(e.kind, ExceptKind::Error);
    assert_eq!(e.message.as_str(), "evaluation fuel exhausted");
}

#[test]
fn function_value_carries_its_name() {
    let program = vec![fn_stmt("g", &["a"], vec![ret(ident("a"))]), ret(ident("g"))];
    let v = eval(program).unwrap();
    match v {
        Value::Function { name, params, .. } => {
            assert_eq!(name.as_deref(), Some("g"));
            assert_eq!(params, vec!["a".to_string()]);
        },
        other => panic!("expected a function, got {:?}", other),
    }
}

#[test]
fn infix_operands_evaluate_left_then_right() {
    // Both operands evaluate before dispatch: the left error wins.
    let e = expect_err(eval(vec![ret(infix(Infix::Plus, ident("lhs_missing"), ident("rhs_missing")))]));
    assert_eq!(e.kind, ExceptKind::NameError);
    assert!(e.message.as_str().contains("lhs_missing"));
}

#[test]
fn import_without_a_host_is_an_error() {
    let e = expect_err(eval(vec![Statement::Import("libs/demo.so".to_string())]));
    assert_eq!(e.kind, ExceptKind::Error);
    assert_eq!(e.message.as_str(), "no native extension host is available");
}

#[test]
fn integer_key_error_displays_decimal() {
    let map = hashmap(vec![(int_lit(1), int_lit(2))]);
    let e = expect_err(eval(vec![ret(index(map, int_lit(30)))]));
    assert_eq!(e.kind, ExceptKind::KeyError);
    assert_eq!(e.message.as_str(), "30");
}

#[test]
fn negative_integer_key_error_displays_sign() {
    let map = hashmap(vec![(int_lit(1), int_lit(2))]);
    let e = expect_err(eval(vec![ret(index(map, int_lit(-7)))]));
    assert_eq!(e.kind, ExceptKind::KeyError);
    assert_eq!(e.message.as_str(), "-7");
}

#[test]
fn float_key_error_displays_fraction() {
    let map = hashmap(vec![(int_lit(1), int_lit(2))]);
    let e = expect_err(eval(vec![ret(index(map, float(1, 2)))]));
    assert_eq!(e.kind, ExceptKind::KeyError);
    assert_eq!(e.message.as_str(), "1/2");
}

#[test]
fn integer_ordering() {
    let v = eval(vec![ret(infix(Infix::LessThan, int_lit(2), int_lit(10)))]).unwrap();
    assert!(as_bool(&v));
    let v = eval(vec![ret(infix(Infix::GreaterThanEqual, int_lit(-3), int_lit(-3)))]).unwrap();
    assert!(as_bool(&v));
    let v = eval(vec![ret(infix(Infix::NotEqual, int_lit(2), int_lit(2)))]).unwrap();
    assert!(!as_bool(&v));
}

#[test]
fn map_keys_are_evaluated_expressions() {
    let map = hashmap(vec![(infix(Infix::Plus, int_lit(1), int_lit(1)), text("two"))]);
    let v = eval(vec![ret(index(map, int_lit(2)))]).unwrap();
    assert_eq!(as_str(&v), "two");
}

#[test]
fn vectors_hold_mixed_kinds() {
    let v = eval(vec![ret(index(vector(vec![int_lit(1), text("a")]), int_lit(1)))]).unwrap();
    assert_eq!(as_str(&v), "a");
}

#[test]
fn vector_elements_evaluate_in_order() {
    // The first failing element stops the construction.
    let v = vector(vec![int_lit(1), ident("missing"), ident("also_missing")]);
    let e = expect_err(eval(vec![ret(v)]));
    assert_eq!(e.kind, ExceptKind::NameError);
    assert!(e.message.as_str().contains("missing"));
    assert!(!e.message.as_str().contains("also_missing"));
}

#[test]
fn runtime_from_env_sees_existing_bindings() {
    let mut arena = EnvArena::single_scope();
    arena.set(0, "x".to_string(), Value::Integer(Bignum::from_i64(41)));
    let mut runtime = Runtime::from_env(arena, 0, "main".to_string(), NoExtensions);
    let v = runtime
        .run(
            AbstractSyntaxTree {
                statements: vec![ret(infix(Infix::Plus, ident("x"), int_lit(1)))],
            },
            FUEL,
        )
        .unwrap();
    assert_eq!(as_i64(&v), 42);
}

#[test]
fn shadowing_does_not_rebind_the_outer_scope() {
    // A let inside a call shadows; the outer binding stands afterwards.
    let program = vec![
        let_stmt("x", int_lit(1)),
        fn_stmt("shadow", &[], vec![let_stmt("x", int_lit(2)), ret(ident("x"))]),
        let_stmt("inner_value", call(ident("shadow"), vec![])),
        ret(infix(Infix::Plus, ident("x"), ident("inner_value"))),
    ];
    let v = eval(program).unwrap();
    assert_eq!(as_i64(&v), 3);
}

#[test]
fn function_literal_called_in_place() {
    let double = Expression::Fn {
        params: vec!["n".to_string()],
        body: vec![ret(infix(Infix::Multiply, ident("n"), int_lit(2)))],
    };
    let v = eval(vec![ret(call(double, vec![int_lit(21)]))]).unwrap();
    assert_eq!(as_i64(&v), 42);
}

#[test]
fn functions_are_first_class_values() {
    // A returned function keeps its captured scope alive.
    let program = vec![
        fn_stmt(
            "make",
            &[],
            vec![
                let_stmt("seed", int_lit(5)),
                fn_stmt("get", &[], vec![ret(ident("seed"))]),
                ret(ident("get")),
            ],
        ),
        let_stmt("h", call(ident("make"), vec![])),
        ret(call(ident("h"), vec![])),
    ];
    let v = eval(program).unwrap();
    assert_eq!(as_i64(&v), 5);
}

#[test]
fn empty_function_body_yields_null() {
    let program = vec![fn_stmt("noop", &[], vec![]), ret(call(ident("noop"), vec![]))];
    let v = eval(program).unwrap();
    assert!(matches!(v, Value::Null));
}

#[test]
fn empty_collection_literals() {
    let v = eval(vec![ret(vector(vec![]))]).unwrap();
    match v {
        Value::Vector(items) => assert!(items.is_empty()),
        other => panic!("expected a vector, got {:?}", other),
    }
    let v = eval(vec![ret(hashmap(vec![]))]).unwrap();
    match v {
        Value::HashMap(pairs) => assert!(pairs.is_empty()),
        other => panic!("expected a map, got {:?}", other),
    }
}
