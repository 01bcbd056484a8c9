//! The runtime value model.
//!
//! `Value` is the closed tagged variant the evaluator produces: the numeric
//! tower (`Integer`, `Float`, `Boolean`), strings, vectors, maps, functions
//! that capture an environment scope by index, and the two native-extension
//! kinds. `SpecValue` is its mathematical mirror. `val_wf` says that every
//! number in the value is canonical and every map key hashable; `envs_ok`,
//! a property of the mirror alone, says that every captured scope index
//! points into an arena of the given length.

use vstd::prelude::*;

use crate::ast::{stmts_view, stmts_wf, params_view, SpecStatement, Statement};
use crate::bignum::{dec_int, big_to_decimal, Bignum};
use crate::rational::Rat;

verus! {

/// A runtime value.
#[derive(Debug)]
#[allow(inconsistent_fields)]
pub enum Value {
    Null,
    Boolean(bool),
    Integer(Bignum),
    Float(Rat),
    Str(String),
    Vector(Vec<Value>),
    HashMap(Vec<(Value, Value)>),
    Function { name: Option<String>, params: Vec<String>, body: Vec<Statement>, env: usize },
    NativeFunction { name: String, arity: i64, module: u64 },
    ModuleHandle { name: String, path: String, module: u64 },
}

/// The mathematical mirror of a `Value`.
#[allow(inconsistent_fields)]
pub enum SpecValue {
    Null,
    Boolean(bool),
    Integer(int),
    Float(int, int),
    Str(Seq<char>),
    Vector(Seq<SpecValue>),
    HashMap(Seq<(SpecValue, SpecValue)>),
    Function { name: Option<Seq<char>>, params: Seq<Seq<char>>, body: Seq<SpecStatement>, env: int },
    NativeFunction { name: Seq<char>, arity: int, module: int },
    ModuleHandle { name: Seq<char>, path: Seq<char>, module: int },
}

/// The mirrors of a value sequence.
pub open spec fn vals_view(s: Seq<Value>) -> Seq<SpecValue>
    decreases s,
{
    Seq::new(
        s.len(),
        |i: int|
            if 0 <= i < s.len() {
                val_view(s[i])
            } else {
                SpecValue::Null
            },
    )
}

/// The mirrors of a key/value pair sequence.
pub open spec fn val_pairs_view(s: Seq<(Value, Value)>) -> Seq<(SpecValue, SpecValue)>
    decreases s,
{
    Seq::new(
        s.len(),
        |i: int|
            if 0 <= i < s.len() {
                (val_view(s[i].0), val_view(s[i].1))
            } else {
                (SpecValue::Null, SpecValue::Null)
            },
    )
}

/// The mirror of a value.
pub open spec fn val_view(v: Value) -> SpecValue
    decreases v,
{
    match v {
        Value::Null => SpecValue::Null,
        Value::Boolean(b) => SpecValue::Boolean(b),
        Value::Integer(i) => SpecValue::Integer(i.as_int()),
        Value::Float(r) => SpecValue::Float(r.num_int(), r.den_int()),
        Value::Str(s) => SpecValue::Str(s@),
        Value::Vector(es) => SpecValue::Vector(vals_view(es@)),
        Value::HashMap(ps) => SpecValue::HashMap(val_pairs_view(ps@)),
        Value::Function { name, params, body, env } => SpecValue::Function {
            name: match name {
                Option::Some(n) => Option::Some(n@),
                Option::None => Option::None,
            },
            params: params_view(params@),
            body: stmts_view(body@),
            env: env as int,
        },
        Value::NativeFunction { name, arity, module } => SpecValue::NativeFunction {
            name: name@,
            arity: arity as int,
            module: module as int,
        },
        Value::ModuleHandle { name, path, module } => SpecValue::ModuleHandle {
            name: name@,
            path: path@,
            module: module as int,
        },
    }
}

impl View for Value {
    type V = SpecValue;

    open spec fn view(&self) -> SpecValue {
        val_view(*self)
    }
}

/// A value kind that a map may use as a key: it supports equality.
pub open spec fn is_hashable(v: SpecValue) -> bool {
    match v {
        SpecValue::Null => true,
        SpecValue::Boolean(_) => true,
        SpecValue::Integer(_) => true,
        SpecValue::Float(_, _) => true,
        SpecValue::Str(_) => true,
        _ => false,
    }
}

/// Every number in the sequence is canonical.
pub open spec fn vals_wf(s: Seq<Value>) -> bool
    decreases s,
{
    forall|i: int| 0 <= i < s.len() ==> val_wf(#[trigger] s[i])
}

/// As `vals_wf`, for key/value pairs; keys are hashable.
pub open spec fn val_pairs_wf(s: Seq<(Value, Value)>) -> bool
    decreases s,
{
    forall|i: int|
        0 <= i < s.len() ==> val_wf((#[trigger] s[i]).0) && val_wf(s[i].1) && is_hashable(
            s[i].0@,
        )
}

/// Every number in the value is canonical, every map key hashable, and every
/// function body well-formed.
pub open spec fn val_wf(v: Value) -> bool
    decreases v,
{
    match v {
        Value::Null => true,
        Value::Boolean(_) => true,
        Value::Integer(i) => i.wf(),
        Value::Float(r) => r.wf(),
        Value::Str(_) => true,
        Value::Vector(es) => vals_wf(es@),
        Value::HashMap(ps) => val_pairs_wf(ps@),
        Value::Function { name: _, params: _, body, env: _ } => stmts_wf(body@),
        Value::NativeFunction { .. } => true,
        Value::ModuleHandle { .. } => true,
    }
}

/// Every captured scope index in the value lies below the arena length `n`.
/// This is a property of the mirror alone.
pub open spec fn envs_ok(v: SpecValue, n: int) -> bool
    decreases v,
{
    match v {
        SpecValue::Vector(es) => envs_ok_seq(es, n),
        SpecValue::HashMap(ps) => envs_ok_pairs(ps, n),
        SpecValue::Function { name: _, params: _, body: _, env } => 0 <= env < n,
        _ => true,
    }
}

/// As `envs_ok`, for every value of a sequence.
pub open spec fn envs_ok_seq(es: Seq<SpecValue>, n: int) -> bool
    decreases es,
{
    forall|i: int| 0 <= i < es.len() ==> envs_ok(#[trigger] es[i], n)
}

/// As `envs_ok`, for both sides of every pair.
pub open spec fn envs_ok_pairs(ps: Seq<(SpecValue, SpecValue)>, n: int) -> bool
    decreases ps,
{
    forall|i: int| 0 <= i < ps.len() ==> envs_ok((#[trigger] ps[i]).0, n) && envs_ok(ps[i].1, n)
}

/// A scope-index bound only loosens as the arena grows.
pub proof fn lemma_envs_ok_mono(v: SpecValue, n: int, m: int)
    requires
        envs_ok(v, n),
        n <= m,
    ensures
        envs_ok(v, m),
    decreases v,
{
    match v {
        SpecValue::Vector(es) => {
            assert forall|i: int| 0 <= i < es.len() implies envs_ok(#[trigger] es[i], m) by {
                assert(envs_ok(es[i], n));
                lemma_envs_ok_mono(es[i], n, m);
            }
            assert(envs_ok_seq(es, m));
        },
        SpecValue::HashMap(ps) => {
            assert forall|i: int|
                0 <= i < ps.len() implies envs_ok((#[trigger] ps[i]).0, m) && envs_ok(
                ps[i].1,
                m,
            ) by {
                assert(envs_ok(ps[i].0, n) && envs_ok(ps[i].1, n));
                lemma_envs_ok_mono(ps[i].0, n, m);
                lemma_envs_ok_mono(ps[i].1, n, m);
            }
            assert(envs_ok_pairs(ps, m));
        },
        _ => {},
    }
}

/// A value of a numeric kind: `Integer`, `Float`, or `Boolean`.
pub open spec fn is_numeric_val(v: SpecValue) -> bool {
    match v {
        SpecValue::Integer(_) => true,
        SpecValue::Float(_, _) => true,
        SpecValue::Boolean(_) => true,
        _ => false,
    }
}

/// The numerator of a value's promoted rational.
pub open spec fn num_of_val(v: SpecValue) -> int {
    match v {
        SpecValue::Integer(i) => i,
        SpecValue::Float(n, _) => n,
        SpecValue::Boolean(b) => if b {
            1
        } else {
            0
        },
        _ => 0,
    }
}

/// The denominator of a value's promoted rational.
pub open spec fn den_of_val(v: SpecValue) -> int {
    match v {
        SpecValue::Float(_, d) => d,
        _ => 1,
    }
}

/// Key equality: numeric keys compare by their promoted rational values, the
/// rest by kind and content.
pub open spec fn key_eq(a: SpecValue, b: SpecValue) -> bool {
    if is_numeric_val(a) && is_numeric_val(b) {
        num_of_val(a) * den_of_val(b) == num_of_val(b) * den_of_val(a)
    } else {
        match (a, b) {
            (SpecValue::Null, SpecValue::Null) => true,
            (SpecValue::Str(x), SpecValue::Str(y)) => x == y,
            _ => false,
        }
    }
}

/// The value bound to the first key equal to `k`, if any.
pub open spec fn map_find(ps: Seq<(SpecValue, SpecValue)>, k: SpecValue) -> Option<SpecValue>
    decreases ps.len(),
{
    if ps.len() == 0 {
        Option::None
    } else if key_eq(ps[0].0, k) {
        Option::Some(ps[0].1)
    } else {
        map_find(ps.skip(1), k)
    }
}

/// The promoted rational of a numeric value.
pub(crate) fn to_rat(v: &Value) -> (r: Option<crate::rational::Rat>)
    requires
        val_wf(*v),
    ensures
        match r {
            Option::Some(q) => is_numeric_val(v@) && q.wf() && q.num_int() == num_of_val(v@)
                && q.den_int() == den_of_val(v@),
            Option::None => !is_numeric_val(v@),
        },
{
    match v {
        Value::Integer(i) => Option::Some(crate::rational::Rat::from_int(i)),
        Value::Float(q) => Option::Some(q.clone()),
        Value::Boolean(b) => {
            if *b {
                Option::Some(crate::rational::Rat::from_int(&Bignum::from_u64(1)))
            } else {
                Option::Some(crate::rational::Rat::from_int(&Bignum::zero()))
            }
        },
        _ => Option::None,
    }
}

/// Decides `key_eq` of two hashable values.
pub(crate) fn key_eq_exec(a: &Value, b: &Value) -> (r: bool)
    requires
        val_wf(*a),
        val_wf(*b),
        is_hashable(a@),
        is_hashable(b@),
    ensures
        r == key_eq(a@, b@),
{
    let qa = to_rat(a);
    let qb = to_rat(b);
    if let (Option::Some(x), Option::Some(y)) = (qa, qb) {
        return x.cmp_rat(&y) == 0;
    }
    match (a, b) {
        (Value::Null, Value::Null) => true,
        (Value::Str(x), Value::Str(y)) => x.eq(y),
        _ => false,
    }
}

/// `envs_ok_seq` only loosens as the arena grows.
pub proof fn lemma_envs_ok_seq_mono(es: Seq<SpecValue>, n: int, m: int)
    requires
        envs_ok_seq(es, n),
        n <= m,
    ensures
        envs_ok_seq(es, m),
{
    assert forall|i: int| 0 <= i < es.len() implies envs_ok(#[trigger] es[i], m) by {
        assert(envs_ok(es[i], n));
        lemma_envs_ok_mono(es[i], n, m);
    }
}

/// `envs_ok_pairs` only loosens as the arena grows.
pub proof fn lemma_envs_ok_pairs_mono(ps: Seq<(SpecValue, SpecValue)>, n: int, m: int)
    requires
        envs_ok_pairs(ps, n),
        n <= m,
    ensures
        envs_ok_pairs(ps, m),
{
    assert forall|i: int| 0 <= i < ps.len() implies envs_ok((#[trigger] ps[i]).0, m) && envs_ok(
        ps[i].1,
        m,
    ) by {
        assert(envs_ok(ps[i].0, n) && envs_ok(ps[i].1, n));
        lemma_envs_ok_mono(ps[i].0, n, m);
        lemma_envs_ok_mono(ps[i].1, n, m);
    }
}

/// Insertion into a pair list: the first key equal to `k` keeps its key and
/// takes the new value; without one, the pair is appended.
pub open spec fn spec_map_insert(
    ps: Seq<(SpecValue, SpecValue)>,
    k: SpecValue,
    v: SpecValue,
) -> Seq<(SpecValue, SpecValue)>
    decreases ps.len(),
{
    if ps.len() == 0 {
        seq![(k, v)]
    } else if key_eq(ps[0].0, k) {
        seq![(ps[0].0, v)] + ps.skip(1)
    } else {
        seq![ps[0]] + spec_map_insert(ps.skip(1), k, v)
    }
}

/// With the first matching key at position `j`, insertion is the update of
/// that position's value.
pub proof fn lemma_spec_map_insert_at(
    ps: Seq<(SpecValue, SpecValue)>,
    j: int,
    k: SpecValue,
    v: SpecValue,
)
    requires
        0 <= j < ps.len(),
        key_eq(ps[j].0, k),
        forall|i: int| 0 <= i < j ==> !key_eq((#[trigger] ps[i]).0, k),
    ensures
        spec_map_insert(ps, k, v) == ps.update(j, (ps[j].0, v)),
    decreases j,
{
    if j == 0 {
        assert(spec_map_insert(ps, k, v) =~= ps.update(0, (ps[0].0, v)));
    } else {
        assert(!key_eq(ps[0].0, k));
        assert forall|i: int| 0 <= i < j - 1 implies !key_eq((#[trigger] ps.skip(1)[i]).0, k) by {
            assert(ps.skip(1)[i] == ps[i + 1]);
            assert(!key_eq(ps[i + 1].0, k));
        }
        assert(ps.skip(1)[j - 1] == ps[j]);
        lemma_spec_map_insert_at(ps.skip(1), j - 1, k, v);
        assert(spec_map_insert(ps, k, v) =~= ps.update(j, (ps[j].0, v)));
    }
}

/// With no matching key, insertion is an append.
pub proof fn lemma_spec_map_insert_absent(
    ps: Seq<(SpecValue, SpecValue)>,
    k: SpecValue,
    v: SpecValue,
)
    requires
        forall|i: int| 0 <= i < ps.len() ==> !key_eq((#[trigger] ps[i]).0, k),
    ensures
        spec_map_insert(ps, k, v) == ps.push((k, v)),
    decreases ps.len(),
{
    if ps.len() == 0 {
        assert(spec_map_insert(ps, k, v) =~= ps.push((k, v)));
    } else {
        assert(!key_eq(ps[0].0, k));
        assert forall|i: int|
            0 <= i < ps.skip(1).len() implies !key_eq((#[trigger] ps.skip(1)[i]).0, k) by {
            assert(ps.skip(1)[i] == ps[i + 1]);
            assert(!key_eq(ps[i + 1].0, k));
        }
        lemma_spec_map_insert_absent(ps.skip(1), k, v);
        assert(spec_map_insert(ps, k, v) =~= ps.push((k, v)));
    }
}

/// If position `j` holds the first key equal to `k`, the find returns that
/// position's value.
pub proof fn lemma_map_find_at(ps: Seq<(SpecValue, SpecValue)>, j: int, k: SpecValue)
    requires
        0 <= j < ps.len(),
        key_eq(ps[j].0, k),
        forall|i: int| 0 <= i < j ==> !key_eq((#[trigger] ps[i]).0, k),
    ensures
        map_find(ps, k) == Option::Some(ps[j].1),
    decreases j,
{
    if j > 0 {
        assert(!key_eq(ps[0].0, k));
        assert forall|i: int| 0 <= i < j - 1 implies !key_eq((#[trigger] ps.skip(1)[i]).0, k) by {
            assert(ps.skip(1)[i] == ps[i + 1]);
            assert(!key_eq(ps[i + 1].0, k));
        }
        lemma_map_find_at(ps.skip(1), j - 1, k);
        assert(ps.skip(1)[j - 1] == ps[j]);
    }
}

/// Without any key equal to `k`, the find comes back empty.
pub proof fn lemma_map_find_absent(ps: Seq<(SpecValue, SpecValue)>, k: SpecValue)
    requires
        forall|i: int| 0 <= i < ps.len() ==> !key_eq((#[trigger] ps[i]).0, k),
    ensures
        map_find(ps, k) is None,
    decreases ps.len(),
{
    if ps.len() > 0 {
        assert(!key_eq(ps[0].0, k));
        assert forall|i: int|
            0 <= i < ps.skip(1).len() implies !key_eq((#[trigger] ps.skip(1)[i]).0, k) by {
            assert(ps.skip(1)[i] == ps[i + 1]);
            assert(!key_eq(ps[i + 1].0, k));
        }
        lemma_map_find_absent(ps.skip(1), k);
    }
}

/// The name of a value's kind, as the error messages spell it.
pub open spec fn spec_kind_name(v: SpecValue) -> Seq<char> {
    match v {
        SpecValue::Null => "null"@,
        SpecValue::Boolean(_) => "bool"@,
        SpecValue::Integer(_) => "int"@,
        SpecValue::Float(_, _) => "float"@,
        SpecValue::Str(_) => "str"@,
        SpecValue::Vector(_) => "vec"@,
        SpecValue::HashMap(_) => "hashmap"@,
        SpecValue::Function { .. } => "fn"@,
        SpecValue::NativeFunction { .. } => "native fn"@,
        SpecValue::ModuleHandle { .. } => "module"@,
    }
}

impl Value {
    /// The name of this value's kind.
    pub fn kind_name(&self) -> (r: &'static str)
        ensures
            r@ == spec_kind_name(self@),
    {
        match self {
            Value::Null => "null",
            Value::Boolean(_) => "bool",
            Value::Integer(_) => "int",
            Value::Float(_) => "float",
            Value::Str(_) => "str",
            Value::Vector(_) => "vec",
            Value::HashMap(_) => "hashmap",
            Value::Function { .. } => "fn",
            Value::NativeFunction { .. } => "native fn",
            Value::ModuleHandle { .. } => "module",
        }
    }
}

/// The display form of a hashable value, as a key error reports it.
pub open spec fn spec_display_key(v: SpecValue) -> Seq<char> {
    match v {
        SpecValue::Null => "null"@,
        SpecValue::Boolean(b) => if b {
            "true"@
        } else {
            "false"@
        },
        SpecValue::Integer(i) => dec_int(i),
        SpecValue::Float(n, d) => dec_int(n) + "/"@ + dec_int(d),
        SpecValue::Str(s) => s,
        _ => Seq::empty(),
    }
}

impl Value {
    /// The display form of a hashable value.
    pub fn display_key(&self) -> (r: String)
        requires
            is_hashable(self@),
    ensures
            r@ == spec_display_key(self@),
    {
        match self {
            Value::Null => String::from_str("null"),
            Value::Boolean(b) => {
                if *b {
                    String::from_str("true")
                } else {
                    String::from_str("false")
                }
            },
            Value::Integer(i) => big_to_decimal(i),
            Value::Float(r) => {
                let mut s = big_to_decimal(&r.num);
                s.append("/");
                let den = big_to_decimal(&r.den);
                s.append(den.as_str());
                s
            },
            Value::Str(s) => s.clone(),
            _ => {
                proof {
                    assert(false);
                }
                String::new()
            },
        }
    }
}

} // verus!

// A deep copy of a value preserves its mirror and its well-formedness; the
// contracts say so, which a derived `Clone` could not.

verus! {

/// A deep copy of a value sequence with the same views.
pub(crate) fn clone_values(es: &Vec<Value>) -> (r: Vec<Value>)
    ensures
        vals_view(r@) == vals_view(es@),
        vals_wf(es@) ==> vals_wf(r@),
    decreases *es,
{
    let mut out: Vec<Value> = Vec::new();
    let mut i: usize = 0;
    while i < es.len()
        invariant
            i <= es.len(),
            out@.len() == i as int,
            forall|j: int| 0 <= j < i ==> #[trigger] out@[j]@ == es@[j]@ && (val_wf(es@[j])
                ==> val_wf(out@[j])),
        decreases es.len() - i,
    {
        proof {
            assert(decreases_to!(*es => es[i as int]));
        }
        out.push(es[i].clone());
        i = i + 1;
    }
    proof {
        assert forall|j: int| 0 <= j < out@.len() implies vals_view(out@)[j] == vals_view(
            es@,
        )[j] by {
            assert(out@[j]@ == es@[j]@);
        }
        assert(vals_view(out@) =~= vals_view(es@));
        if vals_wf(es@) {
            assert forall|j: int| 0 <= j < out@.len() implies val_wf(#[trigger] out@[j]) by {
                assert(out@[j]@ == es@[j]@);
                assert(val_wf(es@[j]));
            }
        }
    }
    out
}

/// A deep copy of a key/value pair sequence with the same views.
pub(crate) fn clone_val_pairs(ps: &Vec<(Value, Value)>) -> (r: Vec<(Value, Value)>)
    ensures
        val_pairs_view(r@) == val_pairs_view(ps@),
        val_pairs_wf(ps@) ==> val_pairs_wf(r@),
    decreases *ps,
{
    let mut out: Vec<(Value, Value)> = Vec::new();
    let mut i: usize = 0;
    while i < ps.len()
        invariant
            i <= ps.len(),
            out@.len() == i as int,
            forall|j: int| 0 <= j < i ==> (#[trigger] out@[j]).0@ == ps@[j].0@ && out@[j].1@
                == ps@[j].1@ && (val_wf(ps@[j].0) ==> val_wf(out@[j].0)) && (val_wf(ps@[j].1)
                ==> val_wf(out@[j].1)),
        decreases ps.len() - i,
    {
        proof {
            assert(decreases_to!(*ps => ps[i as int]));
            assert(decreases_to!(ps[i as int] => ps[i as int].0));
            assert(decreases_to!(ps[i as int] => ps[i as int].1));
        }
        let key = ps[i].0.clone();
        let val = ps[i].1.clone();
        out.push((key, val));
        i = i + 1;
    }
    proof {
        assert forall|j: int| 0 <= j < out@.len() implies val_pairs_view(out@)[j]
            == val_pairs_view(ps@)[j] by {
            assert(out@[j].0@ == ps@[j].0@ && out@[j].1@ == ps@[j].1@);
        }
        assert(val_pairs_view(out@) =~= val_pairs_view(ps@));
        if val_pairs_wf(ps@) {
            assert forall|j: int|
                0 <= j < out@.len() implies val_wf((#[trigger] out@[j]).0) && val_wf(
                out@[j].1,
            ) && is_hashable(out@[j].0@) by {
                assert(out@[j].0@ == ps@[j].0@ && out@[j].1@ == ps@[j].1@);
                assert(val_wf(ps@[j].0) && val_wf(ps@[j].1) && is_hashable(ps@[j].0@));
            }
        }
    }
    out
}

impl Clone for Value {
    fn clone(&self) -> (res: Self)
        ensures
            res@ == self@,
            val_wf(*self) ==> val_wf(res),
        decreases *self,
    {
        match self {
            Value::Null => Value::Null,
            Value::Boolean(b) => Value::Boolean(*b),
            Value::Integer(i) => Value::Integer(i.clone()),
            Value::Float(r) => Value::Float(r.clone()),
            Value::Str(s) => Value::Str(s.clone()),
            Value::Vector(es) => {
                proof {
                    assert(decreases_to!(*self => *es));
                }
                Value::Vector(clone_values(es))
            },
            Value::HashMap(ps) => {
                proof {
                    assert(decreases_to!(*self => *ps));
                }
                Value::HashMap(clone_val_pairs(ps))
            },
            Value::Function { name, params, body, env } => {
                let cloned_name = match name {
                    Option::Some(n) => Option::Some(n.clone()),
                    Option::None => Option::None,
                };
                Value::Function {
                    name: cloned_name,
                    params: crate::ast::clone_params(params),
                    body: crate::ast::clone_statements(body),
                    env: *env,
                }
            },
            Value::NativeFunction { name, arity, module } => Value::NativeFunction {
                name: name.clone(),
                arity: *arity,
                module: *module,
            },
            Value::ModuleHandle { name, path, module } => Value::ModuleHandle {
                name: name.clone(),
                path: path.clone(),
                module: *module,
            },
        }
    }
}

} // verus!

// Deciders for the value predicates, used to validate what a native
// extension hands back before it enters the environment.

verus! {

/// Decides `is_hashable` of this value's mirror.
pub fn check_hashable(v: &Value) -> (r: bool)
    ensures
        r == is_hashable(v@),
{
    match v {
        Value::Null => true,
        Value::Boolean(_) => true,
        Value::Integer(_) => true,
        Value::Float(_) => true,
        Value::Str(_) => true,
        _ => false,
    }
}

/// Decides `vals_wf` together with `envs_ok` at arena length `n`.
pub fn check_values(es: &Vec<Value>, n: usize) -> (r: bool)
    ensures
        r == (vals_wf(es@) && envs_ok_seq(vals_view(es@), n as int)),
    decreases *es,
{
    let mut i: usize = 0;
    while i < es.len()
        invariant
            i <= es.len(),
            forall|j: int| 0 <= j < i ==> val_wf(#[trigger] es@[j]) && envs_ok(es@[j]@, n as int),
        decreases es.len() - i,
    {
        proof {
            assert(decreases_to!(*es => es[i as int]));
        }
        if !check_value(&es[i], n) {
            proof {
                assert(!(val_wf(es@[i as int]) && envs_ok(es@[i as int]@, n as int)));
                if val_wf(es@[i as int]) {
                    assert(vals_view(es@)[i as int] == es@[i as int]@);
                    assert(!envs_ok(vals_view(es@)[i as int], n as int));
                    assert(!envs_ok_seq(vals_view(es@), n as int));
                }
            }
            return false;
        }
        i = i + 1;
    }
    proof {
        assert(vals_wf(es@));
        assert forall|j: int| 0 <= j < vals_view(es@).len() implies envs_ok(
            #[trigger] vals_view(es@)[j],
            n as int,
        ) by {
            assert(vals_view(es@)[j] == es@[j]@);
            assert(envs_ok(es@[j]@, n as int));
        }
        assert(envs_ok_seq(vals_view(es@), n as int));
    }
    true
}

/// Decides `val_pairs_wf` together with `envs_ok` at arena length `n`.
pub fn check_val_pairs(ps: &Vec<(Value, Value)>, n: usize) -> (r: bool)
    ensures
        r == (val_pairs_wf(ps@) && envs_ok_pairs(val_pairs_view(ps@), n as int)),
    decreases *ps,
{
    let mut i: usize = 0;
    while i < ps.len()
        invariant
            i <= ps.len(),
            forall|j: int| 0 <= j < i ==> val_wf((#[trigger] ps@[j]).0) && val_wf(ps@[j].1)
                && is_hashable(ps@[j].0@) && envs_ok(ps@[j].0@, n as int) && envs_ok(
                ps@[j].1@,
                n as int,
            ),
        decreases ps.len() - i,
    {
        proof {
            assert(decreases_to!(*ps => ps[i as int]));
            assert(decreases_to!(ps[i as int] => ps[i as int].0));
            assert(decreases_to!(ps[i as int] => ps[i as int].1));
        }
        let key_ok = check_value(&ps[i].0, n);
        let val_ok = check_value(&ps[i].1, n);
        let hash_ok = check_hashable(&ps[i].0);
        if !(key_ok && val_ok && hash_ok) {
            proof {
                assert(val_pairs_view(ps@)[i as int] == (ps@[i as int].0@, ps@[i as int].1@));
                if val_wf(ps@[i as int].0) && val_wf(ps@[i as int].1) && is_hashable(
                    ps@[i as int].0@,
                ) {
                    assert(!(envs_ok(val_pairs_view(ps@)[i as int].0, n as int) && envs_ok(
                        val_pairs_view(ps@)[i as int].1,
                        n as int,
                    )));
                    assert(!envs_ok_pairs(val_pairs_view(ps@), n as int));
                }
            }
            return false;
        }
        i = i + 1;
    }
    proof {
        assert(val_pairs_wf(ps@));
        assert forall|j: int| 0 <= j < val_pairs_view(ps@).len() implies envs_ok(
            (#[trigger] val_pairs_view(ps@)[j]).0,
            n as int,
        ) && envs_ok(val_pairs_view(ps@)[j].1, n as int) by {
            assert(val_pairs_view(ps@)[j] == (ps@[j].0@, ps@[j].1@));
            assert(envs_ok(ps@[j].0@, n as int) && envs_ok(ps@[j].1@, n as int));
        }
        assert(envs_ok_pairs(val_pairs_view(ps@), n as int));
    }
    true
}

/// Decides `val_wf` together with `envs_ok` at arena length `n`.
pub fn check_value(v: &Value, n: usize) -> (r: bool)
    ensures
        r == (val_wf(*v) && envs_ok(v@, n as int)),
    decreases *v,
{
    match v {
        Value::Null => true,
        Value::Boolean(_) => true,
        Value::Integer(b) => {
            let r = b.check_wf();
            proof {
                assert(val_wf(*v) == b.wf());
                assert(envs_ok(v@, n as int));
            }
            r
        },
        Value::Float(q) => {
            let r = q.check_wf();
            proof {
                assert(val_wf(*v) == q.wf());
                assert(envs_ok(v@, n as int));
            }
            r
        },
        Value::Str(_) => true,
        Value::Vector(es) => {
            proof {
                assert(decreases_to!(*v => *es));
            }
            let r = check_values(es, n);
            proof {
                assert(val_wf(*v) == vals_wf(es@));
                assert(v@ == SpecValue::Vector(vals_view(es@)));
                assert(envs_ok(v@, n as int) == envs_ok_seq(vals_view(es@), n as int));
            }
            r
        },
        Value::HashMap(ps) => {
            proof {
                assert(decreases_to!(*v => *ps));
            }
            let r = check_val_pairs(ps, n);
            proof {
                assert(val_wf(*v) == val_pairs_wf(ps@));
                assert(v@ == SpecValue::HashMap(val_pairs_view(ps@)));
                assert(envs_ok(v@, n as int) == envs_ok_pairs(val_pairs_view(ps@), n as int));
            }
            r
        },
        Value::Function { name: _, params: _, body, env } => {
            let r = *env < n && crate::ast::check_statements(body);
            proof {
                assert(val_wf(*v) == stmts_wf(body@));
                assert(envs_ok(v@, n as int) == (0 <= *env < n));
            }
            r
        },
        Value::NativeFunction { .. } => true,
        Value::ModuleHandle { .. } => true,
    }
}

} // verus!
