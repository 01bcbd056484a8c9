//! The laws the evaluator guarantees, stated on their own.
//!
//! Each proof function below states one guarantee of the value model over the
//! same spec functions the evaluator's contracts use, so a reader can see the
//! guarantee without reassembling it from those contracts.

use vstd::prelude::*;

use crate::exception::{spec_raise, ExceptKind, SpecException};
use crate::identifier::name_error_msg;
use crate::index::index_model;
use crate::ast::Infix;
use crate::infix::{infix_model, str_repeat};
use crate::literal::unhashable_msg;
use crate::value::{is_hashable, map_find, spec_display_key, SpecValue};

verus! {

/// Dividing an integer by a non-zero integer always yields a `Float` holding
/// the exact rational value of the division — `n / d == a / b` by
/// cross-multiplication, with a positive denominator — never a truncated
/// integer.
pub proof fn lemma_integer_division_exact(a: int, b: int, ctx: Seq<char>)
    requires
        b != 0,
    ensures
        infix_model(Infix::Divide, SpecValue::Integer(a), SpecValue::Integer(b), ctx) matches
            Result::Ok(v) && (v matches SpecValue::Float(n, d) && d > 0 && n * b == a * d),
{
    let r = infix_model(Infix::Divide, SpecValue::Integer(a), SpecValue::Integer(b), ctx);
    if b > 0 {
        assert(r == Result::<SpecValue, SpecException>::Ok(SpecValue::Float(a, b)));
    } else {
        assert(r == Result::<SpecValue, SpecException>::Ok(SpecValue::Float(-a, -b)));
        assert((-a) * b == a * (-b)) by (nonlinear_arith);
    }
}

/// Dividing any integer by zero is the generic error, never a value.
pub proof fn lemma_integer_division_by_zero(a: int, ctx: Seq<char>)
    ensures
        infix_model(Infix::Divide, SpecValue::Integer(a), SpecValue::Integer(0), ctx)
            == Result::<SpecValue, SpecException>::Err(
            spec_raise(ExceptKind::Error, "division by zero"@, ctx),
        ),
{
}

/// Repeating a string a non-positive number of times yields the empty
/// string; this library resolves `"ab" * (-1)` that way rather than as an
/// error.
pub proof fn lemma_string_repeat_non_positive(s: Seq<char>, c: int, ctx: Seq<char>)
    requires
        c <= 0,
    ensures
        infix_model(Infix::Multiply, SpecValue::Str(s), SpecValue::Integer(c), ctx)
            == Result::<SpecValue, SpecException>::Ok(SpecValue::Str(Seq::empty())),
{
    assert(str_repeat(s, 0) =~= Seq::<char>::empty());
}

/// Repeating a string `c + 1` times appends one more copy: with the exact
/// result of the repeat operator this gives `s * 3 == s + s + s` and its kin.
pub proof fn lemma_string_repeat_unrolls(s: Seq<char>, c: int, ctx: Seq<char>)
    requires
        c > 0,
    ensures
        infix_model(Infix::Multiply, SpecValue::Str(s), SpecValue::Integer(c), ctx)
            == Result::<SpecValue, SpecException>::Ok(
            SpecValue::Str(str_repeat(s, (c - 1) as nat) + s),
        ),
{
}

/// The message of the error an unbound identifier raises contains the
/// identifier's name, spelled out in full: it is `name '`, then the name,
/// then `' is not defined`.
pub proof fn lemma_name_error_message_contains_name(identifier: Seq<char>)
    ensures
        name_error_msg(identifier).len() == identifier.len() + 22,
        name_error_msg(identifier).subrange(6, 6 + identifier.len() as int) == identifier,
{
    reveal_strlit("name '");
    reveal_strlit("' is not defined");
    assert(name_error_msg(identifier).subrange(6, 6 + identifier.len() as int) =~= identifier);
}

/// A negative vector index is always an index error — there is no
/// wraparound from the end.
pub proof fn lemma_negative_index(es: Seq<SpecValue>, i: int, ctx: Seq<char>)
    requires
        i < 0,
    ensures
        index_model(SpecValue::Vector(es), SpecValue::Integer(i), ctx)
            == Result::<SpecValue, SpecException>::Err(
            spec_raise(ExceptKind::IndexError, "vec index out of range"@, ctx),
        ),
{
}

/// An index at or past a vector's end is always an index error.
pub proof fn lemma_index_past_end(es: Seq<SpecValue>, i: int, ctx: Seq<char>)
    requires
        i >= es.len(),
    ensures
        index_model(SpecValue::Vector(es), SpecValue::Integer(i), ctx)
            == Result::<SpecValue, SpecException>::Err(
            spec_raise(ExceptKind::IndexError, "vec index out of range"@, ctx),
        ),
{
}

/// Indexing a map with a hashable key it does not hold is always a key
/// error carrying the key's display form.
pub proof fn lemma_absent_key(
    ps: Seq<(SpecValue, SpecValue)>,
    key: SpecValue,
    ctx: Seq<char>,
)
    requires
        is_hashable(key),
        map_find(ps, key) is None,
    ensures
        index_model(SpecValue::HashMap(ps), key, ctx) == Result::<SpecValue, SpecException>::Err(
            spec_raise(ExceptKind::KeyError, spec_display_key(key), ctx),
        ),
{
}

/// Indexing a map with an unhashable key is a type error naming its kind.
pub proof fn lemma_unhashable_key(
    ps: Seq<(SpecValue, SpecValue)>,
    key: SpecValue,
    ctx: Seq<char>,
)
    requires
        !is_hashable(key),
    ensures
        index_model(SpecValue::HashMap(ps), key, ctx) == Result::<SpecValue, SpecException>::Err(
            spec_raise(ExceptKind::TypeError, unhashable_msg(key), ctx),
        ),
{
}

} // verus!


