//! Literal evaluation.
//!
//! Scalar literals become the corresponding value directly. Vector and map
//! literals evaluate their element (or key and value) expressions in order;
//! the first error stops the construction and propagates. A map key must be
//! of a hashable kind; within one literal, a later equal key replaces the
//! earlier one's value, as repeated insertion would.

use vstd::prelude::*;

use crate::ast::{exprs_wf, lit_wf, Expression, Literal, SpecLiteral};
use crate::exception::{ExceptKind, Exception};
use crate::host::NativeHost;
use crate::value::{
    check_hashable, envs_ok, envs_ok_pairs, envs_ok_seq, is_hashable, key_eq_exec,
    lemma_envs_ok_mono, lemma_envs_ok_seq_mono, spec_kind_name, val_pairs_view, val_pairs_wf,
    val_wf, vals_view, vals_wf, SpecValue, Value,
};
use crate::{lemma_eval_trans, res_view, ResultRuntime, Runtime};

verus! {

/// The message of the error an unhashable map key raises.
pub open spec fn unhashable_msg(v: SpecValue) -> Seq<char> {
    "unhashable type: '"@ + spec_kind_name(v) + "'"@
}

/// Builds the unhashable-key message executably.
fn unhashable_message(v: &Value) -> (m: String)
    ensures
        m@ == unhashable_msg(v@),
{
    let mut m = String::from_str("unhashable type: '");
    m.append(v.kind_name());
    m.append("'");
    m
}

/// Inserts a binding into a map's pair list: the first key equal to `key`
/// gets the new value — so resolving `key` afterwards finds it; without
/// one, the pair is appended.
fn map_insert(
    entries: &mut Vec<(Value, Value)>,
    key: Value,
    value: Value,
    Ghost(n): Ghost<int>,
)
    requires
        val_pairs_wf(old(entries)@),
        envs_ok_pairs(val_pairs_view(old(entries)@), n),
        val_wf(key),
        val_wf(value),
        is_hashable(key@),
        envs_ok(key@, n),
        envs_ok(value@, n),
    ensures
        val_pairs_wf(final(entries)@),
        envs_ok_pairs(val_pairs_view(final(entries)@), n),
        crate::value::map_find(val_pairs_view(final(entries)@), key@) == Option::Some(value@),
        val_pairs_view(final(entries)@) == crate::value::spec_map_insert(
            val_pairs_view(old(entries)@),
            key@,
            value@,
        ),
{
    let ghost pre = entries@;
    let mut j: usize = 0;
    while j < entries.len()
        invariant
            pre == old(entries)@,
            entries@ == pre,
            j <= entries@.len(),
            val_pairs_wf(entries@),
            envs_ok_pairs(val_pairs_view(entries@), n),
            val_wf(key),
            val_wf(value),
            is_hashable(key@),
            envs_ok(value@, n),
            forall|i: int|
                0 <= i < j ==> !crate::value::key_eq(
                    (#[trigger] val_pairs_view(entries@)[i]).0,
                    key@,
                ),
        decreases entries@.len() - j,
    {
        proof {
            assert(val_wf(entries@[j as int].0) && is_hashable(entries@[j as int].0@));
            assert(val_pairs_view(entries@)[j as int] == (
                entries@[j as int].0@,
                entries@[j as int].1@,
            ));
        }
        if key_eq_exec(&entries[j].0, &key) {
            let old_key = entries[j].0.clone();
            entries[j] = (old_key, value);
            proof {
                assert forall|i: int| 0 <= i < entries@.len() implies val_wf(
                    (#[trigger] entries@[i]).0,
                ) && val_wf(entries@[i].1) && is_hashable(entries@[i].0@) by {
                    if i != j {
                        assert(entries@[i] == pre[i]);
                    }
                    assert(val_wf(pre[i].0) && val_wf(pre[i].1) && is_hashable(pre[i].0@));
                }
                assert forall|i: int| 0 <= i < val_pairs_view(entries@).len() implies envs_ok(
                    (#[trigger] val_pairs_view(entries@)[i]).0,
                    n,
                ) && envs_ok(val_pairs_view(entries@)[i].1, n) by {
                    assert(val_pairs_view(entries@)[i] == (entries@[i].0@, entries@[i].1@));
                    assert(val_pairs_view(pre)[i] == (pre[i].0@, pre[i].1@));
                    assert(envs_ok(val_pairs_view(pre)[i].0, n) && envs_ok(
                        val_pairs_view(pre)[i].1,
                        n,
                    ));
                    if i == j {
                        assert(entries@[i].0@ == pre[i].0@);
                    } else {
                        assert(entries@[i] == pre[i]);
                    }
                }
                assert forall|i: int|
                    0 <= i < j implies !crate::value::key_eq(
                    (#[trigger] val_pairs_view(entries@)[i]).0,
                    key@,
                ) by {
                    assert(entries@[i] == pre[i]);
                    assert(val_pairs_view(entries@)[i] == (entries@[i].0@, entries@[i].1@));
                    assert(val_pairs_view(pre)[i] == (pre[i].0@, pre[i].1@));
                }
                assert(val_pairs_view(entries@)[j as int] == (
                    entries@[j as int].0@,
                    entries@[j as int].1@,
                ));
                assert(crate::value::key_eq(val_pairs_view(entries@)[j as int].0, key@));
                crate::value::lemma_map_find_at(val_pairs_view(entries@), j as int, key@);
                assert(val_pairs_view(pre)[j as int] == (pre[j as int].0@, pre[j as int].1@));
                assert(crate::value::key_eq(val_pairs_view(pre)[j as int].0, key@));
                assert forall|i: int| 0 <= i < j implies !crate::value::key_eq(
                    (#[trigger] val_pairs_view(pre)[i]).0,
                    key@,
                ) by {
                    assert(val_pairs_view(pre)[i] == (pre[i].0@, pre[i].1@));
                }
                crate::value::lemma_spec_map_insert_at(
                    val_pairs_view(pre),
                    j as int,
                    key@,
                    value@,
                );
                assert forall|i: int|
                    0 <= i < val_pairs_view(entries@).len() implies val_pairs_view(entries@)[i]
                    == val_pairs_view(pre).update(
                    j as int,
                    (val_pairs_view(pre)[j as int].0, value@),
                )[i] by {
                    assert(val_pairs_view(entries@)[i] == (entries@[i].0@, entries@[i].1@));
                    assert(val_pairs_view(pre)[i] == (pre[i].0@, pre[i].1@));
                    if i != j {
                        assert(entries@[i] == pre[i]);
                    }
                }
                assert(val_pairs_view(entries@) =~= val_pairs_view(pre).update(
                    j as int,
                    (val_pairs_view(pre)[j as int].0, value@),
                ));
            }
            return ;
        }
        j = j + 1;
    }
    let ghost before = entries@;
    entries.push((key, value));
    proof {
        assert forall|i: int| 0 <= i < entries@.len() implies val_wf(
            (#[trigger] entries@[i]).0,
        ) && val_wf(entries@[i].1) && is_hashable(entries@[i].0@) by {
            if i < before.len() {
                assert(entries@[i] == before[i]);
                assert(val_wf(before[i].0) && val_wf(before[i].1) && is_hashable(before[i].0@));
            } else {
                assert(entries@[i] == (key, value));
            }
        }
        assert forall|i: int| 0 <= i < val_pairs_view(entries@).len() implies envs_ok(
            (#[trigger] val_pairs_view(entries@)[i]).0,
            n,
        ) && envs_ok(val_pairs_view(entries@)[i].1, n) by {
            assert(val_pairs_view(entries@)[i] == (entries@[i].0@, entries@[i].1@));
            if i < before.len() {
                assert(entries@[i] == before[i]);
                assert(val_pairs_view(before)[i] == (before[i].0@, before[i].1@));
                assert(envs_ok(val_pairs_view(before)[i].0, n) && envs_ok(
                    val_pairs_view(before)[i].1,
                    n,
                ));
            } else {
                assert(entries@[i] == (key, value));
            }
        }
        assert forall|i: int|
            0 <= i < before.len() implies !crate::value::key_eq(
            (#[trigger] val_pairs_view(entries@)[i]).0,
            key@,
        ) by {
            assert(entries@[i] == before[i]);
            assert(val_pairs_view(entries@)[i] == (entries@[i].0@, entries@[i].1@));
            assert(val_pairs_view(before)[i] == (before[i].0@, before[i].1@));
        }
        assert(val_pairs_view(entries@)[before.len() as int] == (
            entries@[before.len() as int].0@,
            entries@[before.len() as int].1@,
        ));
        assert(entries@[before.len() as int] == (key, value));
        crate::value::lemma_map_find_at(val_pairs_view(entries@), before.len() as int, key@);
        assert forall|i: int| 0 <= i < before.len() implies !crate::value::key_eq(
            (#[trigger] val_pairs_view(before)[i]).0,
            key@,
        ) by {
            assert(val_pairs_view(before)[i] == (before[i].0@, before[i].1@));
        }
        crate::value::lemma_spec_map_insert_absent(val_pairs_view(before), key@, value@);
        assert forall|i: int|
            0 <= i < val_pairs_view(entries@).len() implies val_pairs_view(entries@)[i]
            == val_pairs_view(before).push((key@, value@))[i] by {
            assert(val_pairs_view(entries@)[i] == (entries@[i].0@, entries@[i].1@));
            if i < before.len() {
                assert(entries@[i] == before[i]);
                assert(val_pairs_view(before)[i] == (before[i].0@, before[i].1@));
            }
        }
        assert(val_pairs_view(entries@) =~= val_pairs_view(before).push((key@, value@)));
    }
}

impl<H: NativeHost> Runtime<H> {
    /// Evaluates a literal. A scalar literal yields exactly the value it
    /// spells; vector and map literals build their contents in order.
    pub fn literal(&mut self, literal: &Literal, fuel: u64) -> (r: ResultRuntime)
        requires
            old(self).wf(),
            lit_wf(*literal),
        ensures
            final(self).evolves_from(*old(self)),
            final(self).bindings_unchanged(*old(self)),
            fuel >= 1 && !(literal@ is Vector) && !(literal@ is HashMap) ==> r is Ok
                && final(self).env_unchanged(*old(self)),
            literal@ matches SpecLiteral::Vector(es) ==> (es.len() == 0 && fuel >= 2 ==> (r
            matches Result::Ok(v) && v@ == SpecValue::Vector(Seq::empty()))),
            literal@ matches SpecLiteral::HashMap(ps) ==> (ps.len() == 0 && fuel >= 2 ==> (r
            matches Result::Ok(v) && v@ == SpecValue::HashMap(Seq::empty()))),
            match r {
                Result::Ok(v) => final(self).value_ok(v) && match literal@ {
                    SpecLiteral::Null => v@ == SpecValue::Null,
                    SpecLiteral::Integer(i) => v@ == SpecValue::Integer(i),
                    SpecLiteral::Float(n, d) => v@ == SpecValue::Float(n, d),
                    SpecLiteral::Boolean(b) => v@ == SpecValue::Boolean(b),
                    SpecLiteral::Str(s) => v@ == SpecValue::Str(s),
                    SpecLiteral::Vector(es) => v@ is Vector,
                    SpecLiteral::HashMap(_) => v@ is HashMap,
                },
                Result::Err(_) => true,
            },
            r matches Result::Err(e) ==> crate::error_frames_ok(e@, old(self).module_context@),
            crate::semantics::eval_literal(
                old(self).env@,
                old(self).scope as int,
                old(self).module_context@,
                literal@,
                fuel as nat,
            ) matches Option::Some(o) ==> final(self).env@ == o.0
                && res_view(r) == o.1,
        decreases fuel,
    {
        if fuel == 0 {
            return Result::Err(self.fuel_error());
        }
        match literal {
            Literal::Null => Result::Ok(Value::Null),
            Literal::Integer(b) => Result::Ok(Value::Integer(b.clone())),
            Literal::Float(q) => Result::Ok(Value::Float(q.clone())),
            Literal::Boolean(b) => Result::Ok(Value::Boolean(*b)),
            Literal::Str(s) => Result::Ok(Value::Str(s.clone())),
            Literal::Vector(es) => {
                proof {
                    assert(decreases_to!(*literal => *es));
                }
                self.literal_vec(es, (fuel - 1) as u64)
            },
            Literal::HashMap(ps) => {
                proof {
                    assert(decreases_to!(*literal => *ps));
                }
                self.literal_hashmap(ps, (fuel - 1) as u64)
            },
        }
    }

    /// Evaluates the element expressions of a vector literal left to right.
    /// An empty literal yields the empty vector, and every element whose
    /// expression is a scalar literal holds exactly that scalar.
    pub fn literal_vec(&mut self, expressions: &Vec<Expression>, fuel: u64) -> (r: ResultRuntime)
        requires
            old(self).wf(),
            exprs_wf(expressions@),
        ensures
            final(self).evolves_from(*old(self)),
            final(self).bindings_unchanged(*old(self)),
            match r {
                Result::Ok(v) => final(self).value_ok(v) && v@ is Vector
                    && v@->Vector_0.len() == expressions@.len(),
                Result::Err(_) => true,
            },
            fuel >= 1 && expressions@.len() == 0 ==> (r matches Result::Ok(v) && v@
                == SpecValue::Vector(Seq::empty())),
            fuel >= 3 ==> (r matches Result::Ok(v) ==> forall|j: int|
                0 <= j < expressions@.len() ==> (crate::expression::scalar_literal_value(
                    #[trigger] expressions@[j]@,
                ) matches Option::Some(sv) ==> v@->Vector_0[j] == sv)),
            r matches Result::Err(e) ==> crate::error_frames_ok(e@, old(self).module_context@),
            crate::semantics::eval_vector_literal(
                old(self).env@,
                old(self).scope as int,
                old(self).module_context@,
                crate::ast::exprs_view(expressions@),
                fuel as nat,
            ) matches Option::Some(o) ==> final(self).env@ == o.0
                && res_view(r) == o.1,
        decreases fuel,
    {
        if fuel == 0 {
            return Result::Err(self.fuel_error());
        }
        let mut list: Vec<Value> = Vec::new();
        let mut i: usize = 0;
        proof {
            assert(crate::ast::exprs_view(expressions@).skip(0) =~= crate::ast::exprs_view(
                expressions@,
            ));
            assert(vals_view(list@) =~= Seq::<SpecValue>::empty());
            let rest = crate::semantics::eval_exprs(
                self.env@,
                self.scope as int,
                self.module_context@,
                crate::ast::exprs_view(expressions@),
                fuel as nat,
            );
            match rest {
                Option::Some((e2, Result::Ok(vs))) => {
                    assert(Seq::<SpecValue>::empty() + vs =~= vs);
                },
                _ => {},
            }
        }
        while i < expressions.len()
            invariant
                exprs_wf(expressions@),
                fuel >= 1,
                i <= expressions.len(),
                self.evolves_from(*old(self)),
                self.bindings_unchanged(*old(self)),
                list@.len() == i as int,
                vals_wf(list@),
                envs_ok_seq(vals_view(list@), self.env@.len() as int),
                fuel >= 3 ==> forall|j: int|
                    0 <= j < i ==> (crate::expression::scalar_literal_value(
                        #[trigger] expressions@[j]@,
                    ) matches Option::Some(sv) ==> list@[j]@ == sv),
                crate::semantics::eval_exprs(
                    old(self).env@,
                    old(self).scope as int,
                    old(self).module_context@,
                    crate::ast::exprs_view(expressions@),
                    fuel as nat,
                ) matches Option::Some(w) ==> crate::semantics::prepend_values(
                    vals_view(list@),
                    crate::semantics::eval_exprs(
                        self.env@,
                        old(self).scope as int,
                        old(self).module_context@,
                        crate::ast::exprs_view(expressions@).skip(i as int),
                        fuel as nat,
                    ),
                ) == Option::Some(w),
            decreases expressions.len() - i,
        {
            let ghost mid = *self;
            let ghost es_view = crate::ast::exprs_view(expressions@);
            proof {
                assert(es_view.skip(i as int)[0] == es_view[i as int]);
                assert(es_view[i as int] == expressions@[i as int]@);
                assert(es_view.skip(i as int).skip(1) =~= es_view.skip(i as int + 1));
            }
            let value = match self.expression(&expressions[i], (fuel - 1) as u64) {
                Result::Ok(v) => v,
                Result::Err(e) => {
                    proof {
                        lemma_eval_trans(*old(self), mid, *self);
                    }
                    return Result::Err(e);
                },
            };
            proof {
                lemma_eval_trans(*old(self), mid, *self);
                lemma_envs_ok_seq_mono(
                    vals_view(list@),
                    mid.env@.len() as int,
                    self.env@.len() as int,
                );
                let whole = crate::semantics::eval_exprs(
                    old(self).env@,
                    old(self).scope as int,
                    old(self).module_context@,
                    es_view,
                    fuel as nat,
                );
                if whole is Some {
                    let rest = crate::semantics::eval_exprs(
                        self.env@,
                        old(self).scope as int,
                        old(self).module_context@,
                        es_view.skip(i as int + 1),
                        fuel as nat,
                    );
                    assert(crate::semantics::eval_exprs(
                        mid.env@,
                        old(self).scope as int,
                        old(self).module_context@,
                        es_view.skip(i as int),
                        fuel as nat,
                    ) == crate::semantics::prepend_values(seq![value@], rest));
                    match rest {
                        Option::Some((e2, Result::Ok(vs))) => {
                            assert(vals_view(list@) + (seq![value@] + vs) =~= vals_view(
                                list@,
                            ).push(value@) + vs);
                        },
                        _ => {},
                    }
                }
            }
            let ghost before = list@;
            list.push(value);
            proof {
                assert(vals_view(list@) =~= vals_view(before).push(value@));
                assert forall|j: int| 0 <= j < list@.len() implies val_wf(#[trigger] list@[j]) by {
                    if j < before.len() {
                        assert(list@[j] == before[j]);
                        assert(val_wf(before[j]));
                    } else {
                        assert(list@[j] == value);
                    }
                }
                assert forall|j: int| 0 <= j < vals_view(list@).len() implies envs_ok(
                    #[trigger] vals_view(list@)[j],
                    self.env@.len() as int,
                ) by {
                    assert(vals_view(list@)[j] == list@[j]@);
                    if j < before.len() {
                        assert(list@[j] == before[j]);
                        assert(vals_view(before)[j] == before[j]@);
                        assert(envs_ok(vals_view(before)[j], self.env@.len() as int));
                    } else {
                        assert(list@[j] == value);
                    }
                }
            }
            i = i + 1;
        }
        let result = Value::Vector(list);
        proof {
            assert(crate::ast::exprs_view(expressions@).skip(i as int)
                =~= Seq::<crate::ast::SpecExpression>::empty());
            let tail = crate::semantics::eval_exprs(
                self.env@,
                old(self).scope as int,
                old(self).module_context@,
                crate::ast::exprs_view(expressions@).skip(i as int),
                fuel as nat,
            );
            assert(tail == Option::Some(
                (self.env@, Result::<Seq<SpecValue>, crate::exception::SpecException>::Ok(
                    Seq::empty(),
                )),
            ));
            assert(vals_view(list@) + Seq::<SpecValue>::empty() =~= vals_view(list@));
            assert(result@ == SpecValue::Vector(vals_view(result->Vector_0@)));
            if expressions@.len() == 0 {
                assert(vals_view(list@) =~= Seq::<SpecValue>::empty());
            }
            if fuel >= 3 {
                assert forall|j: int|
                    0 <= j < expressions@.len() implies (crate::expression::scalar_literal_value(
                    #[trigger] expressions@[j]@,
                ) matches Option::Some(sv) ==> vals_view(list@)[j] == sv) by {
                    assert(vals_view(list@)[j] == list@[j]@);
                }
            }
        }
        Result::Ok(result)
    }

    /// Evaluates the key and value expressions of a map literal in order;
    /// a key of an unhashable kind raises a `TypeError` naming its kind. An
    /// empty literal yields the empty map.
    pub fn literal_hashmap(
        &mut self,
        pairs: &Vec<(Expression, Expression)>,
        fuel: u64,
    ) -> (r: ResultRuntime)
        requires
            old(self).wf(),
            crate::ast::expr_pairs_wf(pairs@),
        ensures
            final(self).evolves_from(*old(self)),
            final(self).bindings_unchanged(*old(self)),
            match r {
                Result::Ok(v) => final(self).value_ok(v) && v@ is HashMap,
                Result::Err(_) => true,
            },
            fuel >= 1 && pairs@.len() == 0 ==> (r matches Result::Ok(v) && v@
                == SpecValue::HashMap(Seq::empty())),
            r matches Result::Err(e) ==> crate::error_frames_ok(e@, old(self).module_context@),
            crate::semantics::eval_map_literal(
                old(self).env@,
                old(self).scope as int,
                old(self).module_context@,
                crate::ast::expr_pairs_view(pairs@),
                fuel as nat,
            ) matches Option::Some(o) ==> final(self).env@ == o.0
                && res_view(r) == o.1,
        decreases fuel,
    {
        if fuel == 0 {
            return Result::Err(self.fuel_error());
        }
        let mut entries: Vec<(Value, Value)> = Vec::new();
        let mut i: usize = 0;
        proof {
            assert(crate::ast::expr_pairs_view(pairs@).skip(0) =~= crate::ast::expr_pairs_view(
                pairs@,
            ));
            assert(val_pairs_view(entries@) =~= Seq::<(SpecValue, SpecValue)>::empty());
        }
        while i < pairs.len()
            invariant
                crate::ast::expr_pairs_wf(pairs@),
                fuel >= 1,
                i <= pairs.len(),
                self.evolves_from(*old(self)),
                self.bindings_unchanged(*old(self)),
                i == 0 ==> entries@.len() == 0,
                val_pairs_wf(entries@),
                envs_ok_pairs(val_pairs_view(entries@), self.env@.len() as int),
                crate::semantics::eval_pairs(
                    old(self).env@,
                    old(self).scope as int,
                    old(self).module_context@,
                    crate::ast::expr_pairs_view(pairs@),
                    Seq::empty(),
                    fuel as nat,
                ) matches Option::Some(w) ==> crate::semantics::eval_pairs(
                    self.env@,
                    old(self).scope as int,
                    old(self).module_context@,
                    crate::ast::expr_pairs_view(pairs@).skip(i as int),
                    val_pairs_view(entries@),
                    fuel as nat,
                ) == Option::Some(w),
            decreases pairs.len() - i,
        {
            let ghost mid0 = *self;
            let ghost ps_view = crate::ast::expr_pairs_view(pairs@);
            proof {
                assert(ps_view.skip(i as int)[0] == ps_view[i as int]);
                assert(ps_view[i as int] == (pairs@[i as int].0@, pairs@[i as int].1@));
                assert(ps_view.skip(i as int).skip(1) =~= ps_view.skip(i as int + 1));
            }
            let key = match self.expression(&pairs[i].0, (fuel - 1) as u64) {
                Result::Ok(v) => v,
                Result::Err(e) => {
                    proof {
                        lemma_eval_trans(*old(self), mid0, *self);
                    }
                    return Result::Err(e);
                },
            };
            proof {
                lemma_eval_trans(*old(self), mid0, *self);
            }
            if !check_hashable(&key) {
                return Result::Err(
                    Exception::raise(
                        ExceptKind::TypeError,
                        unhashable_message(&key),
                        &self.module_context,
                    ),
                );
            }
            let ghost mid1 = *self;
            let ghost acc_before = val_pairs_view(entries@);
            let value = match self.expression(&pairs[i].1, (fuel - 1) as u64) {
                Result::Ok(v) => v,
                Result::Err(e) => {
                    proof {
                        lemma_eval_trans(*old(self), mid1, *self);
                    }
                    return Result::Err(e);
                },
            };
            proof {
                lemma_eval_trans(*old(self), mid1, *self);
                crate::value::lemma_envs_ok_pairs_mono(
                    val_pairs_view(entries@),
                    mid0.env@.len() as int,
                    self.env@.len() as int,
                );
                lemma_envs_ok_mono(key@, mid1.env@.len() as int, self.env@.len() as int);
            }
            map_insert(&mut entries, key, value, Ghost(self.env@.len() as int));
            i = i + 1;
        }
        let result = Value::HashMap(entries);
        proof {
            assert(crate::ast::expr_pairs_view(pairs@).skip(i as int) =~= Seq::<
                (crate::ast::SpecExpression, crate::ast::SpecExpression),
            >::empty());
            assert(result@ == SpecValue::HashMap(val_pairs_view(result->HashMap_0@)));
            if pairs@.len() == 0 {
                assert(val_pairs_view(entries@) =~= Seq::<(SpecValue, SpecValue)>::empty());
            }
        }
        Result::Ok(result)
    }
}

} // verus!
