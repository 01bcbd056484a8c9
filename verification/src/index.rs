//! The index protocol.
//!
//! `Vector[Integer]`: a negative index is always an `IndexError` (there is no
//! wraparound), and so is one at or past the end. `Map[key]`: an absent key
//! is a `KeyError` carrying the key's display form, and a key of an
//! unhashable kind is a `TypeError`. Indexing any other collection kind, or a
//! vector with a non-integer, is a `TypeError`.

use vstd::prelude::*;

use crate::bignum::Bignum;
use crate::exception::{spec_raise, ExceptKind, Exception, SpecException};
use crate::host::NativeHost;
use crate::literal::unhashable_msg;
use crate::value::{
    envs_ok, envs_ok_pairs, envs_ok_seq, is_hashable, key_eq_exec, map_find, spec_display_key,
    spec_kind_name, val_pairs_view, val_pairs_wf, val_wf, vals_view, vals_wf, SpecValue, Value,
};
use crate::{res_view, ResultRuntime, Runtime};

verus! {

/// What indexing yields: the index protocol of the value model.
pub open spec fn index_model(a: SpecValue, b: SpecValue, ctx: Seq<char>) -> Result<
    SpecValue,
    SpecException,
> {
    match a {
        SpecValue::Vector(es) => match b {
            SpecValue::Integer(i) => if i < 0 || i >= es.len() {
                Result::Err(spec_raise(ExceptKind::IndexError, "vec index out of range"@, ctx))
            } else {
                Result::Ok(es[i])
            },
            _ => Result::Err(
                spec_raise(
                    ExceptKind::TypeError,
                    "list indices must be integers, not "@ + spec_kind_name(b),
                    ctx,
                ),
            ),
        },
        SpecValue::HashMap(ps) => if !is_hashable(b) {
            Result::Err(spec_raise(ExceptKind::TypeError, unhashable_msg(b), ctx))
        } else {
            match map_find(ps, b) {
                Option::Some(v) => Result::Ok(v),
                Option::None => Result::Err(
                    spec_raise(ExceptKind::KeyError, spec_display_key(b), ctx),
                ),
            }
        },
        _ => Result::Err(
            spec_raise(
                ExceptKind::TypeError,
                "'"@ + spec_kind_name(a) + "' object is not subscriptable"@,
                ctx,
            ),
        ),
    }
}

impl<H: NativeHost> Runtime<H> {
    /// Applies the index protocol to two evaluated values.
    pub fn index(&self, left: Value, index: Value) -> (r: ResultRuntime)
        requires
            self.wf(),
            val_wf(left),
            val_wf(index),
            envs_ok(left@, self.env@.len() as int),
        ensures
            res_view(r) == index_model(left@, index@, self.module_context@),
            r is Ok ==> val_wf(r->Ok_0) && envs_ok(r->Ok_0@, self.env@.len() as int),
    {
        match (&left, &index) {
            (Value::Vector(es), Value::Integer(i)) => {
                proof {
                    assert(left@ == SpecValue::Vector(vals_view(es@)));
                    assert(index@ == SpecValue::Integer(i.as_int()));
                }
                self.index_vec(es, i)
            },
            (Value::Vector(_), other) => {
                let mut m = String::from_str("list indices must be integers, not ");
                m.append(other.kind_name());
                Result::Err(Exception::raise(ExceptKind::TypeError, m, &self.module_context))
            },
            (Value::HashMap(ps), _) => {
                proof {
                    assert(left@ == SpecValue::HashMap(val_pairs_view(ps@)));
                }
                if !crate::value::check_hashable(&index) {
                    let mut m = String::from_str("unhashable type: '");
                    m.append(index.kind_name());
                    m.append("'");
                    return Result::Err(
                        Exception::raise(ExceptKind::TypeError, m, &self.module_context),
                    );
                }
                let ghost whole = val_pairs_view(ps@);
                proof {
                    assert(whole.skip(0) =~= whole);
                    assert(whole.len() == ps@.len());
                }
                let mut j: usize = 0;
                while j < ps.len()
                    invariant
                        self.wf(),
                        val_pairs_wf(ps@),
                        envs_ok_pairs(val_pairs_view(ps@), self.env@.len() as int),
                        val_wf(index),
                        is_hashable(index@),
                        whole == val_pairs_view(ps@),
                        left@ == SpecValue::HashMap(whole),
                        j <= ps@.len(),
                        map_find(whole, index@) == map_find(whole.skip(j as int), index@),
                    decreases ps@.len() - j,
                {
                    proof {
                        assert(val_wf(ps@[j as int].0) && is_hashable(ps@[j as int].0@));
                        assert(whole.skip(j as int)[0] == whole[j as int]);
                        assert(whole[j as int] == (ps@[j as int].0@, ps@[j as int].1@));
                    }
                    if key_eq_exec(&ps[j].0, &index) {
                        let v = ps[j].1.clone();
                        proof {
                            assert(map_find(whole.skip(j as int), index@) == Option::Some(
                                whole[j as int].1,
                            ));
                            assert(envs_ok(val_pairs_view(ps@)[j as int].1, self.env@.len() as int));
                        }
                        return Result::Ok(v);
                    }
                    proof {
                        assert(whole.skip(j as int).skip(1) =~= whole.skip(j as int + 1));
                    }
                    j = j + 1;
                }
                proof {
                    assert(whole.skip(ps@.len() as int) =~= Seq::<(SpecValue, SpecValue)>::empty());
                    assert(map_find(whole, index@) is None);
                }
                Result::Err(
                    Exception::raise(
                        ExceptKind::KeyError,
                        index.display_key(),
                        &self.module_context,
                    ),
                )
            },
            (other, _) => {
                let mut m = String::from_str("'");
                m.append(other.kind_name());
                m.append("' object is not subscriptable");
                Result::Err(Exception::raise(ExceptKind::TypeError, m, &self.module_context))
            },
        }
    }

    /// Indexes a vector with an integer; negative and out-of-range indices
    /// raise an `IndexError`.
    pub fn index_vec(&self, vector: &Vec<Value>, index: &Bignum) -> (r: ResultRuntime)
        requires
            self.wf(),
            vals_wf(vector@),
            envs_ok_seq(vals_view(vector@), self.env@.len() as int),
            index.wf(),
        ensures
            res_view(r) == index_model(
                SpecValue::Vector(vals_view(vector@)),
                SpecValue::Integer(index.as_int()),
                self.module_context@,
            ),
            r is Ok ==> val_wf(r->Ok_0) && envs_ok(r->Ok_0@, self.env@.len() as int),
    {
        proof {
            assert(vals_view(vector@).len() == vector@.len());
        }
        if index.is_negative() {
            return Result::Err(
                Exception::raise(
                    ExceptKind::IndexError,
                    String::from_str("vec index out of range"),
                    &self.module_context,
                ),
            );
        }
        let vlen = vector.len();
        match index.to_u64() {
            Option::Some(i) => {
                if i < vlen as u64 {
                    let idx = i as usize;
                    let v = vector[idx].clone();
                    proof {
                        assert(vals_view(vector@)[idx as int] == vector@[idx as int]@);
                        assert(envs_ok(vals_view(vector@)[idx as int], self.env@.len() as int));
                    }
                    Result::Ok(v)
                } else {
                    Result::Err(
                        Exception::raise(
                            ExceptKind::IndexError,
                            String::from_str("vec index out of range"),
                            &self.module_context,
                        ),
                    )
                }
            },
            Option::None => Result::Err(
                Exception::raise(
                    ExceptKind::IndexError,
                    String::from_str("vec index out of range"),
                    &self.module_context,
                ),
            ),
        }
    }
}

} // verus!
