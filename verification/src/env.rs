//! Chained lexical scopes.
//!
//! The environment is an arena of scope nodes; each node holds an optional
//! parent index (always smaller than its own, so chains are acyclic) and its
//! local bindings. A child scope never copies its parent's bindings; it is a
//! view layered on top. Closures capture a scope by index, so they observe
//! later mutation of that scope, as lexical scoping demands.
//!
//! `set` always writes into the scope it is given — shadowing, never
//! rebinding an ancestor. `get` walks from the given scope outward and
//! returns the first binding found. The model of a scope is a `Map` from
//! names to value mirrors in which the last `set` wins.

use vstd::prelude::*;

use crate::value::{envs_ok, val_wf, SpecValue, Value};

verus! {

/// One scope node: its parent and its local bindings, oldest first.
#[derive(Debug)]
pub struct Scope {
    pub parent: Option<usize>,
    pub entries: Vec<(String, Value)>,
}

/// The mathematical mirror of a `Scope`.
pub struct SpecScope {
    pub parent: Option<int>,
    pub bindings: Map<Seq<char>, SpecValue>,
}

/// The binding map an entry list denotes: later entries win.
pub open spec fn entries_map(s: Seq<(String, Value)>) -> Map<Seq<char>, SpecValue>
    decreases s.len(),
{
    if s.len() == 0 {
        Map::empty()
    } else {
        entries_map(s.drop_last()).insert(s.last().0@, s.last().1@)
    }
}

impl View for Scope {
    type V = SpecScope;

    open spec fn view(&self) -> SpecScope {
        SpecScope {
            parent: match self.parent {
                Option::Some(p) => Option::Some(p as int),
                Option::None => Option::None,
            },
            bindings: entries_map(self.entries@),
        }
    }
}

/// The arena of scopes; indices are stable, scopes are only added.
#[derive(Debug)]
pub struct EnvArena {
    pub scopes: Vec<Scope>,
}

/// The mirrors of a scope list.
pub open spec fn scopes_view(s: Seq<Scope>) -> Seq<SpecScope> {
    Seq::new(s.len(), |i: int| s[i]@)
}

impl View for EnvArena {
    type V = Seq<SpecScope>;

    open spec fn view(&self) -> Seq<SpecScope> {
        scopes_view(self.scopes@)
    }
}

/// One scope is sound at position `i` of an arena of length `n`: its parent
/// lies strictly below it, and every stored value is well-formed with its
/// captured scopes inside the arena.
pub open spec fn scope_ok(s: Scope, i: int, n: int) -> bool {
    &&& match s.parent {
        Option::Some(p) => 0 <= p < i,
        Option::None => true,
    }
    &&& forall|j: int|
        0 <= j < s.entries@.len() ==> val_wf((#[trigger] s.entries@[j]).1) && envs_ok(
            s.entries@[j].1@,
            n,
        )
}

/// Resolution of `name` starting at scope `s`: the first binding found
/// walking the parent chain outward.
pub open spec fn lookup(scopes: Seq<SpecScope>, s: int, name: Seq<char>) -> Option<SpecValue>
    decreases s,
{
    if s < 0 || s >= scopes.len() {
        Option::None
    } else if scopes[s].bindings.contains_key(name) {
        Option::Some(scopes[s].bindings[name])
    } else {
        match scopes[s].parent {
            Option::Some(p) => if 0 <= p < s {
                lookup(scopes, p, name)
            } else {
                Option::None
            },
            Option::None => Option::None,
        }
    }
}

impl EnvArena {
    /// Every scope is sound.
    pub open spec fn wf(&self) -> bool {
        forall|i: int|
            0 <= i < self.scopes@.len() ==> scope_ok(#[trigger] self.scopes@[i], i, self.scopes@.len() as int)
    }

    /// An arena holding one empty root scope.
    pub fn single_scope() -> (r: EnvArena)
        ensures
            r.wf(),
            r@.len() == 1,
            r@[0].parent is None,
            r@[0].bindings == Map::<Seq<char>, SpecValue>::empty(),
    {
        let mut scopes: Vec<Scope> = Vec::new();
        scopes.push(Scope { parent: Option::None, entries: Vec::new() });
        let r = EnvArena { scopes };
        proof {
            assert(r.scopes@[0].entries@.len() == 0);
            assert(r@[0].bindings =~= Map::<Seq<char>, SpecValue>::empty());
        }
        r
    }

    /// The number of scopes.
    pub fn scope_count(&self) -> (r: usize)
        ensures
            r as int == self@.len(),
    {
        self.scopes.len()
    }
}

/// An entry list without the name denotes a map without it.
proof fn lemma_entries_absent(s: Seq<(String, Value)>, name: Seq<char>)
    requires
        forall|j: int| 0 <= j < s.len() ==> (#[trigger] s[j]).0@ != name,
    ensures
        !entries_map(s).contains_key(name),
    decreases s.len(),
{
    if s.len() > 0 {
        assert(s.last().0@ != name);
        lemma_entries_absent(s.drop_last(), name);
    }
}

/// If position `i` holds the last entry named `name`, the map binds `name`
/// to that entry's value.
proof fn lemma_entries_found(s: Seq<(String, Value)>, i: int, name: Seq<char>)
    requires
        0 <= i < s.len(),
        s[i].0@ == name,
        forall|j: int| i < j < s.len() ==> (#[trigger] s[j]).0@ != name,
    ensures
        entries_map(s).contains_key(name),
        entries_map(s)[name] == s[i].1@,
    decreases s.len(),
{
    if i == s.len() - 1 {
        assert(s.last() == s[i]);
    } else {
        assert(s.last().0@ != name);
        lemma_entries_found(s.drop_last(), i, name);
    }
}

/// The index of the last entry bound to `name`, if any.
fn find_local(s: &Scope, name: &String) -> (r: Option<usize>)
    ensures
        match r {
            Option::Some(i) => i < s.entries@.len() && s.entries@[i as int].0@ == name@
                && s@.bindings.contains_key(name@) && s@.bindings[name@] == s.entries@[i as int].1@,
            Option::None => !s@.bindings.contains_key(name@),
        },
{
    let mut i: usize = s.entries.len();
    while i > 0
        invariant
            i <= s.entries@.len(),
            forall|j: int| i <= j < s.entries@.len() ==> (#[trigger] s.entries@[j]).0@ != name@,
        decreases i,
    {
        i = i - 1;
        if s.entries[i].0 == *name {
            proof {
                lemma_entries_found(s.entries@, i as int, name@);
            }
            return Option::Some(i);
        }
    }
    proof {
        lemma_entries_absent(s.entries@, name@);
    }
    Option::None
}

impl EnvArena {
    /// The value bound to `name`, resolved from `scope` outward; the first
    /// binding found is returned, or nothing when the chain is exhausted.
    pub fn get(&self, scope: usize, name: &String) -> (r: Option<Value>)
        requires
            self.wf(),
            scope < self@.len(),
        ensures
            match r {
                Option::Some(v) => lookup(self@, scope as int, name@) == Option::Some(v@)
                    && val_wf(v) && envs_ok(v@, self@.len() as int),
                Option::None => lookup(self@, scope as int, name@) is None,
            },
    {
        let mut cur: usize = scope;
        loop
            invariant
                self.wf(),
                cur < self@.len(),
                lookup(self@, scope as int, name@) == lookup(self@, cur as int, name@),
            decreases cur,
        {
            proof {
                assert(self@[cur as int] == self.scopes@[cur as int]@);
                assert(scope_ok(self.scopes@[cur as int], cur as int, self.scopes@.len() as int));
            }
            match find_local(&self.scopes[cur], name) {
                Option::Some(i) => {
                    let v = self.scopes[cur].entries[i].1.clone();
                    proof {
                        assert(self@[cur as int].bindings.contains_key(name@));
                        assert(val_wf(self.scopes@[cur as int].entries@[i as int].1));
                    }
                    return Option::Some(v);
                },
                Option::None => {
                    proof {
                        assert(!self@[cur as int].bindings.contains_key(name@));
                    }
                    match self.scopes[cur].parent {
                        Option::Some(p) => {
                            proof {
                                assert(0 <= p < cur);
                            }
                            cur = p;
                        },
                        Option::None => {
                            return Option::None;
                        },
                    }
                },
            }
        }
    }

    /// Binds `name` to `value` in exactly the given scope — shadowing an
    /// outer binding of the same name rather than rebinding it. Within the
    /// scope, the last `set` wins.
    pub fn set(&mut self, scope: usize, name: String, value: Value)
        requires
            old(self).wf(),
            scope < old(self)@.len(),
            val_wf(value),
            envs_ok(value@, old(self)@.len() as int),
        ensures
            final(self).wf(),
            final(self)@.len() == old(self)@.len(),
            final(self)@ == old(self)@.update(
                scope as int,
                SpecScope {
                    parent: old(self)@[scope as int].parent,
                    bindings: old(self)@[scope as int].bindings.insert(name@, value@),
                },
            ),
    {
        let ghost old_arena = self@;
        let ghost old_scopes = self.scopes@;
        let ghost v_view = value@;
        let ghost name_view = name@;
        let s = &mut self.scopes[scope];
        let ghost old_entries = s.entries@;
        s.entries.push((name, value));
        proof {
            assert(s.entries@.drop_last() =~= old_entries);
            assert(s.entries@.last().0@ == name_view);
            assert(s@.bindings == entries_map(old_entries).insert(name_view, v_view));
            assert(self.scopes@ == old_scopes.update(scope as int, *s));
            assert forall|i: int| 0 <= i < self.scopes@.len() implies scope_ok(
                #[trigger] self.scopes@[i],
                i,
                self.scopes@.len() as int,
            ) by {
                assert(scope_ok(old_scopes[i], i, old_scopes.len() as int));
                if i == scope {
                    assert forall|j: int| 0 <= j < self.scopes@[i].entries@.len() implies val_wf(
                        (#[trigger] self.scopes@[i].entries@[j]).1,
                    ) && envs_ok(self.scopes@[i].entries@[j].1@, self.scopes@.len() as int) by {
                        if j < old_entries.len() {
                            assert(self.scopes@[i].entries@[j] == old_entries[j]);
                            assert(val_wf(old_entries[j].1) && envs_ok(
                                old_entries[j].1@,
                                old_scopes.len() as int,
                            ));
                        }
                    }
                } else {
                    assert(self.scopes@[i] == old_scopes[i]);
                }
            }
            assert forall|i: int| 0 <= i < self@.len() implies self@[i] == old_arena.update(
                scope as int,
                SpecScope {
                    parent: old_arena[scope as int].parent,
                    bindings: old_arena[scope as int].bindings.insert(name_view, v_view),
                },
            )[i] by {
                if i != scope {
                    assert(self.scopes@[i] == old_scopes[i]);
                }
            }
            assert(self@ =~= old_arena.update(
                scope as int,
                SpecScope {
                    parent: old_arena[scope as int].parent,
                    bindings: old_arena[scope as int].bindings.insert(name_view, v_view),
                },
            ));
        }
    }

    /// Adds a fresh, empty scope whose parent is `parent`, and returns its
    /// index. Existing scopes and bindings are untouched.
    pub fn new_scope(&mut self, parent: usize) -> (idx: usize)
        requires
            old(self).wf(),
            parent < old(self)@.len(),
        ensures
            final(self).wf(),
            idx == old(self)@.len(),
            final(self)@ == old(self)@.push(
                SpecScope {
                    parent: Option::Some(parent as int),
                    bindings: Map::<Seq<char>, SpecValue>::empty(),
                },
            ),
    {
        let ghost old_arena = self@;
        let ghost old_scopes = self.scopes@;
        let idx = self.scopes.len();
        self.scopes.push(Scope { parent: Option::Some(parent), entries: Vec::new() });
        proof {
            assert forall|i: int| 0 <= i < self.scopes@.len() implies scope_ok(
                #[trigger] self.scopes@[i],
                i,
                self.scopes@.len() as int,
            ) by {
                if i < old_scopes.len() {
                    assert(self.scopes@[i] == old_scopes[i]);
                    assert(scope_ok(old_scopes[i], i, old_scopes.len() as int));
                    assert forall|j: int|
                        0 <= j < self.scopes@[i].entries@.len() implies val_wf(
                        (#[trigger] self.scopes@[i].entries@[j]).1,
                    ) && envs_ok(self.scopes@[i].entries@[j].1@, self.scopes@.len() as int) by {
                        assert(val_wf(old_scopes[i].entries@[j].1) && envs_ok(
                            old_scopes[i].entries@[j].1@,
                            old_scopes.len() as int,
                        ));
                        crate::value::lemma_envs_ok_mono(
                            old_scopes[i].entries@[j].1@,
                            old_scopes.len() as int,
                            self.scopes@.len() as int,
                        );
                    }
                } else {
                    assert(self.scopes@[i].entries@.len() == 0);
                }
            }
            assert(self.scopes@[idx as int].entries@.len() == 0);
            assert(self.scopes@[idx as int]@.bindings =~= Map::<Seq<char>, SpecValue>::empty());
            assert(self@ =~= old_arena.push(
                SpecScope {
                    parent: Option::Some(parent as int),
                    bindings: Map::<Seq<char>, SpecValue>::empty(),
                },
            ));
        }
        idx
    }
}

/// Rebinding a name in a scope is observed by every later resolution that
/// starts at that scope: the last `set` wins.
pub proof fn lemma_lookup_sees_update(
    scopes: Seq<SpecScope>,
    s: int,
    name: Seq<char>,
    v: SpecValue,
)
    requires
        0 <= s < scopes.len(),
    ensures
        lookup(
            scopes.update(
                s,
                SpecScope { parent: scopes[s].parent, bindings: scopes[s].bindings.insert(name, v) },
            ),
            s,
            name,
        ) == Option::Some(v),
{
}

/// A closure capture observes live mutation: a scope that resolves a name
/// through its parent — it has no local binding of it — sees the value the
/// parent was later rebound to, because the capture shares the scope rather
/// than copying it.
pub proof fn lemma_child_sees_parent_update(
    scopes: Seq<SpecScope>,
    child: int,
    parent: int,
    name: Seq<char>,
    v: SpecValue,
)
    requires
        0 <= parent < child < scopes.len(),
        scopes[child].parent == Option::Some(parent),
        !scopes[child].bindings.contains_key(name),
    ensures
        lookup(
            scopes.update(
                parent,
                SpecScope {
                    parent: scopes[parent].parent,
                    bindings: scopes[parent].bindings.insert(name, v),
                },
            ),
            child,
            name,
        ) == Option::Some(v),
{
    let updated = scopes.update(
        parent,
        SpecScope {
            parent: scopes[parent].parent,
            bindings: scopes[parent].bindings.insert(name, v),
        },
    );
    assert(updated[child] == scopes[child]);
    lemma_lookup_sees_update(scopes, parent, name, v);
}

} // verus!
