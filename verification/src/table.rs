//! Variable tables, local scopes and method records.

use crate::fxmap::{fx_contains, fx_get, fx_insert, fx_keys, fx_new};
use crate::util::IdentId;
use crate::value::{clone_value, Value, ValueView};
use rustc_hash::FxHashMap;
use vstd::prelude::*;

verus! {

/// Values by the number of the identifier they are bound to.
#[derive(Debug)]
pub struct ValueTable {
    pub map: FxHashMap<usize, Value>,
}

impl View for ValueTable {
    type V = Map<usize, ValueView>;

    open spec fn view(&self) -> Map<usize, ValueView> {
        Map::new(|k: usize| self.map@.contains_key(k), |k: usize| self.map@[k]@)
    }
}

/// The outer table after an inner scope has ended: every name of the outer
/// table that the inner scope also held takes the inner scope's value; no
/// name is added.
pub open spec fn copy_back(outer: Map<usize, ValueView>, inner: Map<usize, ValueView>) -> Map<
    usize,
    ValueView,
> {
    Map::new(
        |k: usize| outer.contains_key(k),
        |k: usize|
            if inner.contains_key(k) {
                inner[k]
            } else {
                outer[k]
            },
    )
}

/// A prefix that is one longer holds what the shorter one holds, and the
/// element that was added.
pub proof fn lemma_prefix_contains(keys: Seq<usize>, i: int, j: usize)
    requires
        0 <= i < keys.len(),
    ensures
        keys.subrange(0, i + 1).contains(j) <==> (keys.subrange(0, i).contains(j) || j == keys[i]),
{
    let pre = keys.subrange(0, i);
    let nxt = keys.subrange(0, i + 1);
    if nxt.contains(j) {
        let p = choose|p: int| 0 <= p < nxt.len() && nxt[p] == j;
        if p < i {
            assert(pre[p] == j);
        }
    }
    if pre.contains(j) {
        let p = choose|p: int| 0 <= p < pre.len() && pre[p] == j;
        assert(nxt[p] == j);
    }
    if j == keys[i] {
        assert(nxt[i] == j);
    }
}

impl ValueTable {
    pub fn new() -> (r: Self)
        ensures
            r@ == Map::<usize, ValueView>::empty(),
    {
        let r = ValueTable { map: fx_new() };
        assert(r@ =~= Map::<usize, ValueView>::empty());
        r
    }

    /// A copy of the value bound to `k`, if any.
    pub fn get(&self, k: usize) -> (r: Option<Value>)
        ensures
            r is Some == self@.contains_key(k),
            r is Some ==> r->0@ == self@[k],
    {
        match fx_get(&self.map, k) {
            Some(v) => Some(clone_value(v)),
            None => None,
        }
    }

    pub fn contains_key(&self, k: usize) -> (r: bool)
        ensures
            r == self@.contains_key(k),
    {
        fx_contains(&self.map, k)
    }

    /// Binds `k` to `v`, whether or not it was bound before.
    pub fn insert(&mut self, k: usize, v: Value)
        ensures
            final(self)@ == old(self)@.insert(k, v@),
    {
        fx_insert(&mut self.map, k, v);
        assert(self@ =~= old(self)@.insert(k, v@));
    }

    /// The bound identifiers, each once, in no particular order.
    pub fn keys(&self) -> (r: Vec<usize>)
        ensures
            r@.no_duplicates(),
            r@.to_set() == self@.dom(),
    {
        let r = fx_keys(&self.map);
        assert(self@.dom() =~= self.map@.dom());
        r
    }

    /// An independent copy with the same bindings.
    pub fn clone_table(&self) -> (r: Self)
        ensures
            r@ == self@,
    {
        let keys = fx_keys(&self.map);
        let mut out = ValueTable::new();
        let mut i: usize = 0;
        while i < keys.len()
            invariant
                i <= keys.len(),
                keys@.to_set() == self.map@.dom(),
                forall|k: usize| #[trigger]
                    out@.contains_key(k) <==> keys@.subrange(0, i as int).contains(k),
                forall|k: usize| #[trigger] out@.contains_key(k) ==> out@[k] == self@[k],
            decreases keys.len() - i,
        {
            let k: usize = keys[i];
            assert(keys@.to_set().contains(k));
            let ghost before = out@;
            match fx_get(&self.map, k) {
                Some(v) => {
                    out.insert(k, clone_value(v));
                },
                None => {},
            }
            assert forall|j: usize| #[trigger]
                out@.contains_key(j) <==> keys@.subrange(0, i + 1).contains(j) by {
                lemma_prefix_contains(keys@, i as int, j);
            }
            i += 1;
        }
        assert(keys@.subrange(0, keys.len() as int) =~= keys@);
        assert(out@ =~= self@) by {
            assert forall|k: usize| self@.contains_key(k) implies out@.contains_key(k) by {
                assert(keys@.to_set().contains(k));
            }
            assert forall|k: usize| out@.contains_key(k) implies self@.contains_key(k) by {
                assert(keys@.contains(k));
                assert(keys@.to_set().contains(k));
            }
        }
        out
    }

    /// Takes over every binding of `other`: what `other` binds is bound
    /// as in `other`, and the rest stays.
    pub fn overlay(&mut self, other: &ValueTable)
        ensures
            final(self)@ == old(self)@.union_prefer_right(other@),
    {
        let keys = fx_keys(&other.map);
        let mut i: usize = 0;
        while i < keys.len()
            invariant
                i <= keys.len(),
                keys@.to_set() == other.map@.dom(),
                forall|k: usize| #[trigger]
                    self@.contains_key(k) <==> old(self)@.contains_key(k) || keys@.subrange(
                        0,
                        i as int,
                    ).contains(k),
                forall|k: usize| #[trigger]
                    self@.contains_key(k) ==> self@[k] == (if keys@.subrange(0, i as int).contains(
                        k,
                    ) {
                        other@[k]
                    } else {
                        old(self)@[k]
                    }),
            decreases keys.len() - i,
        {
            let k: usize = keys[i];
            assert(keys@.to_set().contains(k));
            match fx_get(&other.map, k) {
                Some(v) => {
                    self.insert(k, clone_value(v));
                },
                None => {},
            }
            assert forall|j: usize| #[trigger]
                self@.contains_key(j) <==> old(self)@.contains_key(j) || keys@.subrange(
                    0,
                    i + 1,
                ).contains(j) by {
                lemma_prefix_contains(keys@, i as int, j);
            }
            assert forall|j: usize| #[trigger] self@.contains_key(j) implies self@[j] == (if keys@.subrange(
                0,
                i + 1,
            ).contains(j) {
                other@[j]
            } else {
                old(self)@[j]
            }) by {
                lemma_prefix_contains(keys@, i as int, j);
            }
            i += 1;
        }
        assert(keys@.subrange(0, keys.len() as int) =~= keys@);
        assert(self@ =~= old(self)@.union_prefer_right(other@)) by {
            assert forall|k: usize| other@.contains_key(k) implies keys@.contains(k) by {
                assert(keys@.to_set().contains(k));
            }
            assert forall|k: usize| keys@.contains(k) implies other@.contains_key(k) by {
                assert(keys@.to_set().contains(k));
            }
        }
    }

    /// Takes over from `inner` the value of every name that both tables hold.
    pub fn copy_back_from(&mut self, inner: &ValueTable)
        ensures
            final(self)@ == copy_back(old(self)@, inner@),
    {
        let keys = fx_keys(&inner.map);
        let mut i: usize = 0;
        while i < keys.len()
            invariant
                i <= keys.len(),
                keys@.to_set() == inner.map@.dom(),
                self@.dom() == old(self)@.dom(),
                forall|k: usize| #[trigger]
                    self@.contains_key(k) ==> self@[k] == (if keys@.subrange(0, i as int).contains(
                        k,
                    ) {
                        inner@[k]
                    } else {
                        old(self)@[k]
                    }),
            decreases keys.len() - i,
        {
            let k: usize = keys[i];
            assert(keys@.to_set().contains(k));
            let ghost before = self@;
            if fx_contains(&self.map, k) {
                match fx_get(&inner.map, k) {
                    Some(v) => {
                        self.insert(k, clone_value(v));
                    },
                    None => {},
                }
            }
            assert(self@.dom() =~= old(self)@.dom());
            assert forall|j: usize| #[trigger] self@.contains_key(j) implies self@[j] == (if keys@.subrange(
                0,
                i + 1,
            ).contains(j) {
                inner@[j]
            } else {
                old(self)@[j]
            }) by {
                lemma_prefix_contains(keys@, i as int, j);
            }
            i += 1;
        }
        assert(keys@.subrange(0, keys.len() as int) =~= keys@);
        assert(self@ =~= copy_back(old(self)@, inner@)) by {
            assert forall|k: usize| self@.contains_key(k) implies self@[k] == copy_back(
                old(self)@,
                inner@,
            )[k] by {
                if inner@.contains_key(k) {
                    assert(keys@.to_set().contains(k));
                } else {
                    if keys@.contains(k) {
                        assert(keys@.to_set().contains(k));
                    }
                }
            }
        }
    }
}

impl Clone for ValueTable {
    fn clone(&self) -> (r: Self)
        ensures
            r@ == self@,
    {
        self.clone_table()
    }
}

/// The local variables of one body, and a snapshot of the variables of the
/// scope that enclosed it when it was entered.
#[derive(Debug)]
pub struct LocalScope {
    pub lvar_table: ValueTable,
    pub propagated_table: ValueTable,
}

pub struct ScopeView {
    pub lvar: Map<usize, ValueView>,
    pub propagated: Map<usize, ValueView>,
}

impl View for LocalScope {
    type V = ScopeView;

    open spec fn view(&self) -> ScopeView {
        ScopeView { lvar: self.lvar_table@, propagated: self.propagated_table@ }
    }
}

/// The scope that a body starts with when it is entered from `outer`: the
/// variables of `outer`, and a snapshot of them.
pub open spec fn propagated_scope(outer: ScopeView) -> ScopeView {
    ScopeView { lvar: outer.lvar, propagated: outer.lvar }
}

impl LocalScope {
    pub fn new() -> (r: Self)
        ensures
            r@ == (ScopeView {
                lvar: Map::<usize, ValueView>::empty(),
                propagated: Map::<usize, ValueView>::empty(),
            }),
    {
        LocalScope { lvar_table: ValueTable::new(), propagated_table: ValueTable::new() }
    }

    /// The scope for a body entered from this one.
    pub fn propagate(&self) -> (r: Self)
        ensures
            r@ == propagated_scope(self@),
    {
        LocalScope { lvar_table: self.lvar_table.clone(), propagated_table: self.lvar_table.clone() }
    }
}

impl Clone for LocalScope {
    fn clone(&self) -> (r: Self)
        ensures
            r@ == self@,
    {
        LocalScope {
            lvar_table: self.lvar_table.clone(),
            propagated_table: self.propagated_table.clone(),
        }
    }
}

/// The global variables.
#[derive(Debug)]
pub struct GlobalScope {
    pub gvar_table: ValueTable,
}

impl GlobalScope {
    pub fn new() -> (r: Self)
        ensures
            r.gvar_table@ == Map::<usize, ValueView>::empty(),
    {
        GlobalScope { gvar_table: ValueTable::new() }
    }
}

/// The functions that the interpreter itself provides.
#[derive(Debug, Clone, Copy, PartialEq, Eq, Structural)]
pub enum Builtin {
    Puts,
    New,
    ToI,
    ToS,
    Assert,
    Class,
    Times,
    Len,
    Each,
    InstanceVariables,
}

/// A method: either defined by the program, with its parameters, the key of
/// its compiled body and the scope it was defined in, or provided by the
/// interpreter.
#[derive(Debug)]
pub enum MethodInfo {
    RubyFunc { params: Vec<IdentId>, ptr: usize, local_scope: LocalScope },
    BuiltinFunc { name: String, func: Builtin },
}

pub enum MethodView {
    RubyFunc { params: Seq<usize>, ptr: usize, scope: ScopeView },
    BuiltinFunc { name: Seq<char>, func: Builtin },
}

/// The numbers of a sequence of identifiers.
pub open spec fn ids_view(ids: Seq<IdentId>) -> Seq<usize> {
    Seq::new(ids.len(), |i: int| ids[i].0)
}

impl View for MethodInfo {
    type V = MethodView;

    open spec fn view(&self) -> MethodView {
        match self {
            MethodInfo::RubyFunc { params, ptr, local_scope } => MethodView::RubyFunc {
                params: ids_view(params@),
                ptr: *ptr,
                scope: local_scope@,
            },
            MethodInfo::BuiltinFunc { name, func } => MethodView::BuiltinFunc {
                name: name@,
                func: *func,
            },
        }
    }
}

/// A copy of a list of identifiers.
pub fn clone_ids(ids: &Vec<IdentId>) -> (r: Vec<IdentId>)
    ensures
        r@ == ids@,
{
    let mut out: Vec<IdentId> = Vec::new();
    let mut i: usize = 0;
    while i < ids.len()
        invariant
            i <= ids.len(),
            out@ == ids@.subrange(0, i as int),
        decreases ids.len() - i,
    {
        out.push(ids[i]);
        assert(out@ =~= ids@.subrange(0, i + 1));
        i += 1;
    }
    assert(ids@.subrange(0, ids.len() as int) =~= ids@);
    out
}

impl Clone for MethodInfo {
    fn clone(&self) -> (r: Self)
        ensures
            r@ == self@,
    {
        match self {
            MethodInfo::RubyFunc { params, ptr, local_scope } => MethodInfo::RubyFunc {
                params: clone_ids(params),
                ptr: *ptr,
                local_scope: local_scope.clone(),
            },
            MethodInfo::BuiltinFunc { name, func } => MethodInfo::BuiltinFunc {
                name: name.clone(),
                func: *func,
            },
        }
    }
}

/// Methods by the number of their name.
#[derive(Debug)]
pub struct MethodTable {
    pub map: FxHashMap<usize, MethodInfo>,
}

impl View for MethodTable {
    type V = Map<usize, MethodView>;

    open spec fn view(&self) -> Map<usize, MethodView> {
        Map::new(|k: usize| self.map@.contains_key(k), |k: usize| self.map@[k]@)
    }
}

impl MethodTable {
    pub fn new() -> (r: Self)
        ensures
            r@ == Map::<usize, MethodView>::empty(),
    {
        let r = MethodTable { map: fx_new() };
        assert(r@ =~= Map::<usize, MethodView>::empty());
        r
    }

    /// A copy of the method bound to `k`, if any.
    pub fn get(&self, k: usize) -> (r: Option<MethodInfo>)
        ensures
            r is Some == self@.contains_key(k),
            r is Some ==> r->0@ == self@[k],
    {
        match fx_get(&self.map, k) {
            Some(v) => Some(v.clone()),
            None => None,
        }
    }

    pub fn contains_key(&self, k: usize) -> (r: bool)
        ensures
            r == self@.contains_key(k),
    {
        fx_contains(&self.map, k)
    }

    /// Binds `k` to `info`; the method bound before, if any, comes back.
    pub fn insert(&mut self, k: usize, info: MethodInfo) -> (r: Option<MethodInfo>)
        ensures
            final(self)@ == old(self)@.insert(k, info@),
            r is Some == old(self)@.contains_key(k),
            r is Some ==> r->0@ == old(self)@[k],
    {
        let r = fx_insert(&mut self.map, k, info);
        assert(self@ =~= old(self)@.insert(k, info@));
        r
    }
}

} // verus!
