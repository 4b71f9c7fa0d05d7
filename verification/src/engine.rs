//! The operations of the machine on its operand stack, its scopes and its
//! object model.

use crate::class::{refs_view, ClassRef};
use crate::fxmap::{fx_get, fx_keys};
use crate::instance::InstanceRef;
use crate::machine::{slot_ident, slot_idents, slot_option_ident, slot_ptr, Env, ErrorTag};
use crate::table::{lemma_prefix_contains, MethodInfo, MethodView};
use crate::util::IdentId;
use crate::value::{to_word, Value};
use crate::vm::{fail, ok_state, ok_values, ok_word, same_word, RuntimeError, VM};
use rustc_hash::FxHashMap;
use vstd::prelude::*;

verus! {

/// Whether a lookup gave the expected method or failed as expected.
pub open spec fn same_method(expected: Result<MethodView, ErrorTag>, got: Result<MethodInfo, RuntimeError>) -> bool {
    match expected {
        Ok(v) => got is Ok && got->Ok_0@ == v,
        Err(t) => got is Err && got->Err_0.kind.tag() == t,
    }
}

/// Whether a lookup gave the expected method, or none, or failed as
/// expected.
pub open spec fn same_option_method(
    expected: Result<Option<MethodView>, ErrorTag>,
    got: Result<Option<MethodInfo>, RuntimeError>,
) -> bool {
    match expected {
        Ok(Some(v)) => got is Ok && got->Ok_0 is Some && got->Ok_0->0@ == v,
        Ok(None) => got is Ok && got->Ok_0 is None,
        Err(t) => got is Err && got->Err_0.kind.tag() == t,
    }
}

/// Whether a conversion gave the expected identifier, or none, or failed as
/// expected.
pub open spec fn same_option_word(
    expected: Result<Option<usize>, ErrorTag>,
    got: Result<Option<IdentId>, RuntimeError>,
) -> bool {
    match expected {
        Ok(Some(v)) => got is Ok && got->Ok_0 == Some(IdentId(v)),
        Ok(None) => got is Ok && got->Ok_0 is None,
        Err(t) => got is Err && got->Err_0.kind.tag() == t,
    }
}

/// The identifier in a stack slot.
pub fn ident_of(v: &Value) -> (r: Result<usize, RuntimeError>)
    ensures
        same_word(slot_ident(v@), r),
{
    match v {
        Value::FixNum(n) => Ok(to_word(*n)),
        _ => fail(ErrorTag::Unimplemented, "an identifier was expected"),
    }
}

/// The identifier in a stack slot, or none for nil.
pub fn option_ident_of(v: &Value) -> (r: Result<Option<IdentId>, RuntimeError>)
    ensures
        same_option_word(slot_option_ident(v@), r),
{
    match v {
        Value::FixNum(n) => Ok(Some(IdentId(to_word(*n)))),
        Value::Nil => Ok(None),
        _ => fail(ErrorTag::Unimplemented, "an identifier or nil was expected"),
    }
}

/// The buffer key in a stack slot; nil stands for no buffer.
pub fn ptr_of(v: &Value) -> (r: Result<usize, RuntimeError>)
    ensures
        same_word(slot_ptr(v@), r),
{
    match v {
        Value::FixNum(n) => Ok(to_word(*n)),
        Value::Nil => Ok(0),
        _ => fail(ErrorTag::Unimplemented, "a buffer key or nil was expected"),
    }
}

/// The identifiers in a run of stack slots.
pub fn idents_of(vs: &Vec<Value>) -> (r: Result<Vec<IdentId>, RuntimeError>)
    ensures
        match slot_idents(crate::value::values_view(vs@)) {
            Ok(ids) => r is Ok && crate::table::ids_view(r->Ok_0@) == ids,
            Err(t) => r is Err && r->Err_0.kind.tag() == t,
        },
{
    let ghost views = crate::value::values_view(vs@);
    proof {
        crate::value::lemma_values_view(vs@);
    }
    let mut out: Vec<IdentId> = Vec::new();
    let mut i: usize = 0;
    while i < vs.len()
        invariant
            i <= vs.len(),
            out@.len() == i,
            views == crate::value::values_view(vs@),
            views.len() == vs@.len(),
            forall|j: int| 0 <= j < vs@.len() ==> #[trigger] views[j] == vs@[j]@,
            forall|j: int| 0 <= j < i ==> (#[trigger] views[j]) is FixNum,
            forall|j: int| 0 <= j < i ==> (#[trigger] out@[j]).0 == crate::value::word_of(views[j]->FixNum_0),
        decreases vs.len() - i,
    {
        match &vs[i] {
            Value::FixNum(n) => {
                out.push(IdentId(to_word(*n)));
            },
            _ => {
                assert(!(views[i as int] is FixNum));
                return fail(ErrorTag::Unimplemented, "an identifier was expected");
            },
        }
        i += 1;
    }
    assert(crate::table::ids_view(out@) =~= slot_idents(views)->Ok_0);
    Ok(out)
}

impl VM {
    /// Takes a count off the operand stack and then that many values.
    pub fn pop_array(&mut self) -> (r: Result<Vec<Value>, RuntimeError>)
        ensures
            ok_values(old(self)@.pop_array(), r, final(self)@),
            old(self).wf() ==> final(self).wf(),
    {
        let v = self.pop_checked()?;
        let n: usize = match v {
            Value::FixNum(n) => {
                if n <= 0 {
                    0
                } else if n as u64 > usize::MAX as u64 {
                    proof {
                        if self.stack.exec_stack@.len() > 0 {
                            let top = self.stack.exec_stack@.last();
                            crate::value::lemma_values_view(top@);
                            assert(top.len() == top@.len());
                        }
                    }
                    return fail(ErrorTag::Unreachable, "the operand stack is too short");
                } else {
                    n as usize
                }
            },
            Value::Nil => 0,
            _ => {
                return fail(ErrorTag::Unimplemented, "a count was expected");
            },
        };
        self.pop_n(n)
    }

    /// Takes a buffer key off the operand stack.
    pub fn pop_ptr(&mut self) -> (r: Result<usize, RuntimeError>)
        ensures
            ok_word(old(self)@.pop_ptr(), r, final(self)@),
            old(self).wf() ==> final(self).wf(),
    {
        let v = self.pop_checked()?;
        ptr_of(&v)
    }

    /// Takes an identifier off the operand stack.
    pub fn pop_ident(&mut self) -> (r: Result<usize, RuntimeError>)
        ensures
            ok_word(old(self)@.pop_ident(), r, final(self)@),
            old(self).wf() ==> final(self).wf(),
    {
        let v = self.pop_checked()?;
        ident_of(&v)
    }

    /// Binds a local variable in the innermost scope.
    pub fn set_local(&mut self, id: usize, v: Value) -> (r: Result<(), RuntimeError>)
        ensures
            ok_state(old(self)@.set_local(id, v@), r, final(self)@),
            old(self).wf() ==> final(self).wf(),
    {
        match self.scope_stack.pop() {
            None => fail(ErrorTag::Unreachable, "no scope"),
            Some(mut top) => {
                top.lvar_table.insert(id, v);
                self.scope_stack.push(top);
                assert(self@.scopes =~= old(self)@.set_local(id, v@)->Ok_0.scopes);
                Ok(())
            },
        }
    }

    /// A copy of the local variable `id` of the innermost scope, if any.
    pub fn get_local(&self, id: usize) -> (r: Option<Value>)
        requires
            self.scope_stack@.len() > 0,
        ensures
            r is Some == self@.scopes.last().lvar.contains_key(id),
            r is Some ==> r->0@ == self@.scopes.last().lvar[id],
    {
        let n: usize = self.scope_stack.len();
        self.scope_stack[n - 1].lvar_table.get(id)
    }

    /// Enters a scope that starts with the variables of the current one,
    /// with `bound` added where there is one.
    pub fn enter_scope(&mut self, bound: Option<(usize, Value)>) -> (r: Result<(), RuntimeError>)
        ensures
            ok_state(
                old(self)@.enter_scope(
                    match bound {
                        Some((id, v)) => Some((id, v@)),
                        None => None,
                    },
                ),
                r,
                final(self)@,
            ),
            old(self).wf() ==> final(self).wf(),
    {
        let n: usize = self.scope_stack.len();
        if n == 0 {
            return fail(ErrorTag::Unreachable, "no scope");
        }
        let mut scope = self.scope_stack[n - 1].propagate();
        match bound {
            Some((id, v)) => {
                scope.lvar_table.insert(id, v);
            },
            None => {},
        }
        self.scope_stack.push(scope);
        assert(self@.scopes =~= old(self)@.enter_scope(
            match bound {
                Some((id, v)) => Some((id, v@)),
                None => None,
            },
        )->Ok_0.scopes);
        Ok(())
    }

    /// Leaves the innermost scope: every variable that it shares with the
    /// scope around it is copied back to that scope, and the others are
    /// dropped with it.
    pub fn leave_scope(&mut self) -> (r: Result<(), RuntimeError>)
        ensures
            ok_state(old(self)@.leave_scope(), r, final(self)@),
            old(self).wf() ==> final(self).wf(),
    {
        if self.scope_stack.len() < 2 {
            return fail(ErrorTag::Unreachable, "no scope to return to");
        }
        let inner = self.scope_stack.pop().unwrap();
        let mut outer = self.scope_stack.pop().unwrap();
        outer.lvar_table.copy_back_from(&inner.lvar_table);
        self.scope_stack.push(outer);
        assert(self@.scopes =~= old(self)@.leave_scope()->Ok_0.scopes);
        Ok(())
    }

    /// The class of an entry of the environment stack.
    pub fn class_of_env(&self, e: Env) -> (r: Result<usize, RuntimeError>)
        ensures
            same_word(self@.class_of_env(e), r),
    {
        match e {
            Env::ClassRef(c) => {
                if self.class_table.contains(c) {
                    Ok(c.0)
                } else {
                    fail(ErrorTag::Unreachable, "the class handle is not valid")
                }
            },
            Env::InstanceRef(i) => {
                if !self.instance_table.contains(i) {
                    return fail(ErrorTag::Unreachable, "the instance handle is not valid");
                }
                let c = self.instance_table.get(i).class_id;
                if self.class_table.contains(c) {
                    Ok(c.0)
                } else {
                    fail(ErrorTag::Unreachable, "the class handle is not valid")
                }
            },
        }
    }

    /// The class that `self` is or belongs to.
    pub fn env_class(&self) -> (r: Result<usize, RuntimeError>)
        ensures
            same_word(self@.env_class(), r),
    {
        let n: usize = self.env.len();
        if n == 0 {
            return fail(ErrorTag::Unreachable, "no self");
        }
        self.class_of_env(self.env[n - 1])
    }

    /// The method `id` of the classes that `sub` refers to: where several
    /// of them have it, the one under the smallest identifier.
    pub fn parent_method(&self, sub: &FxHashMap<usize, ClassRef>, id: usize) -> (r: Result<
        Option<MethodInfo>,
        RuntimeError,
    >)
        ensures
            same_option_method(self@.parent_method(refs_view(sub@), id), r),
    {
        let ghost m = self@;
        let ghost subv = refs_view(sub@);
        let keys = fx_keys(sub);
        let mut best: Option<usize> = None;
        let mut i: usize = 0;
        while i < keys.len()
            invariant
                i <= keys.len(),
                m == self@,
                subv == refs_view(sub@),
                keys@.to_set() == sub@.dom(),
                forall|k: usize|
                    keys@.subrange(0, i as int).contains(k) ==> m.classes.classes.contains_key(
                        #[trigger] subv[k],
                    ),
                best is Some ==> m.parent_has(subv, best->0, id),
                forall|k: usize|
                    keys@.subrange(0, i as int).contains(k) && #[trigger] m.parent_has(subv, k, id)
                        ==> best is Some && best->0 <= k,
            decreases keys.len() - i,
        {
            let k: usize = keys[i];
            assert(keys@.to_set().contains(k));
            assert(subv.contains_key(k));
            let class = match fx_get(sub, k) {
                Some(c) => *c,
                None => {
                    return fail(ErrorTag::Unreachable, "the class handle is not valid");
                },
            };
            assert(class.0 == subv[k]);
            if !self.class_table.contains(class) {
                assert(!m.parents_exist(subv));
                return fail(ErrorTag::Unreachable, "the class handle is not valid");
            }
            let has: bool = self.class_table.get(class).method_table.contains_key(id);
            assert(has == m.parent_has(subv, k, id));
            let ghost old_best = best;
            if has {
                best = match best {
                    Some(b) => if k < b {
                        Some(k)
                    } else {
                        Some(b)
                    },
                    None => Some(k),
                };
            }
            assert forall|j: usize|
                keys@.subrange(0, i + 1).contains(j) implies m.classes.classes.contains_key(
                #[trigger] subv[j],
            ) by {
                lemma_prefix_contains(keys@, i as int, j);
            }
            assert forall|j: usize|
                keys@.subrange(0, i + 1).contains(j) && #[trigger] m.parent_has(
                    subv,
                    j,
                    id,
                ) implies best is Some && best->0 <= j by {
                lemma_prefix_contains(keys@, i as int, j);
            }
            i += 1;
        }
        assert(keys@.subrange(0, keys.len() as int) =~= keys@);
        assert(m.parents_exist(subv)) by {
            assert forall|k: usize| #[trigger] subv.contains_key(k) implies m.classes.classes.contains_key(
                subv[k],
            ) by {
                assert(keys@.to_set().contains(k));
                assert(keys@.contains(k));
            }
        }
        assert forall|k: usize| #[trigger] m.parent_has(subv, k, id) implies best is Some && best->0
            <= k by {
            assert(keys@.to_set().contains(k));
            assert(keys@.contains(k));
        }
        match best {
            None => Ok(None),
            Some(b) => {
                let ghost chosen = choose|k: usize|
                    m.parent_has(subv, k, id) && forall|j: usize|
                        m.parent_has(subv, j, id) ==> k <= j;
                assert(m.parent_has(subv, b, id) && forall|j: usize|
                    m.parent_has(subv, j, id) ==> b <= j);
                assert(chosen == b);
                let class = match fx_get(sub, b) {
                    Some(c) => *c,
                    None => {
                        return fail(ErrorTag::Unreachable, "the class handle is not valid");
                    },
                };
                match self.class_table.get(class).method_table.get(id) {
                    Some(info) => Ok(Some(info)),
                    None => fail(ErrorTag::Unreachable, "the method is gone"),
                }
            },
        }
    }

    /// The method that `id` names, where method resolution finds one.
    pub fn get_method_info(&self, id: IdentId) -> (r: MethodInfo)
        requires
            self@.resolve(id.0) is Ok,
        ensures
            r@ == self@.resolve(id.0)->Ok_0,
    {
        match self.find_method(id) {
            Ok(info) => info,
            Err(_) => vstd::pervasive::unreached(),
        }
    }

    /// Method resolution: the environment stack is walked from its
    /// innermost entry; for each entry, the method table of its class is
    /// asked, then those of the classes in its subclass map. A name that
    /// no entry offers is an undefined method.
    pub fn find_method(&self, id: IdentId) -> (r: Result<MethodInfo, RuntimeError>)
        ensures
            same_method(self@.resolve(id.0), r),
    {
        let ghost m = self@;
        let mut n: usize = self.env.len();
        while n > 0
            invariant
                n <= self.env@.len(),
                m == self@,
                m.resolve(id.0) == m.resolve_from(id.0, n as nat),
            decreases n,
        {
            let c = self.class_of_env(self.env[n - 1])?;
            let info = self.class_table.get(ClassRef(c));
            match info.method_table.get(id.0) {
                Some(found) => {
                    return Ok(found);
                },
                None => {},
            }
            match self.parent_method(&info.subclass, id.0)? {
                Some(found) => {
                    return Ok(found);
                },
                None => {},
            }
            n -= 1;
        }
        fail(ErrorTag::NoMethod, "undefined method")
    }
}

} // verus!
