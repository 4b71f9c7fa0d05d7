//! Laws of the object model, of the scopes and of the operators.

use crate::class::ClassView;
use crate::inst::Inst;
use crate::instance::InstanceRef;
use crate::machine::{
    binop, fixnum, lemma_block_round, lemma_call_builtin, lemma_op_send, slot_option_ident,
    trunc_div, ArgsView, Env, ErrorTag, Machine,
};
use crate::table::Builtin;
use crate::table::{copy_back, MethodView};
use crate::value::ValueView;
use crate::text::{int_text, lemma_int_text_round_trip};
use crate::util::{intern, intern_id};
use vstd::prelude::*;

verus! {

/// On integers, the arithmetic operators compute the sum, the difference,
/// the product and the quotient rounded towards zero, wherever the result
/// is a 64-bit integer and the divisor is not 0; otherwise they fail. The
/// comparisons compare the numbers.
pub proof fn lemma_integer_operators(a: i64, b: i64)
    ensures
        binop(Inst::ADD, ValueView::FixNum(a), ValueView::FixNum(b)) == fixnum(a + b),
        binop(Inst::SUB, ValueView::FixNum(a), ValueView::FixNum(b)) == fixnum(a - b),
        binop(Inst::MUL, ValueView::FixNum(a), ValueView::FixNum(b)) == fixnum(a * b),
        b != 0 ==> binop(Inst::DIV, ValueView::FixNum(a), ValueView::FixNum(b)) == fixnum(
            trunc_div(a as int, b as int),
        ),
        b == 0 ==> binop(Inst::DIV, ValueView::FixNum(a), ValueView::FixNum(b)) is Err,
        binop(Inst::EQ, ValueView::FixNum(a), ValueView::FixNum(b)) == Ok::<ValueView, ErrorTag>(
            ValueView::Bool(a == b),
        ),
        binop(Inst::NE, ValueView::FixNum(a), ValueView::FixNum(b)) == Ok::<ValueView, ErrorTag>(
            ValueView::Bool(a != b),
        ),
        binop(Inst::GT, ValueView::FixNum(a), ValueView::FixNum(b)) == Ok::<ValueView, ErrorTag>(
            ValueView::Bool(a > b),
        ),
        binop(Inst::GE, ValueView::FixNum(a), ValueView::FixNum(b)) == Ok::<ValueView, ErrorTag>(
            ValueView::Bool(a >= b),
        ),
        binop(Inst::LT, ValueView::FixNum(a), ValueView::FixNum(b)) == Ok::<ValueView, ErrorTag>(
            ValueView::Bool(a < b),
        ),
        binop(Inst::LE, ValueView::FixNum(a), ValueView::FixNum(b)) == Ok::<ValueView, ErrorTag>(
            ValueView::Bool(a <= b),
        ),
        forall|n: int| i64::MIN <= n <= i64::MAX ==> #[trigger] fixnum(n) == Ok::<
            ValueView,
            ErrorTag,
        >(ValueView::FixNum(n as i64)),
        forall|n: int| !(i64::MIN <= n <= i64::MAX) ==> (#[trigger] fixnum(n)) is Err,
{
}

/// The quotient rounded towards zero: its magnitude is the quotient of the
/// magnitudes, and what is left over has the sign of the dividend and is
/// smaller than the divisor.
pub proof fn lemma_trunc_div(a: int, b: int)
    requires
        b != 0,
    ensures
        ({
            let q = trunc_div(a, b);
            let r = a - q * b;
            &&& (a >= 0 ==> 0 <= r)
            &&& (a <= 0 ==> r <= 0)
            &&& (b > 0 ==> -b < r < b)
            &&& (b < 0 ==> b < r < -b)
        }),
{
    let q = trunc_div(a, b);
    if a >= 0 && b > 0 {
        assert(a == b * (a / b) + a % b) by (nonlinear_arith)
            requires
                b != 0,
        ;
        assert(0 <= a % b < b);
        assert(q * b == b * (a / b)) by (nonlinear_arith)
            requires
                q == a / b,
        ;
    } else if a < 0 && b > 0 {
        let n = -a;
        assert(n == b * (n / b) + n % b) by (nonlinear_arith)
            requires
                b != 0,
        ;
        assert(0 <= n % b < b);
        assert(q * b == -(b * (n / b))) by (nonlinear_arith)
            requires
                q == -(n / b),
        ;
    } else if a >= 0 && b < 0 {
        let d = -b;
        assert(a == d * (a / d) + a % d) by (nonlinear_arith)
            requires
                d != 0,
        ;
        assert(0 <= a % d < d);
        assert(q * b == d * (a / d)) by (nonlinear_arith)
            requires
                q == -(a / d),
                b == -d,
        ;
    } else {
        let n = -a;
        let d = -b;
        assert(n == d * (n / d) + n % d) by (nonlinear_arith)
            requires
                d != 0,
        ;
        assert(0 <= n % d < d);
        assert(q * b == -(d * (n / d))) by (nonlinear_arith)
            requires
                q == n / d,
                b == -d,
        ;
    }
}

/// A variable that is assigned in an inner scope is seen in the scope
/// around it after the inner scope has ended exactly if that scope held a
/// variable of that name before; no other variable of the outer scope
/// changes, and none is added.
pub proof fn lemma_scope_propagation(m: Machine, bound: Option<(usize, ValueView)>, id: usize, v: ValueView)
    requires
        m.scopes.len() > 0,
    ensures
        ({
            let outer = m.scopes.last();
            let inner = m.enter_scope(bound)->Ok_0.set_local(id, v)->Ok_0;
            let after = inner.leave_scope()->Ok_0;
            &&& m.enter_scope(bound) is Ok
            &&& m.enter_scope(bound)->Ok_0.set_local(id, v) is Ok
            &&& inner.scopes.last().lvar[id] == v
            &&& inner.leave_scope() is Ok
            &&& after.scopes.len() == m.scopes.len()
            &&& after.scopes.last().lvar.dom() == outer.lvar.dom()
            &&& after.scopes.last().propagated == outer.propagated
            &&& (outer.lvar.contains_key(id) ==> after.scopes.last().lvar[id] == v)
            &&& forall|k: usize|
                outer.lvar.contains_key(k) && k != id && !(bound is Some && bound == Some((k, (bound->0).1)))
                    ==> #[trigger] after.scopes.last().lvar[k] == outer.lvar[k]
            &&& forall|i: int|
                0 <= i < m.scopes.len() - 1 ==> #[trigger] after.scopes[i] == m.scopes[i]
        }),
{
    let outer = m.scopes.last();
    let inner = m.enter_scope(bound)->Ok_0.set_local(id, v)->Ok_0;
    let after = inner.leave_scope()->Ok_0;
    assert(after.scopes.last().lvar.dom() =~= outer.lvar.dom());
}

/// Copying back is idempotent, and copying back from a scope that shares
/// no name changes nothing.
pub proof fn lemma_copy_back(outer: Map<usize, ValueView>, inner: Map<usize, ValueView>)
    ensures
        copy_back(copy_back(outer, inner), inner) == copy_back(outer, inner),
        copy_back(outer, inner).dom() == outer.dom(),
        (forall|k: usize| !(outer.contains_key(k) && inner.contains_key(k))) ==> copy_back(
            outer,
            inner,
        ) == outer,
{
    assert(copy_back(copy_back(outer, inner), inner) =~= copy_back(outer, inner));
    assert(copy_back(outer, inner).dom() =~= outer.dom());
    if forall|k: usize| !(outer.contains_key(k) && inner.contains_key(k)) {
        assert(copy_back(outer, inner) =~= outer);
    }
}

/// Two instances that are created one after the other have handles that
/// no instance had before, so the two differ; both start with the
/// variables that the class declares, every instance and every class from
/// before is unchanged, and the handles in use stay in order.
pub proof fn lemma_new_instances(m: Machine, c: usize)
    requires
        m.ordered(),
        m.new_instance(c) is Ok,
        m.new_instance(c)->Ok_0.0.new_instance(c) is Ok,
    ensures
        ({
            let (m1, i1) = m.new_instance(c)->Ok_0;
            let (m2, i2) = m1.new_instance(c)->Ok_0;
            &&& i1 != i2
            &&& !m.instances.instances.contains_key(i1)
            &&& !m.instances.instances.contains_key(i2)
            &&& !m1.instances.instances.contains_key(i2)
            &&& m2.instances.instances.contains_key(i1)
            &&& m2.instances.instances.contains_key(i2)
            &&& m2.instances.instances[i1].class_id == c
            &&& m2.instances.instances[i2].class_id == c
            &&& m2.instances.instances[i1].instance_var == m.classes.classes[c].instance_var
            &&& m2.instances.instances[i2].instance_var == m.classes.classes[c].instance_var
            &&& m2.classes == m.classes
            &&& m1.ordered()
            &&& m2.ordered()
            &&& forall|k: usize|
                m.instances.instances.contains_key(k) ==> m2.instances.instances.contains_key(k)
                    && #[trigger] m2.instances.instances[k] == m.instances.instances[k]
        }),
{
}

/// A class that is created gets a handle that no class had before; every
/// class from before is unchanged, and the handles in use stay in order.
pub proof fn lemma_new_class(m: Machine, id: usize, ptr: usize)
    requires
        m.ordered(),
        m.new_class(id, ptr) is Ok,
    ensures
        ({
            let (m1, c) = m.new_class(id, ptr)->Ok_0;
            &&& !m.classes.classes.contains_key(c)
            &&& m1.classes.classes.contains_key(c)
            &&& m1.classes.classes[c].id == id
            &&& m1.classes.classes[c].name == m.idents[id as int]
            &&& m1.classes.classes[c].ptr == ptr
            &&& m1.instances == m.instances
            &&& m1.ordered()
            &&& forall|k: usize|
                m.classes.classes.contains_key(k) ==> m1.classes.classes.contains_key(k)
                    && #[trigger] m1.classes.classes[k] == m.classes.classes[k]
        }),
{
}

/// Setting a variable of the instance that is `self` changes that variable
/// of that instance and nothing else: no other instance, and not what the
/// class declares.
pub proof fn lemma_instances_are_independent(m: Machine, i: usize, id: usize, v: ValueView)
    requires
        m.env.len() > 0,
        m.env.last() == Env::InstanceRef(InstanceRef(i)),
        m.instances.instances.contains_key(i),
    ensures
        ({
            let after = m.set_instance_var(id, v)->Ok_0;
            &&& m.set_instance_var(id, v) is Ok
            &&& after.instance_var(id) == Ok::<ValueView, ErrorTag>(v)
            &&& after.instances.instances[i].instance_var == m.instances.instances[i].instance_var.insert(
                id,
                v,
            )
            &&& after.classes == m.classes
            &&& forall|j: usize|
                j != i && m.instances.instances.contains_key(j)
                    ==> #[trigger] after.instances.instances[j] == m.instances.instances[j]
        }),
{
}

/// A method of the class that `self` is or belongs to is found first.
pub proof fn lemma_own_method_first(m: Machine, id: usize)
    requires
        m.env.len() > 0,
        m.class_of_env(m.env.last()) is Ok,
        m.classes.classes[m.class_of_env(m.env.last())->Ok_0].methods.contains_key(id),
    ensures
        m.resolve(id) == Ok::<MethodView, ErrorTag>(
            m.classes.classes[m.class_of_env(m.env.last())->Ok_0].methods[id],
        ),
{
}

/// A method that the class of `self` lacks and a class in its subclass map
/// has is found there, whatever the entries further out would offer.
pub proof fn lemma_parent_before_outer(m: Machine, id: usize)
    requires
        m.env.len() > 0,
        m.class_of_env(m.env.last()) is Ok,
        !m.classes.classes[m.class_of_env(m.env.last())->Ok_0].methods.contains_key(id),
        m.linked(),
        exists|k: usize|
            m.parent_has(m.classes.classes[m.class_of_env(m.env.last())->Ok_0].subclass, k, id),
    ensures
        ({
            let sub = m.classes.classes[m.class_of_env(m.env.last())->Ok_0].subclass;
            &&& m.resolve(id) is Ok
            &&& exists|k: usize|
                m.parent_has(sub, k, id) && m.resolve(id)->Ok_0 == m.classes.classes[sub[k]].methods[id]
            &&& forall|outer: Seq<Env>|
                (#[trigger] Machine { env: outer.push(m.env.last()), ..m }.resolve(id))
                    == m.resolve(id)
        }),
{
    let sub = m.classes.classes[m.class_of_env(m.env.last())->Ok_0].subclass;
    assert(m.classes.classes.contains_key(m.class_of_env(m.env.last())->Ok_0));
    assert(m.parents_exist(sub));
    let k = choose|k: usize|
        m.parent_has(sub, k, id) && forall|j: usize| m.parent_has(sub, j, id) ==> k <= j;
    lemma_least_exists(m, sub, id);
    assert(m.parent_has(sub, k, id));
    assert(m.resolve(id)->Ok_0 == m.classes.classes[sub[k]].methods[id]);
    assert forall|outer: Seq<Env>|
        (#[trigger] Machine { env: outer.push(m.env.last()), ..m }.resolve(id)) == m.resolve(
            id,
        ) by {
        let w = Machine { env: outer.push(m.env.last()), ..m };
        assert(w.env.last() == m.env.last());
        assert(w.class_of_env(w.env.last()) == m.class_of_env(m.env.last()));
        assert(w.parents_exist(sub) == m.parents_exist(sub));
        assert forall|j: usize| w.parent_has(sub, j, id) == m.parent_has(sub, j, id) by {}
        assert(w.parent_method(sub, id) == m.parent_method(sub, id));
    }
}

/// Among the identifiers under which the subclass map offers the method,
/// there is a smallest.
pub proof fn lemma_least_exists(m: Machine, sub: Map<usize, usize>, id: usize)
    requires
        exists|k: usize| m.parent_has(sub, k, id),
    ensures
        exists|k: usize|
            m.parent_has(sub, k, id) && forall|j: usize| m.parent_has(sub, j, id) ==> k <= j,
{
    let k0 = choose|k: usize| m.parent_has(sub, k, id);
    lemma_least_below(m, sub, id, k0);
}

proof fn lemma_least_below(m: Machine, sub: Map<usize, usize>, id: usize, bound: usize)
    requires
        m.parent_has(sub, bound, id),
    ensures
        exists|k: usize|
            m.parent_has(sub, k, id) && forall|j: usize| m.parent_has(sub, j, id) ==> k <= j,
    decreases bound,
{
    if exists|j: usize| m.parent_has(sub, j, id) && j < bound {
        let j = choose|j: usize| m.parent_has(sub, j, id) && j < bound;
        lemma_least_below(m, sub, id, j);
    } else {
        assert(m.parent_has(sub, bound, id) && forall|j: usize|
            m.parent_has(sub, j, id) ==> bound <= j);
    }
}

/// A method that no class of the environment stack has, and no class in
/// the subclass map of one, is not found: the call is fatal.
pub proof fn lemma_undefined_method(m: Machine, id: usize, n: nat)
    requires
        m.linked(),
        n <= m.env.len(),
        forall|i: int|
            0 <= i < n ==> {
                &&& (#[trigger] m.class_of_env(m.env[i])) is Ok
                &&& !m.classes.classes[m.class_of_env(m.env[i])->Ok_0].methods.contains_key(id)
                &&& forall|k: usize|
                    !m.parent_has(
                        m.classes.classes[m.class_of_env(m.env[i])->Ok_0].subclass,
                        k,
                        id,
                    )
            },
    ensures
        m.resolve_from(id, n) == Err::<MethodView, ErrorTag>(ErrorTag::NoMethod),
        n == m.env.len() ==> m.resolve(id) == Err::<MethodView, ErrorTag>(ErrorTag::NoMethod),
    decreases n,
{
    if n > 0 {
        lemma_undefined_method(m, id, (n - 1) as nat);
        let c = m.class_of_env(m.env[n - 1])->Ok_0;
        assert(m.class_of_env(m.env[n - 1]) is Ok);
        assert(m.classes.classes.contains_key(c));
        assert(m.parents_exist(m.classes.classes[c].subclass));
    }
}

/// Whether the class of the entry `i` of the environment stack, or a class
/// in its subclass map, has the method `id`.
pub open spec fn offers(m: Machine, i: int, id: usize) -> bool {
    let cv = m.classes.classes[m.class_of_env(m.env[i])->Ok_0];
    cv.methods.contains_key(id) || exists|k: usize| m.parent_has(cv.subclass, k, id)
}

/// The innermost entry of the environment stack that offers the method
/// wins: where the entries `n` and further in offer nothing, resolution
/// gives what it gives from the entry `n - 1` outwards; and where that
/// entry offers the method, it is found there, in the class of the entry
/// itself first and else in a class of its subclass map.
pub proof fn lemma_innermost_offer_wins(m: Machine, id: usize, n: nat, upto: nat)
    requires
        m.linked(),
        n <= upto <= m.env.len(),
        forall|i: int| 0 <= i < m.env.len() ==> (#[trigger] m.class_of_env(m.env[i])) is Ok,
        forall|i: int| n <= i < upto ==> !#[trigger] offers(m, i, id),
    ensures
        m.resolve_from(id, upto) == m.resolve_from(id, n),
        upto == m.env.len() ==> m.resolve(id) == m.resolve_from(id, n),
        n > 0 && offers(m, n - 1, id) ==> {
            let cv = m.classes.classes[m.class_of_env(m.env[n - 1])->Ok_0];
            &&& m.resolve_from(id, n) is Ok
            &&& cv.methods.contains_key(id) ==> m.resolve_from(id, n)->Ok_0 == cv.methods[id]
            &&& !cv.methods.contains_key(id) ==> exists|k: usize|
                m.parent_has(cv.subclass, k, id) && m.resolve_from(id, n)->Ok_0
                    == m.classes.classes[cv.subclass[k]].methods[id]
        },
    decreases upto,
{
    if upto > n {
        lemma_innermost_offer_wins(m, id, n, (upto - 1) as nat);
        assert(m.class_of_env(m.env[upto - 1]) is Ok);
        let c = m.class_of_env(m.env[upto - 1])->Ok_0;
        let cv = m.classes.classes[c];
        assert(m.classes.classes.contains_key(c));
        assert(m.parents_exist(cv.subclass));
        assert(!offers(m, upto - 1, id));
        assert(forall|k: usize| !m.parent_has(cv.subclass, k, id));
    } else if n > 0 && offers(m, n - 1, id) {
        assert(m.class_of_env(m.env[n - 1]) is Ok);
        let c = m.class_of_env(m.env[n - 1])->Ok_0;
        let cv = m.classes.classes[c];
        assert(m.classes.classes.contains_key(c));
        assert(m.parents_exist(cv.subclass));
        if !cv.methods.contains_key(id) {
            lemma_least_exists(m, cv.subclass, id);
            let k = choose|k: usize|
                m.parent_has(cv.subclass, k, id) && forall|j: usize|
                    m.parent_has(cv.subclass, j, id) ==> k <= j;
            assert(m.parent_has(cv.subclass, k, id));
            assert(m.resolve_from(id, n)->Ok_0 == m.classes.classes[cv.subclass[k]].methods[id]);
        }
    }
}

/// A class that is declared with a parent holds, under the parent's
/// identifier, the handle of the class that was declared under that
/// identifier: the class that the parent's constant is bound to. The new
/// class gets a handle of its own, the classes from before stay as they
/// are, and the machine stays in order.
pub proof fn lemma_declare_with_parent(m: Machine, id: usize, ptr: usize, p: usize)
    requires
        m.ordered(),
        m.linked(),
        m.declare_class(id, ptr, Some(p)) is Ok,
    ensures
        ({
            let (after, c) = m.declare_class(id, ptr, Some(p))->Ok_0;
            &&& m.consts.contains_key(p)
            &&& m.consts[p] is Class
            &&& m.classes.classes.contains_key(m.consts[p]->Class_0)
            &&& !m.classes.classes.contains_key(c)
            &&& c != m.consts[p]->Class_0
            &&& after.classes.classes.contains_key(c)
            &&& after.classes.classes[c].subclass == Map::<usize, usize>::empty().insert(
                p,
                m.consts[p]->Class_0,
            )
            &&& after.consts == m.consts.insert(id, ValueView::Class(c))
            &&& after.ordered()
            &&& after.linked()
            &&& forall|k: usize|
                m.classes.classes.contains_key(k) ==> after.classes.classes.contains_key(k)
                    && #[trigger] after.classes.classes[k] == m.classes.classes[k]
        }),
{
    let (m1, c) = m.new_class(id, ptr)->Ok_0;
    let h = m.consts[p]->Class_0;
    let cv = m1.classes.classes[c];
    let (after, c2) = m.declare_class(id, ptr, Some(p))->Ok_0;
    assert(m1.linked()) by {
        assert forall|d: usize| #[trigger] m1.classes.classes.contains_key(d) implies m1.parents_exist(
            m1.classes.classes[d].subclass,
        ) by {
            if d != c {
                assert(m.classes.classes.contains_key(d));
                assert(m.parents_exist(m.classes.classes[d].subclass));
            }
        }
    }
    let nv = ClassView { subclass: cv.subclass.insert(p, h), ..cv };
    assert(m1.parents_exist(nv.subclass));
    m1.lemma_with_class_linked(c, nv);
    assert(after.classes == m1.with_class(c, nv).classes);
}


/// Two calls of the builtin `new` on the same class yield two different
/// instances of that class, each with a handle that no instance had
/// before, whatever arguments they are given.
pub proof fn lemma_new_twice(m: Machine, c: usize, args1: ArgsView, args2: ArgsView, fuel: nat)
    requires
        m.ordered(),
        m.classes.classes.contains_key(c),
        m.instances.instance_id + 1 < usize::MAX,
    ensures
        ({
            let first = m.call_builtin(Builtin::New, ValueView::Class(c), args1, fuel);
            let second = first->Ok_0.0.call_builtin(Builtin::New, ValueView::Class(c), args2, fuel);
            &&& first is Ok
            &&& second is Ok
            &&& first->Ok_0.1 is Instance
            &&& second->Ok_0.1 is Instance
            &&& first->Ok_0.1 != second->Ok_0.1
            &&& !m.instances.instances.contains_key(first->Ok_0.1->Instance_0)
            &&& !first->Ok_0.0.instances.instances.contains_key(second->Ok_0.1->Instance_0)
            &&& second->Ok_0.0.ordered()
            &&& second->Ok_0.0.instances.instances[first->Ok_0.1->Instance_0].class_id == c
            &&& second->Ok_0.0.instances.instances[second->Ok_0.1->Instance_0].class_id == c
        }),
{
    lemma_call_builtin(m, Builtin::New, ValueView::Class(c), args1, fuel);
    let first = m.call_builtin(Builtin::New, ValueView::Class(c), args1, fuel);
    lemma_call_builtin(first->Ok_0.0, Builtin::New, ValueView::Class(c), args2, fuel);
}

/// A call of a method that cannot be resolved is fatal: where the operand
/// stack holds a call and the method's name resolves to nothing with the
/// receiver as `self`, `SEND` fails, and it fails as the resolution does.
pub proof fn lemma_send_unresolved(m: Machine, fuel: nat)
    requires
        m.pop_array() is Ok,
        m.pop_array()->Ok_0.0.pop_ptr() is Ok,
        m.pop_array()->Ok_0.0.pop_ptr()->Ok_0.0.pop() is Ok,
        slot_option_ident(m.pop_array()->Ok_0.0.pop_ptr()->Ok_0.0.pop()->Ok_0.1) is Ok,
        m.pop_array()->Ok_0.0.pop_ptr()->Ok_0.0.pop()->Ok_0.0.pop_ident() is Ok,
        m.pop_array()->Ok_0.0.pop_ptr()->Ok_0.0.pop()->Ok_0.0.pop_ident()->Ok_0.0.pop() is Ok,
        ({
            let named = m.pop_array()->Ok_0.0.pop_ptr()->Ok_0.0.pop()->Ok_0.0.pop_ident()->Ok_0;
            let received = named.0.pop()->Ok_0;
            received.0.push_env(received.1).0.resolve(named.1) is Err
        }),
    ensures
        ({
            let named = m.pop_array()->Ok_0.0.pop_ptr()->Ok_0.0.pop()->Ok_0.0.pop_ident()->Ok_0;
            let received = named.0.pop()->Ok_0;
            &&& m.op_send(fuel) is Err
            &&& m.op_send(fuel)->Err_0 == received.0.push_env(received.1).0.resolve(named.1)->Err_0
        }),
{
    lemma_op_send(m, fuel);
}

/// What a round of a block leaves to the scope around it: when the body
/// of the block has ended, every variable of the enclosing scope that the
/// block's scope holds takes the value it has there, the others keep
/// theirs, and the variables that only the block's scope holds are gone.
/// This is true of each round of `times` and of `each`.
pub proof fn lemma_block_round_propagates(m: Machine, args: ArgsView, item: ValueView, fuel: nat)
    requires
        m.block_round(args, item, fuel) is Ok,
    ensures
        ({
            let bound = match args.table {
                Some(id) => Some((id, item)),
                None => None,
            };
            let entered = m.enter_scope(bound)->Ok_0;
            let done = entered.eval_body(args.body, fuel)->Ok_0.0;
            let inner = done.scopes.last().lvar;
            let outer = done.scopes[done.scopes.len() - 2].lvar;
            let after = m.block_round(args, item, fuel)->Ok_0;
            &&& m.enter_scope(bound) is Ok
            &&& entered.scopes.last().lvar == (match bound {
                Some((id, v)) => m.scopes.last().lvar.insert(id, v),
                None => m.scopes.last().lvar,
            })
            &&& entered.eval_body(args.body, fuel) is Ok
            &&& done.scopes.len() >= 2
            &&& after.scopes.len() == done.scopes.len() - 1
            &&& after.scopes.last().lvar.dom() == outer.dom()
            &&& forall|k: usize|
                outer.contains_key(k) ==> #[trigger] after.scopes.last().lvar[k] == (if inner.contains_key(
                    k,
                ) {
                    inner[k]
                } else {
                    outer[k]
                })
        }),
{
    lemma_block_round(m, args, item, fuel);
    let bound = match args.table {
        Some(id) => Some((id, item)),
        None => None,
    };
    let entered = m.enter_scope(bound)->Ok_0;
    let done = entered.eval_body(args.body, fuel)->Ok_0.0;
    let after = m.block_round(args, item, fuel)->Ok_0;
    assert(after.scopes.last().lvar.dom() =~= done.scopes[done.scopes.len() - 2].lvar.dom());
}

/// Looking a name up gives it a number and keeps the numbers of the
/// names that were known; looking it up again changes nothing and gives
/// the same number.
pub proof fn lemma_intern(names: Seq<Seq<char>>, name: Seq<char>)
    requires
        names.no_duplicates(),
    ensures
        intern(names, name).no_duplicates(),
        0 <= intern_id(names, name) < intern(names, name).len(),
        intern(names, name)[intern_id(names, name)] == name,
        intern(intern(names, name), name) == intern(names, name),
        intern_id(intern(names, name), name) == intern_id(names, name),
        forall|i: int| 0 <= i < names.len() ==> #[trigger] intern(names, name)[i] == names[i],
        forall|i: int|
            0 <= i < names.len() ==> intern_id(intern(names, name), #[trigger] names[i]) == i,
{
    let after = intern(names, name);
    if names.contains(name) {
        assert(names[names.index_of(name)] == name);
    } else {
        assert(after[names.len() as int] == name);
        assert(after.contains(name));
        assert(after.index_of(name) == names.len());
    }
    assert forall|i: int| 0 <= i < names.len() implies intern_id(
        intern(names, name),
        #[trigger] names[i],
    ) == i by {
        assert(after[i] == names[i]);
        assert(after.contains(names[i]));
        let j = after.index_of(names[i]);
        assert(after[j] == after[i]);
    }
}

/// The text of an integer, read as a number, is the integer: `to_s` and
/// then `to_i` give it back.
pub proof fn lemma_to_s_to_i(m: Machine, n: i64, fuel: nat)
    ensures
        m.call_builtin(Builtin::ToS, ValueView::FixNum(n), crate::machine::ArgsView {
            body: 0,
            args: Seq::empty(),
            table: None,
        }, fuel) == Ok::<(Machine, ValueView), ErrorTag>(
            (m, ValueView::String(int_text(n as int))),
        ),
        m.call_builtin(
            Builtin::ToI,
            ValueView::String(int_text(n as int)),
            crate::machine::ArgsView { body: 0, args: Seq::empty(), table: None },
            fuel,
        ) == Ok::<(Machine, ValueView), ErrorTag>((m, ValueView::FixNum(n))),
{
    let args = crate::machine::ArgsView { body: 0, args: Seq::empty(), table: None };
    lemma_call_builtin(m, Builtin::ToS, ValueView::FixNum(n), args, fuel);
    lemma_call_builtin(m, Builtin::ToI, ValueView::String(int_text(n as int)), args, fuel);
    lemma_int_text_round_trip(n as int);
}

} // verus!
