//! Classes and the registry that owns them.

use crate::fxmap::{fx_contains, fx_get, fx_get_mut, fx_insert, fx_new};
use crate::table::{MethodInfo, MethodTable, MethodView, ValueTable};
use crate::util::IdentId;
use crate::value::{Value, ValueView};
use rustc_hash::FxHashMap;
use vstd::prelude::*;

verus! {

/// The handle of a class record.
#[derive(Debug, Clone, Copy, PartialEq, Eq, Structural, Hash)]
pub struct ClassRef(pub usize);

impl ClassRef {
    pub fn to_val(&self) -> (r: Value)
        ensures
            r == Value::Class(*self),
    {
        Value::Class(*self)
    }
}

/// What kind of value something is, as the builtin `class` reports it.
#[derive(Debug, Clone, Copy, PartialEq, Eq, Structural)]
pub enum Class {
    Nil,
    Bool,
    FixNum,
    FixDecimalNum,
    String,
    Class,
    Instance,
}

/// A class record. `instance_var` holds the values that a new instance's
/// variables start with; `subclass` maps the identifier of a class that
/// this one was declared to inherit from to that class's handle.
#[derive(Debug)]
pub struct ClassInfo {
    pub id: IdentId,
    pub name: String,
    pub ptr: usize,
    pub instance_var: ValueTable,
    pub instance_method_table: MethodTable,
    pub method_table: MethodTable,
    pub class_var: ValueTable,
    pub class_method_table: MethodTable,
    pub subclass: FxHashMap<usize, ClassRef>,
}

pub struct ClassView {
    pub id: usize,
    pub name: Seq<char>,
    pub ptr: usize,
    pub instance_var: Map<usize, ValueView>,
    pub instance_methods: Map<usize, MethodView>,
    pub methods: Map<usize, MethodView>,
    pub class_var: Map<usize, ValueView>,
    pub class_methods: Map<usize, MethodView>,
    pub subclass: Map<usize, usize>,
}

/// The handles that a map of class handles holds.
pub open spec fn refs_view(m: Map<usize, ClassRef>) -> Map<usize, usize> {
    Map::new(|k: usize| m.contains_key(k), |k: usize| m[k].0)
}

impl View for ClassInfo {
    type V = ClassView;

    open spec fn view(&self) -> ClassView {
        ClassView {
            id: self.id.0,
            name: self.name@,
            ptr: self.ptr,
            instance_var: self.instance_var@,
            instance_methods: self.instance_method_table@,
            methods: self.method_table@,
            class_var: self.class_var@,
            class_methods: self.class_method_table@,
            subclass: refs_view(self.subclass@),
        }
    }
}

/// A class as it is when it has just been created.
pub open spec fn fresh_class(id: usize, name: Seq<char>, ptr: usize) -> ClassView {
    ClassView {
        id,
        name,
        ptr,
        instance_var: Map::empty(),
        instance_methods: Map::empty(),
        methods: Map::empty(),
        class_var: Map::empty(),
        class_methods: Map::empty(),
        subclass: Map::empty(),
    }
}

impl ClassInfo {
    pub fn new(id: IdentId, name: String, ptr: usize) -> (r: Self)
        ensures
            r@ == fresh_class(id.0, name@, ptr),
    {
        let r = ClassInfo {
            id,
            name,
            ptr,
            instance_var: ValueTable::new(),
            instance_method_table: MethodTable::new(),
            method_table: MethodTable::new(),
            class_var: ValueTable::new(),
            class_method_table: MethodTable::new(),
            subclass: fx_new(),
        };
        assert(refs_view(r.subclass@) =~= Map::<usize, usize>::empty());
        r
    }

    /// Registers a method of the class itself; the one registered under
    /// that name before, if any, comes back.
    pub fn add_class_method(&mut self, id: IdentId, info: MethodInfo) -> (r: Option<MethodInfo>)
        ensures
            final(self)@ == (ClassView {
                class_methods: old(self)@.class_methods.insert(id.0, info@),
                ..old(self)@
            }),
            r is Some == old(self)@.class_methods.contains_key(id.0),
            r is Some ==> r->0@ == old(self)@.class_methods[id.0],
    {
        self.class_method_table.insert(id.0, info)
    }

    /// Records that the class was declared to inherit from the class named
    /// by `parent`, whose handle is `class`.
    pub fn add_parent(&mut self, parent: IdentId, class: ClassRef)
        ensures
            final(self)@ == (ClassView {
                subclass: old(self)@.subclass.insert(parent.0, class.0),
                ..old(self)@
            }),
    {
        fx_insert(&mut self.subclass, parent.0, class);
        assert(refs_view(self.subclass@) =~= refs_view(old(self).subclass@).insert(
            parent.0,
            class.0,
        ));
    }
}

/// All classes, by handle. Handles are given out in order, from 0.
#[derive(Debug)]
pub struct GlobalClassTable {
    pub table: FxHashMap<usize, ClassInfo>,
    pub class_id: usize,
}

pub struct ClassTableView {
    pub classes: Map<usize, ClassView>,
    pub class_id: usize,
}

impl ClassTableView {
    /// Every handle in use has been given out: it lies below the next one.
    pub open spec fn wf(self) -> bool {
        forall|k: usize| self.classes.contains_key(k) ==> k < self.class_id
    }
}

impl View for GlobalClassTable {
    type V = ClassTableView;

    open spec fn view(&self) -> ClassTableView {
        ClassTableView {
            classes: Map::new(
                |k: usize| self.table@.contains_key(k),
                |k: usize| self.table@[k]@,
            ),
            class_id: self.class_id,
        }
    }
}

impl GlobalClassTable {
    /// Every handle in use has been given out.
    pub open spec fn wf(&self) -> bool {
        self@.wf()
    }

    pub fn new() -> (r: Self)
        ensures
            r.wf(),
            r@ == (ClassTableView { classes: Map::empty(), class_id: 0 }),
    {
        let r = GlobalClassTable { table: fx_new(), class_id: 0 };
        assert(r@.classes =~= Map::<usize, ClassView>::empty());
        r
    }

    /// Creates a class record and returns its handle, which is the next
    /// one in order: no class had it before, and the classes from before
    /// stay as they are.
    pub fn new_class(&mut self, id: IdentId, name: String, ptr: usize) -> (r: ClassRef)
        requires
            old(self).wf(),
            old(self).class_id < usize::MAX,
        ensures
            final(self).wf(),
            r.0 == old(self).class_id,
            !old(self)@.classes.contains_key(r.0),
            forall|k: usize| #[trigger]
                old(self)@.classes.contains_key(k) ==> final(self)@.classes.contains_key(k)
                    && final(self)@.classes[k] == old(self)@.classes[k],
            final(self)@ == (ClassTableView {
                classes: old(self)@.classes.insert(r.0, fresh_class(id.0, name@, ptr)),
                class_id: (old(self).class_id + 1) as usize,
            }),
    {
        let info = ClassInfo::new(id, name, ptr);
        let new_class = ClassRef(self.class_id);
        self.class_id += 1;
        fx_insert(&mut self.table, new_class.0, info);
        assert(self@.classes =~= old(self)@.classes.insert(
            new_class.0,
            fresh_class(id.0, name@, ptr),
        ));
        new_class
    }

    /// Whether `class_ref` names a class of this registry.
    pub fn contains(&self, class_ref: ClassRef) -> (r: bool)
        ensures
            r == self@.classes.contains_key(class_ref.0),
    {
        fx_contains(&self.table, class_ref.0)
    }

    pub fn get(&self, class_ref: ClassRef) -> (r: &ClassInfo)
        requires
            self@.classes.contains_key(class_ref.0),
        ensures
            r@ == self@.classes[class_ref.0],
    {
        match fx_get(&self.table, class_ref.0) {
            Some(info) => info,
            None => vstd::pervasive::unreached(),
        }
    }

    /// The place of a class record: what is written there is the record
    /// afterwards, and no other record changes.
    pub fn get_mut(&mut self, class_ref: ClassRef) -> (r: &mut ClassInfo)
        requires
            old(self)@.classes.contains_key(class_ref.0),
        ensures
            *r == old(self).table@[class_ref.0],
            final(self).table@ == old(self).table@.insert(class_ref.0, *final(r)),
            final(self).class_id == old(self).class_id,
    {
        fx_get_mut(&mut self.table, class_ref.0)
    }

    /// A registry in which one record was replaced stands for the same
    /// classes with that one class replaced.
    pub proof fn lemma_replaced(before: Self, after: Self, k: usize, info: ClassInfo)
        requires
            after.table@ == before.table@.insert(k, info),
            after.class_id == before.class_id,
        ensures
            after@ == (ClassTableView {
                classes: before@.classes.insert(k, info@),
                class_id: before.class_id,
            }),
            before@.classes.contains_key(k) ==> after.wf() == before.wf(),
    {
        assert(after@.classes =~= before@.classes.insert(k, info@));
        if before@.classes.contains_key(k) {
            assert(after@.classes.dom() =~= before@.classes.dom());
            assert forall|j: usize| after@.classes.contains_key(j) == before@.classes.contains_key(j) by {
                assert(after@.classes.dom().contains(j) == before@.classes.dom().contains(j));
            }
        }
    }
}

impl Default for GlobalClassTable {
    fn default() -> (r: Self)
        ensures
            r.wf(),
            r@ == (ClassTableView { classes: Map::empty(), class_id: 0 }),
    {
        GlobalClassTable::new()
    }
}

} // verus!
