//! Instances and the registry that owns them.

use crate::class::ClassRef;
use crate::fxmap::{fx_contains, fx_get, fx_get_mut, fx_insert, fx_new};
use crate::table::ValueTable;
use crate::value::ValueView;
use rustc_hash::FxHashMap;
use vstd::prelude::*;

verus! {

/// The handle of an instance record.
#[derive(Debug, Clone, Copy, PartialEq, Eq, Structural, Hash)]
pub struct InstanceRef(pub usize);

/// An instance record: the class it belongs to, that class's name, and its
/// own variables.
#[derive(Debug)]
pub struct InstanceInfo {
    pub class_id: ClassRef,
    pub class_name: String,
    pub instance_var: ValueTable,
}

pub struct InstanceView {
    pub class_id: usize,
    pub class_name: Seq<char>,
    pub instance_var: Map<usize, ValueView>,
}

impl View for InstanceInfo {
    type V = InstanceView;

    open spec fn view(&self) -> InstanceView {
        InstanceView {
            class_id: self.class_id.0,
            class_name: self.class_name@,
            instance_var: self.instance_var@,
        }
    }
}

impl InstanceInfo {
    /// An instance of `class_id` without variables.
    pub fn new(class_id: ClassRef, class_name: String) -> (r: Self)
        ensures
            r@ == (InstanceView {
                class_id: class_id.0,
                class_name: class_name@,
                instance_var: Map::empty(),
            }),
    {
        InstanceInfo { class_id, class_name, instance_var: ValueTable::new() }
    }
}

/// All instances, by handle. Handles are given out in order, from 0.
#[derive(Debug)]
pub struct GlobalInstanceTable {
    pub table: FxHashMap<usize, InstanceInfo>,
    pub instance_id: usize,
}

pub struct InstanceTableView {
    pub instances: Map<usize, InstanceView>,
    pub instance_id: usize,
}

impl InstanceTableView {
    /// Every handle in use has been given out: it lies below the next one.
    pub open spec fn wf(self) -> bool {
        forall|k: usize| self.instances.contains_key(k) ==> k < self.instance_id
    }
}

impl View for GlobalInstanceTable {
    type V = InstanceTableView;

    open spec fn view(&self) -> InstanceTableView {
        InstanceTableView {
            instances: Map::new(
                |k: usize| self.table@.contains_key(k),
                |k: usize| self.table@[k]@,
            ),
            instance_id: self.instance_id,
        }
    }
}

impl GlobalInstanceTable {
    /// Every handle in use has been given out.
    pub open spec fn wf(&self) -> bool {
        self@.wf()
    }

    pub fn new() -> (r: Self)
        ensures
            r.wf(),
            r@ == (InstanceTableView { instances: Map::empty(), instance_id: 0 }),
    {
        let r = GlobalInstanceTable { table: fx_new(), instance_id: 0 };
        assert(r@.instances =~= Map::<usize, InstanceView>::empty());
        r
    }

    /// Creates an instance record that starts with the variables
    /// `instance_var`, and returns its handle, which is the next in order:
    /// no instance had it before, and the instances from before stay as
    /// they are.
    pub fn new_instance(
        &mut self,
        class_id: ClassRef,
        class_name: String,
        instance_var: ValueTable,
    ) -> (r: InstanceRef)
        requires
            old(self).wf(),
            old(self).instance_id < usize::MAX,
        ensures
            final(self).wf(),
            r.0 == old(self).instance_id,
            !old(self)@.instances.contains_key(r.0),
            forall|k: usize| #[trigger]
                old(self)@.instances.contains_key(k) ==> final(self)@.instances.contains_key(k)
                    && final(self)@.instances[k] == old(self)@.instances[k],
            final(self)@ == (InstanceTableView {
                instances: old(self)@.instances.insert(
                    r.0,
                    InstanceView {
                        class_id: class_id.0,
                        class_name: class_name@,
                        instance_var: instance_var@,
                    },
                ),
                instance_id: (old(self).instance_id + 1) as usize,
            }),
    {
        let info = InstanceInfo { class_id, class_name, instance_var };
        let new_instance = InstanceRef(self.instance_id);
        self.instance_id += 1;
        fx_insert(&mut self.table, new_instance.0, info);
        assert(self@.instances =~= old(self)@.instances.insert(
            new_instance.0,
            InstanceView {
                class_id: class_id.0,
                class_name: class_name@,
                instance_var: instance_var@,
            },
        ));
        new_instance
    }

    /// Whether `instance_ref` names an instance of this registry.
    pub fn contains(&self, instance_ref: InstanceRef) -> (r: bool)
        ensures
            r == self@.instances.contains_key(instance_ref.0),
    {
        fx_contains(&self.table, instance_ref.0)
    }

    pub fn get(&self, instance_ref: InstanceRef) -> (r: &InstanceInfo)
        requires
            self@.instances.contains_key(instance_ref.0),
        ensures
            r@ == self@.instances[instance_ref.0],
    {
        match fx_get(&self.table, instance_ref.0) {
            Some(info) => info,
            None => vstd::pervasive::unreached(),
        }
    }

    /// The place of an instance record: what is written there is the
    /// record afterwards, and no other record changes.
    pub fn get_mut(&mut self, instance_ref: InstanceRef) -> (r: &mut InstanceInfo)
        requires
            old(self)@.instances.contains_key(instance_ref.0),
        ensures
            *r == old(self).table@[instance_ref.0],
            final(self).table@ == old(self).table@.insert(instance_ref.0, *final(r)),
            final(self).instance_id == old(self).instance_id,
    {
        fx_get_mut(&mut self.table, instance_ref.0)
    }

    /// A registry in which one record was replaced stands for the same
    /// instances with that one instance replaced.
    pub proof fn lemma_replaced(before: Self, after: Self, k: usize, info: InstanceInfo)
        requires
            after.table@ == before.table@.insert(k, info),
            after.instance_id == before.instance_id,
        ensures
            after@ == (InstanceTableView {
                instances: before@.instances.insert(k, info@),
                instance_id: before.instance_id,
            }),
            before@.instances.contains_key(k) ==> after.wf() == before.wf(),
    {
        assert(after@.instances =~= before@.instances.insert(k, info@));
        if before@.instances.contains_key(k) {
            assert(after@.instances.dom() =~= before@.instances.dom());
            assert forall|j: usize| after@.instances.contains_key(j) == before@.instances.contains_key(j) by {
                assert(after@.instances.dom().contains(j) == before@.instances.dom().contains(j));
            }
        }
    }
}

} // verus!
