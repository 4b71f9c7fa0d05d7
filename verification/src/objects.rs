//! The operations of the machine on classes, instances and their
//! variables, and the builtin functions that evaluate no block.

use crate::class::{ClassRef, ClassView, GlobalClassTable};

use crate::instance::{GlobalInstanceTable, InstanceRef};
use crate::machine::{ivar_names, zero_params, Env, ErrorTag, Machine};
use crate::table::{Builtin, MethodInfo};
use crate::text::parse_i64;
use crate::util::{names_view, IdentId};
use crate::value::{values_view, Value, ValueView};
use crate::vm::{fail, ok_state, ok_value, ok_word, same_value, Args, EvalResult, RuntimeError, VM};
use vstd::prelude::*;

verus! {

/// What the arguments of a builtin function stand for.
pub open spec fn args_view(args: &Args) -> crate::machine::ArgsView {
    crate::machine::ArgsView {
        body: args.body,
        args: values_view(args.args@),
        table: match args.table {
            Some(id) => Some(id.0),
            None => None,
        },
    }
}

/// As `ok_word`, for an operation that yields a class handle.
pub open spec fn ok_class(
    expected: crate::machine::Outcome<usize>,
    got: Result<ClassRef, RuntimeError>,
    after: Machine,
) -> bool {
    match expected {
        Ok((m, v)) => got is Ok && after == m && got->Ok_0.0 == v,
        Err(t) => got is Err && got->Err_0.kind.tag() == t,
    }
}

/// As `ok_word`, for an operation that yields an instance handle.
pub open spec fn ok_instance(
    expected: crate::machine::Outcome<usize>,
    got: Result<InstanceRef, RuntimeError>,
    after: Machine,
) -> bool {
    match expected {
        Ok((m, v)) => got is Ok && after == m && got->Ok_0.0 == v,
        Err(t) => got is Err && got->Err_0.kind.tag() == t,
    }
}

impl VM {
    /// Replaces the methods of the class `c`.
    pub fn put_method(&mut self, c: usize, id: usize, info: MethodInfo)
        requires
            old(self)@.classes.classes.contains_key(c),
        ensures
            final(self)@ == old(self)@.with_class(
                c,
                ClassView {
                    methods: old(self)@.classes.classes[c].methods.insert(id, info@),
                    ..old(self)@.classes.classes[c]
                },
            ),
            old(self).wf() ==> final(self).wf(),
    {
        let ghost before = self.class_table;
        {
            let class = self.class_table.get_mut(ClassRef(c));
            class.method_table.insert(id, info);
        }
        proof {
            assert(before@.classes.contains_key(c));
            GlobalClassTable::lemma_replaced(
                before,
                self.class_table,
                c,
                self.class_table.table@[c],
            );
            assert(self@.iseqs == old(self)@.iseqs);
            assert(old(self)@.ordered() ==> self@.ordered());
        }
    }

    /// Registers a method of the class `c` itself.
    fn put_class_method(&mut self, c: usize, id: usize, info: MethodInfo)
        requires
            old(self)@.classes.classes.contains_key(c),
        ensures
            final(self)@ == old(self)@.with_class(
                c,
                ClassView {
                    class_methods: old(self)@.classes.classes[c].class_methods.insert(id, info@),
                    ..old(self)@.classes.classes[c]
                },
            ),
            old(self).wf() ==> final(self).wf(),
    {
        let ghost before = self.class_table;
        {
            let class = self.class_table.get_mut(ClassRef(c));
            class.add_class_method(IdentId(id), info);
        }
        proof {
            assert(before@.classes.contains_key(c));
            GlobalClassTable::lemma_replaced(
                before,
                self.class_table,
                c,
                self.class_table.table@[c],
            );
            assert(self@.iseqs == old(self)@.iseqs);
            assert(old(self)@.ordered() ==> self@.ordered());
        }
    }

    /// Enters a parent, which is a class that exists, into the subclass
    /// map of the class `c`.
    fn put_parent(&mut self, c: usize, parent: IdentId, class: ClassRef)
        requires
            old(self)@.classes.classes.contains_key(c),
            old(self)@.classes.classes.contains_key(class.0),
        ensures
            final(self)@ == old(self)@.with_class(
                c,
                ClassView {
                    subclass: old(self)@.classes.classes[c].subclass.insert(parent.0, class.0),
                    ..old(self)@.classes.classes[c]
                },
            ),
            old(self).wf() ==> final(self).wf(),
    {
        let ghost before = self.class_table;
        {
            let info = self.class_table.get_mut(ClassRef(c));
            info.add_parent(parent, class);
        }
        proof {
            assert(before@.classes.contains_key(c));
            GlobalClassTable::lemma_replaced(
                before,
                self.class_table,
                c,
                self.class_table.table@[c],
            );
            assert(self@.iseqs == old(self)@.iseqs);
            if old(self)@.linked() {
                let cv = old(self)@.classes.classes[c];
                assert(old(self)@.parents_exist(cv.subclass));
                old(self)@.lemma_with_class_linked(
                    c,
                    ClassView { subclass: cv.subclass.insert(parent.0, class.0), ..cv },
                );
            }
            assert(old(self)@.ordered() ==> self@.ordered());
        }
    }

    /// Creates a class named by the identifier `id`, with the builtin
    /// `new` as its only class method. The class gets a handle that no
    /// class had before, and the classes from before stay as they are.
    pub fn new_class(&mut self, id: IdentId, ptr: usize) -> (r: Result<ClassRef, RuntimeError>)
        requires
            old(self).wf(),
        ensures
            ok_class(old(self)@.new_class(id.0, ptr), r, final(self)@),
            final(self).wf(),
            r is Ok ==> !old(self)@.classes.classes.contains_key(r->Ok_0.0),
            r is Ok ==> forall|k: usize| #[trigger]
                old(self)@.classes.classes.contains_key(k)
                    ==> final(self)@.classes.classes.contains_key(k)
                    && final(self)@.classes.classes[k] == old(self)@.classes.classes[k],
    {
        if !self.ident_table.has_id(id) {
            return fail(ErrorTag::Unimplemented, "the identifier has no name");
        }
        if self.class_table.class_id == usize::MAX {
            return fail(ErrorTag::Unreachable, "no class handle is left");
        }
        let name: String = self.ident_table.get_name(id).clone();
        let class_ref = self.class_table.new_class(id, name, ptr);
        let new_id = self.ident_table.get_ident_id("new");
        let info = MethodInfo::BuiltinFunc { name: "new".to_owned(), func: Builtin::New };
        self.put_class_method(class_ref.0, new_id.0, info);
        proof {
            assert(self@.classes.classes =~= old(self)@.new_class(id.0, ptr)->Ok_0.0.classes.classes);
        }
        Ok(class_ref)
    }

    /// Creates an instance of the class `class_id`; its variables start
    /// as a copy of the class's defaults.
    pub fn new_instance(&mut self, class_id: ClassRef) -> (r: Result<InstanceRef, RuntimeError>)
        requires
            old(self).wf(),
        ensures
            ok_instance(old(self)@.new_instance(class_id.0), r, final(self)@),
            final(self).wf(),
            r is Ok ==> !old(self)@.instances.instances.contains_key(r->Ok_0.0),
            r is Ok ==> forall|k: usize| #[trigger]
                old(self)@.instances.instances.contains_key(k)
                    ==> final(self)@.instances.instances.contains_key(k)
                    && final(self)@.instances.instances[k] == old(self)@.instances.instances[k],
    {
        if !self.class_table.contains(class_id) {
            return fail(ErrorTag::Unreachable, "the class handle is not valid");
        }
        if self.instance_table.instance_id == usize::MAX {
            return fail(ErrorTag::Unreachable, "no instance handle is left");
        }
        let class_info = self.class_table.get(class_id);
        let class_name: String = class_info.name.clone();
        let instance_var = class_info.instance_var.clone();
        Ok(self.instance_table.new_instance(class_id, class_name, instance_var))
    }

    /// The handle of the class that was declared under the identifier `p`.
    pub fn parent_handle(&self, p: IdentId) -> (r: Result<ClassRef, RuntimeError>)
        ensures
            match self@.parent_handle(p.0) {
                Ok(h) => r is Ok && r->Ok_0.0 == h,
                Err(t) => r is Err && r->Err_0.kind.tag() == t,
            },
    {
        match self.const_table.get(p.0) {
            None => fail(ErrorTag::Name, "the parent class is not declared"),
            Some(Value::Class(h)) => {
                if self.class_table.contains(h) {
                    Ok(h)
                } else {
                    fail(ErrorTag::Unreachable, "the parent's handle is not valid")
                }
            },
            Some(_) => fail(ErrorTag::Unreachable, "the parent is no class"),
        }
    }

    /// Creates the class that a class declaration names and binds its
    /// constant. A parent named by the identifier `p` is entered into the
    /// subclass map under `p`, with the handle of the class that was
    /// declared under `p` before; the declaration fails where there is no
    /// such class.
    pub fn declare_class(&mut self, id: IdentId, ptr: usize, parent: Option<IdentId>) -> (r: Result<
        ClassRef,
        RuntimeError,
    >)
        requires
            old(self).wf(),
        ensures
            ok_class(
                old(self)@.declare_class(
                    id.0,
                    ptr,
                    match parent {
                        Some(p) => Some(p.0),
                        None => None,
                    },
                ),
                r,
                final(self)@,
            ),
            final(self).wf(),
    {
        let found = match parent {
            Some(p) => Some(self.parent_handle(p)),
            None => None,
        };
        let class_ref = self.new_class(id, ptr)?;
        match (parent, found) {
            (Some(p), Some(h)) => {
                let h = h?;
                self.put_parent(class_ref.0, p, h);
            },
            _ => {},
        }
        self.const_table.insert(id.0, Value::Class(class_ref));
        Ok(class_ref)
    }

    /// Registers a method, without a body yet, in the class that `self`
    /// is or belongs to. The method keeps the variables of the scope it is
    /// defined in, with its parameters set to 0.
    pub fn init_func(&mut self, id: usize, params: Vec<IdentId>) -> (r: Result<(), RuntimeError>)
        ensures
            ok_state(
                old(self)@.init_func(id, crate::table::ids_view(params@)),
                r,
                final(self)@,
            ),
            old(self).wf() ==> final(self).wf(),
    {
        let n: usize = self.scope_stack.len();
        if n == 0 {
            return fail(ErrorTag::Unreachable, "no scope");
        }
        let c = self.env_class()?;
        let mut local_scope = self.scope_stack[n - 1].propagate();
        let ghost outer = self@.scopes.last().lvar;
        let ghost ids = crate::table::ids_view(params@);
        let mut i: usize = 0;
        while i < params.len()
            invariant
                i <= params.len(),
                ids == crate::table::ids_view(params@),
                local_scope@.propagated == outer,
                zero_params(local_scope@.lvar, ids, i as nat) == zero_params(outer, ids, 0),
            decreases params.len() - i,
        {
            local_scope.lvar_table.insert(params[i].0, Value::FixNum(0));
            i += 1;
        }
        let info = MethodInfo::RubyFunc { params, ptr: 0, local_scope };
        self.put_method(c, id, info);
        Ok(())
    }

    /// Records the key of the compiled body of a method that `init_func`
    /// has registered.
    pub fn func_decl(&mut self, id: usize, ptr: usize) -> (r: Result<(), RuntimeError>)
        ensures
            ok_state(old(self)@.func_decl(id, ptr), r, final(self)@),
            old(self).wf() ==> final(self).wf(),
    {
        let c = self.env_class()?;
        let found = self.class_table.get(ClassRef(c)).method_table.get(id);
        match found {
            None => fail(ErrorTag::Unreachable, "the method was not registered"),
            Some(MethodInfo::BuiltinFunc { .. }) => fail(
                ErrorTag::Unreachable,
                "a builtin function has no body",
            ),
            Some(MethodInfo::RubyFunc { params, ptr: _, local_scope }) => {
                self.put_method(c, id, MethodInfo::RubyFunc { params, ptr, local_scope });
                Ok(())
            },
        }
    }

    /// Makes the receiver of a call `self`, if it is a class or an
    /// instance; says whether it did.
    pub fn push_env(&mut self, val: &Value) -> (r: bool)
        ensures
            (final(self)@, r) == old(self)@.push_env(val@),
            old(self).wf() ==> final(self).wf(),
    {
        match val {
            Value::Class(c) => {
                self.env.push(Env::ClassRef(*c));
                true
            },
            Value::Instance(i) => {
                self.env.push(Env::InstanceRef(*i));
                true
            },
            _ => false,
        }
    }

    /// Undoes `push_env`.
    pub fn pop_env_if_true(&mut self, b: bool) -> (r: Result<(), RuntimeError>)
        ensures
            ok_state(old(self)@.pop_env_if(b), r, final(self)@),
            old(self).wf() ==> final(self).wf(),
    {
        if b {
            match self.env.pop() {
                Some(_) => Ok(()),
                None => fail(ErrorTag::Unreachable, "no self"),
            }
        } else {
            Ok(())
        }
    }

    /// Reads the instance variable `id` of `self`.
    pub fn instance_var(&self, id: usize) -> (r: EvalResult)
        ensures
            same_value(self@.instance_var(id), r),
    {
        let n: usize = self.env.len();
        if n == 0 {
            return fail(ErrorTag::Unreachable, "no self");
        }
        match self.env[n - 1] {
            Env::InstanceRef(i) => {
                if !self.instance_table.contains(i) {
                    return fail(ErrorTag::Unreachable, "the instance handle is not valid");
                }
                match self.instance_table.get(i).instance_var.get(id) {
                    Some(v) => Ok(v),
                    None => fail(ErrorTag::Unreachable, "the instance variable is not set"),
                }
            },
            Env::ClassRef(_) => fail(ErrorTag::Unimplemented, "a class has no instance variables"),
        }
    }

    /// Sets the instance variable `id` of `self`: of the instance, or, in a
    /// class body, the value that new instances start with.
    pub fn set_instance_var(&mut self, id: usize, v: Value) -> (r: Result<(), RuntimeError>)
        ensures
            ok_state(old(self)@.set_instance_var(id, v@), r, final(self)@),
            old(self).wf() ==> final(self).wf(),
    {
        let n: usize = self.env.len();
        if n == 0 {
            return fail(ErrorTag::Unreachable, "no self");
        }
        match self.env[n - 1] {
            Env::InstanceRef(i) => {
                if !self.instance_table.contains(i) {
                    return fail(ErrorTag::Unreachable, "the instance handle is not valid");
                }
                let ghost before = self.instance_table;
                {
                    let info = self.instance_table.get_mut(i);
                    info.instance_var.insert(id, v);
                }
                proof {
                    GlobalInstanceTable::lemma_replaced(
                        before,
                        self.instance_table,
                        i.0,
                        self.instance_table.table@[i.0],
                    );
                }
                Ok(())
            },
            Env::ClassRef(c) => {
                if !self.class_table.contains(c) {
                    return fail(ErrorTag::Unreachable, "the class handle is not valid");
                }
                let ghost before = self.class_table;
                {
                    let info = self.class_table.get_mut(c);
                    info.instance_var.insert(id, v);
                }
                proof {
                    GlobalClassTable::lemma_replaced(
                        before,
                        self.class_table,
                        c.0,
                        self.class_table.table@[c.0],
                    );
                }
                Ok(())
            },
        }
    }

    /// Reads the class variable `id` of the class that `self` is or
    /// belongs to.
    pub fn class_var(&self, id: usize) -> (r: EvalResult)
        ensures
            same_value(self@.class_var(id), r),
    {
        let c = self.env_class()?;
        match self.class_table.get(ClassRef(c)).class_var.get(id) {
            Some(v) => Ok(v),
            None => fail(ErrorTag::Unreachable, "the class variable is not set"),
        }
    }

    /// Sets the class variable `id`. In a class body this creates the
    /// variable where it is new; through an instance, the variable must
    /// exist.
    pub fn set_class_var(&mut self, id: usize, v: Value) -> (r: Result<(), RuntimeError>)
        ensures
            ok_state(old(self)@.set_class_var(id, v@), r, final(self)@),
            old(self).wf() ==> final(self).wf(),
    {
        let c = self.env_class()?;
        let n: usize = self.env.len();
        let through_instance: bool = matches!(self.env[n - 1], Env::InstanceRef(_));
        if through_instance && !self.class_table.get(ClassRef(c)).class_var.contains_key(id) {
            return fail(ErrorTag::Unreachable, "the class variable is not defined");
        }
        let ghost before = self.class_table;
        {
            let info = self.class_table.get_mut(ClassRef(c));
            info.class_var.insert(id, v);
        }
        proof {
            GlobalClassTable::lemma_replaced(
                before,
                self.class_table,
                c,
                self.class_table.table@[c],
            );
        }
        Ok(())
    }

    /// The text of each of `items`, in order.
    pub fn texts_of(&self, items: &Vec<Value>) -> (r: Result<Vec<String>, RuntimeError>)
        ensures
            match self@.texts(values_view(items@), items@.len()) {
                Ok(lines) => r is Ok && names_view(r->Ok_0@) == lines,
                Err(t) => r is Err && r->Err_0.kind.tag() == t,
            },
    {
        let ghost m = self@;
        let ghost views = values_view(items@);
        proof {
            crate::value::lemma_values_view(items@);
        }
        let mut lines: Vec<String> = Vec::new();
        let mut i: usize = 0;
        assert(names_view(lines@) =~= Seq::<Seq<char>>::empty());
        while i < items.len()
            invariant
                i <= items.len(),
                m == self@,
                views == values_view(items@),
                views.len() == items@.len(),
                forall|j: int| 0 <= j < views.len() ==> #[trigger] views[j] == items@[j]@,
                m.texts(views, i as nat) == Ok::<Seq<Seq<char>>, ErrorTag>(names_view(lines@)),
            decreases items.len() - i,
        {
            match self.val_to_s(&items[i]) {
                Ok(line) => {
                    let ghost before = lines@;
                    lines.push(line);
                    assert(names_view(lines@) =~= names_view(before).push(line@));
                },
                Err(e) => {
                    proof {
                        assert(m.texts(views, (i + 1) as nat) is Err);
                        crate::machine::lemma_texts_fail(
                            m,
                            views,
                            (i + 1) as nat,
                            views.len() as nat,
                        );
                    }
                    return Err(e);
                },
            }
            i += 1;
        }
        Ok(lines)
    }

    /// `puts`: writes the text of each argument as a line of its own.
    pub fn builtin_puts(&mut self, _receiver: Value, args: Args) -> (r: EvalResult)
        ensures
            ok_value(
                old(self)@.call_builtin(Builtin::Puts, _receiver@, args_view(&args), 0),
                r,
                final(self)@,
            ),
            old(self).wf() ==> final(self).wf(),
    {
        proof {
            crate::machine::lemma_call_builtin(
                old(self)@,
                Builtin::Puts,
                _receiver@,
                args_view(&args),
                0,
            );
        }
        let mut lines = self.texts_of(&args.args)?;
        proof {
            crate::value::lemma_values_view(args.args@);
        }
        let ghost added = names_view(lines@);
        self.output.append(&mut lines);
        assert(self@.output =~= old(self)@.output + added);
        Ok(Value::Nil)
    }

    /// `new`: creates an instance of the class that receives the call.
    /// The instance gets a handle that no instance had before, and the
    /// instances from before stay as they are.
    pub fn builtin_new(&mut self, receiver: Value, _args: Args) -> (r: EvalResult)
        requires
            old(self).wf(),
        ensures
            ok_value(
                old(self)@.call_builtin(Builtin::New, receiver@, args_view(&_args), 0),
                r,
                final(self)@,
            ),
            final(self).wf(),
            r is Ok ==> r->Ok_0 is Instance && !old(self)@.instances.instances.contains_key(
                r->Ok_0->Instance_0.0,
            ),
            r is Ok ==> forall|k: usize| #[trigger]
                old(self)@.instances.instances.contains_key(k)
                    ==> final(self)@.instances.instances.contains_key(k)
                    && final(self)@.instances.instances[k] == old(self)@.instances.instances[k],
    {
        proof {
            crate::machine::lemma_call_builtin(
                old(self)@,
                Builtin::New,
                receiver@,
                args_view(&_args),
                0,
            );
        }
        match receiver {
            Value::Class(class_ref) => {
                let instance = self.new_instance(class_ref)?;
                Ok(Value::Instance(instance))
            },
            _ => fail(ErrorTag::Unimplemented, "only a class can be instantiated"),
        }
    }

    /// `to_i`: the number that a string spells.
    pub fn builtin_to_i(&mut self, receiver: Value, _args: Args) -> (r: EvalResult)
        ensures
            ok_value(
                old(self)@.call_builtin(Builtin::ToI, receiver@, args_view(&_args), 0),
                r,
                final(self)@,
            ),
            old(self).wf() ==> final(self).wf(),
    {
        proof {
            crate::machine::lemma_call_builtin(
                old(self)@,
                Builtin::ToI,
                receiver@,
                args_view(&_args),
                0,
            );
        }
        match receiver {
            Value::String(s) => match parse_i64(s.as_str()) {
                Some(i) => Ok(Value::FixNum(i)),
                None => fail(ErrorTag::Unimplemented, "the string spells no number"),
            },
            _ => fail(ErrorTag::Unimplemented, "only a string can be read as a number"),
        }
    }

    /// `to_s`: the text of the receiver.
    pub fn builtin_to_s(&mut self, receiver: Value, _args: Args) -> (r: EvalResult)
        ensures
            ok_value(
                old(self)@.call_builtin(Builtin::ToS, receiver@, args_view(&_args), 0),
                r,
                final(self)@,
            ),
            old(self).wf() ==> final(self).wf(),
    {
        proof {
            crate::machine::lemma_call_builtin(
                old(self)@,
                Builtin::ToS,
                receiver@,
                args_view(&_args),
                0,
            );
        }
        let s = self.val_to_s(&receiver)?;
        Ok(Value::String(s))
    }

    /// `assert`, on two arguments that are equal: the result is nil and
    /// nothing changes.
    pub fn builtin_assert(&mut self, _receiver: Value, args: Args) -> (r: EvalResult)
        requires
            args.args@.len() == 2,
            args.args@[0]@ == args.args@[1]@,
        ensures
            ok_value(
                old(self)@.call_builtin(Builtin::Assert, _receiver@, args_view(&args), 0),
                r,
                final(self)@,
            ),
            r is Ok,
            r->Ok_0@ == ValueView::Nil,
            *final(self) == *old(self),
    {
        proof {
            crate::machine::lemma_call_builtin(
                old(self)@,
                Builtin::Assert,
                _receiver@,
                args_view(&args),
                0,
            );
            crate::value::lemma_values_view(args.args@);
        }
        Ok(Value::Nil)
    }

    /// `class`: the kind of the receiver.
    pub fn builtin_class(&mut self, receiver: Value, _args: Args) -> (r: EvalResult)
        ensures
            ok_value(
                old(self)@.call_builtin(Builtin::Class, receiver@, args_view(&_args), 0),
                r,
                final(self)@,
            ),
            old(self).wf() ==> final(self).wf(),
    {
        proof {
            crate::machine::lemma_call_builtin(
                old(self)@,
                Builtin::Class,
                receiver@,
                args_view(&_args),
                0,
            );
        }
        match receiver {
            Value::Array(_) | Value::SelfClass(_) | Value::Range(_, _) => fail(
                ErrorTag::Unimplemented,
                "this value has no class",
            ),
            other => Ok(Value::SelfClass(other.to_class())),
        }
    }

    /// `len`: the number of elements of an array.
    pub fn builtin_len(&mut self, receiver: Value, _args: Args) -> (r: EvalResult)
        ensures
            ok_value(
                old(self)@.call_builtin(Builtin::Len, receiver@, args_view(&_args), 0),
                r,
                final(self)@,
            ),
            old(self).wf() ==> final(self).wf(),
    {
        proof {
            crate::machine::lemma_call_builtin(
                old(self)@,
                Builtin::Len,
                receiver@,
                args_view(&_args),
                0,
            );
        }
        match receiver {
            Value::Array(contents) => {
                proof {
                    crate::value::lemma_values_view(contents@);
                }
                let n: usize = contents.len();
                if n as u64 > i64::MAX as u64 {
                    fail(ErrorTag::Unreachable, "the result does not fit in 64 bits")
                } else {
                    Ok(Value::FixNum(n as i64))
                }
            },
            _ => fail(ErrorTag::Unimplemented, "only an array has a length"),
        }
    }

    /// `instance_variables`: the names of the receiver's instance
    /// variables, each with `@` in front, in the order of their
    /// identifiers.
    pub fn builtin_instance_variables(&mut self, receiver: Value, _args: Args) -> (r: EvalResult)
        ensures
            ok_value(
                old(self)@.call_builtin(
                    Builtin::InstanceVariables,
                    receiver@,
                    args_view(&_args),
                    0,
                ),
                r,
                final(self)@,
            ),
            old(self).wf() ==> final(self).wf(),
    {
        proof {
            crate::machine::lemma_call_builtin(
                old(self)@,
                Builtin::InstanceVariables,
                receiver@,
                args_view(&_args),
                0,
            );
        }
        match receiver {
            Value::Instance(instance_ref) => {
                if !self.instance_table.contains(instance_ref) {
                    return fail(ErrorTag::Unreachable, "the instance handle is not valid");
                }
                let vars = &self.instance_table.get(instance_ref).instance_var;
                if !all_named(vars, &self.ident_table) {
                    return fail(ErrorTag::Unimplemented, "an instance variable has no name");
                }
                let names = variable_names(vars, &self.ident_table);
                Ok(Value::Array(names))
            },
            _ => fail(ErrorTag::Unreachable, "only an instance has instance variables"),
        }
    }
}

/// Whether every variable of `vars` is bound to an identifier of `idents`.
pub fn all_named(vars: &crate::table::ValueTable, idents: &crate::util::IdentifierTable) -> (r: bool)
    ensures
        r == (forall|k: usize| #[trigger] vars@.contains_key(k) ==> k < idents@.len()),
{
    let total: usize = idents.len();
    let keys = vars.keys();
    let mut i: usize = 0;
    while i < keys.len()
        invariant
            i <= keys.len(),
            total == idents@.len(),
            keys@.to_set() == vars@.dom(),
            forall|j: int| 0 <= j < i ==> keys@[j] < total,
        decreases keys.len() - i,
    {
        if keys[i] >= total {
            assert(keys@.to_set().contains(keys@[i as int]));
            assert(vars@.contains_key(keys@[i as int]));
            return false;
        }
        i += 1;
    }
    assert forall|k: usize| #[trigger] vars@.contains_key(k) implies k < total by {
        assert(keys@.to_set().contains(k));
        assert(keys@.contains(k));
    }
    true
}

/// The names of the variables of `vars`, each with `@` in front, in the
/// order of their identifiers.
pub fn variable_names(vars: &crate::table::ValueTable, idents: &crate::util::IdentifierTable) -> (r: Vec<Value>)
    ensures
        values_view(r@) == ivar_names(vars@, idents@, idents@.len()),
{
    let total: usize = idents.len();
    let mut names: Vec<Value> = Vec::new();
    let mut n: usize = 0;
    proof {
        crate::value::lemma_values_view(names@);
        assert(values_view(names@) =~= ivar_names(vars@, idents@, 0));
    }
    while n < total
        invariant
            n <= total,
            total == idents@.len(),
            values_view(names@) == ivar_names(vars@, idents@, n as nat),
        decreases total - n,
    {
        if vars.contains_key(n) {
            let mut name: String = "@".to_owned();
            name.append(idents.get_name(IdentId(n)).as_str());
            let ghost before = names@;
            let v = Value::String(name);
            names.push(v);
            proof {
                crate::value::lemma_values_view_push(before, v);
            }
        }
        n += 1;
    }
    names
}

} // verus!
