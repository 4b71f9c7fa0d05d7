//! Setting the machine up and loading a program.

use crate::class::ClassRef;
use crate::fxmap::fx_insert;
use crate::inst::Inst;
use crate::machine::{Env, Machine};
use crate::node::Node;
use crate::table::{Builtin, MethodInfo};
use crate::util::{IdentifierTable, SourceInfo};
use crate::value::{values_view, Value, ValueView};
use crate::vm::{bufs_view, class_stack_view, ok_state, RuntimeError, VM};
use vstd::prelude::*;

verus! {

impl VM {
    /// Registers the builtin function `func` under `name` in the class `c`.
    pub fn register(&mut self, c: ClassRef, name: &str, func: Builtin)
        requires
            old(self).wf(),
            old(self)@.classes.classes.contains_key(c.0),
        ensures
            final(self)@ == old(self)@.register(c.0, name@, func),
            final(self).wf(),
    {
        let id = self.ident_table.get_ident_id(name);
        assert(self@.iseqs == old(self)@.iseqs);
        let info = MethodInfo::BuiltinFunc { name: name.to_owned(), func };
        self.put_method(c.0, id.0, info);
    }

    /// Sets the machine up for a program with the source text
    /// `source_info` and the identifiers `ident_table`: the class `top` is
    /// created and becomes `self`, and the builtin functions are registered
    /// as its methods.
    pub fn repl_init_method(&mut self, source_info: SourceInfo, ident_table: IdentifierTable) -> (r:
        Result<(), RuntimeError>)
        requires
            old(self).wf(),
            ident_table.wf(),
        ensures
            ok_state(old(self)@.boot(ident_table@), r, final(self)@),
            final(self).wf(),
            r is Ok ==> final(self).source_info == source_info,
    {
        self.ident_table = ident_table;
        let id = self.ident_table.get_ident_id("top");
        let classref = self.new_class(id, 0)?;
        self.env.push(Env::ClassRef(classref));
        self.class_stack.push(classref);
        assert(class_stack_view(self.class_stack@) =~= class_stack_view(
            old(self).class_stack@,
        ).push(classref.0));
        self.register(classref, "puts", Builtin::Puts);
        self.register(classref, "new", Builtin::New);
        self.register(classref, "to_i", Builtin::ToI);
        self.register(classref, "to_s", Builtin::ToS);
        self.register(classref, "assert", Builtin::Assert);
        self.register(classref, "class", Builtin::Class);
        self.register(classref, "times", Builtin::Times);
        self.register(classref, "len", Builtin::Len);
        self.register(classref, "each", Builtin::Each);
        self.register(classref, "instance_variables", Builtin::InstanceVariables);
        self.source_info = source_info;
        Ok(())
    }

    /// Loads a program: a frame and an operand stack for the buffer 0, and
    /// in that buffer the code of `node`, ended by `END`.
    pub fn init_iseq(&mut self, node: &Node) -> (r: Result<(), RuntimeError>)
        requires
            old(self).wf(),
        ensures
            ok_state(old(self)@.load(*node), r, final(self)@),
            final(self).wf(),
    {
        self.stack.stack_poses.push(0);
        self.stack.iseq_poses.push(0);
        fx_insert(&mut self.stack.iseqs, 0, Vec::new());
        let fresh: Vec<Value> = Vec::new();
        proof {
            crate::value::lemma_values_view(fresh@);
            assert(values_view(fresh@) =~= Seq::<ValueView>::empty());
        }
        self.stack.exec_stack.push(fresh);
        proof {
            assert(bufs_view(self.stack.iseqs@) =~= old(self)@.iseqs.insert(0, Seq::empty()));
            assert(self@.exec_stack =~= old(self)@.exec_stack.push(Seq::empty()));
        }
        self.gen_into(node, 0)?;
        self.emit_byte(0, Inst::END)
    }

    /// Sets the machine up and loads a program.
    pub fn init(&mut self, source_info: SourceInfo, ident_table: IdentifierTable, node: &Node) -> (r:
        Result<(), RuntimeError>)
        requires
            old(self).wf(),
            ident_table.wf(),
        ensures
            ok_state(
                match old(self)@.boot(ident_table@) {
                    Ok(m) => m.load(*node),
                    Err(e) => Err(e),
                },
                r,
                final(self)@,
            ),
            final(self).wf(),
    {
        self.repl_init_method(source_info, ident_table)?;
        self.init_iseq(node)
    }

    /// Takes the lines that `puts` has written since they were last taken.
    pub fn take_output(&mut self) -> (r: Vec<String>)
        ensures
            crate::util::names_view(r@) == old(self)@.output,
            final(self)@ == (Machine { output: Seq::empty(), ..old(self)@ }),
            old(self).wf() ==> final(self).wf(),
    {
        let mut out: Vec<String> = Vec::new();
        out.append(&mut self.output);
        assert(crate::util::names_view(self.output@) =~= Seq::<Seq<char>>::empty());
        assert(crate::util::names_view(out@) =~= old(self)@.output);
        out
    }
}

} // verus!
