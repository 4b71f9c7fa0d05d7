//! Direct access to the frames, the operand stack and the current buffer.

use crate::fxmap::{fx_get, fx_get_mut};
use crate::inst::Inst;
use crate::machine::{ErrorTag, Machine};
use crate::node::Node;
use crate::table::{LocalScope, ValueTable};
use crate::util::IdentId;
use crate::value::{clone_value, Value, ValueView};
use crate::vm::{bufs_view, fail, ok_state, same_word, RuntimeError, VM};
use vstd::prelude::*;

verus! {

impl VM {
    /// The cursor of the current frame.
    pub fn stack_pos(&self) -> (r: usize)
        requires
            self.stack.stack_poses@.len() > 0,
        ensures
            r == self@.pos(),
    {
        self.stack.stack_poses[self.stack.stack_poses.len() - 1]
    }

    /// The cursor of the current frame.
    pub fn stack_pos_as_mut(&mut self) -> (r: usize)
        requires
            old(self).stack.stack_poses@.len() > 0,
        ensures
            r == old(self)@.pos(),
            *final(self) == *old(self),
    {
        self.stack.stack_poses[self.stack.stack_poses.len() - 1]
    }

    /// Sets the cursor of the current frame.
    pub fn set_stack_pos(&mut self, num: usize)
        requires
            old(self).stack.stack_poses@.len() > 0,
        ensures
            final(self)@ == (Machine {
                stack_poses: old(self)@.stack_poses.update(
                    old(self)@.stack_poses.len() - 1,
                    num,
                ),
                ..old(self)@
            }),
            old(self).wf() ==> final(self).wf(),
    {
        self.stack.stack_poses.pop();
        self.stack.stack_poses.push(num);
        assert(self.stack.stack_poses@ =~= old(self).stack.stack_poses@.update(
            old(self).stack.stack_poses@.len() - 1,
            num,
        ));
    }

    /// Moves the cursor of the current frame back to the start.
    pub fn init_eval_stack(&mut self)
        requires
            old(self).stack.stack_poses@.len() > 0,
        ensures
            final(self)@ == (Machine {
                stack_poses: old(self)@.stack_poses.update(old(self)@.stack_poses.len() - 1, 0),
                ..old(self)@
            }),
            old(self).wf() ==> final(self).wf(),
    {
        self.set_stack_pos(0);
    }

    /// The key of the buffer of the current frame.
    pub fn iseq_pos(&self) -> (r: usize)
        requires
            self.stack.iseq_poses@.len() > 0,
        ensures
            r == self@.iseq_poses.last(),
    {
        self.stack.iseq_poses[self.stack.iseq_poses.len() - 1]
    }

    /// The key of the buffer of the current frame, if there is a frame.
    pub fn current_key(&self) -> (r: Result<usize, RuntimeError>)
        ensures
            same_word(
                if self@.iseq_poses.len() > 0 {
                    Ok(self@.iseq_poses.last())
                } else {
                    Err(ErrorTag::Unreachable)
                },
                r,
            ),
    {
        let n: usize = self.stack.iseq_poses.len();
        if n == 0 {
            fail(ErrorTag::Unreachable, "no frame")
        } else {
            Ok(self.stack.iseq_poses[n - 1])
        }
    }

    /// The buffer of the current frame.
    pub fn current_iseq(&mut self) -> (r: &mut Vec<u8>)
        requires
            old(self).stack.iseq_poses@.len() > 0,
            old(self)@.iseqs.contains_key(old(self)@.iseq_poses.last()),
        ensures
            r@ == old(self)@.buf(),
            final(self).stack.iseqs@ == old(self).stack.iseqs@.insert(
                old(self)@.iseq_poses.last(),
                *final(r),
            ),
    {
        let key: usize = self.stack.iseq_poses[self.stack.iseq_poses.len() - 1];
        fx_get_mut(&mut self.stack.iseqs, key)
    }

    /// The opcode under the cursor.
    pub fn iseq(&self) -> (r: u8)
        requires
            self@.fetch() is Ok,
        ensures
            Ok::<u8, ErrorTag>(r) == self@.fetch(),
    {
        match self.fetch() {
            Ok(op) => op,
            Err(_) => 0,
        }
    }

    /// The byte that lies `num` past the cursor.
    pub fn iseq_idx(&self, num: usize) -> (r: u8)
        requires
            self@.framed(),
            self@.pos() + num < self@.buf().len(),
        ensures
            r == self@.buf()[self@.pos() + num],
    {
        let key: usize = self.stack.iseq_poses[self.stack.iseq_poses.len() - 1];
        let pos: usize = self.stack.stack_poses[self.stack.stack_poses.len() - 1];
        match fx_get(&self.stack.iseqs, key) {
            Some(buf) => {
                if num < buf.len() && pos < buf.len() - num {
                    buf[pos + num]
                } else {
                    0
                }
            },
            None => 0,
        }
    }

    /// Appends an opcode to the buffer of the current frame.
    pub fn push_iseq(&mut self, inst: u8) -> (r: Result<(), RuntimeError>)
        ensures
            ok_state(
                if old(self)@.iseq_poses.len() > 0 {
                    old(self)@.emit(old(self)@.iseq_poses.last(), seq![inst])
                } else {
                    Err(ErrorTag::Unreachable)
                },
                r,
                final(self)@,
            ),
            old(self).wf() ==> final(self).wf(),
    {
        let cur = self.current_key()?;
        self.emit_byte(cur, inst)
    }

    /// Appends the push of the number `num` to the buffer of the current
    /// frame.
    pub fn gen_comp_usize(&mut self, num: usize) -> (r: Result<(), RuntimeError>)
        ensures
            ok_state(
                if old(self)@.iseq_poses.len() > 0 {
                    old(self)@.emit_num(old(self)@.iseq_poses.last(), Inst::FIXNUM, num as u64)
                } else {
                    Err(ErrorTag::Unreachable)
                },
                r,
                final(self)@,
            ),
            old(self).wf() ==> final(self).wf(),
    {
        let cur = self.current_key()?;
        self.emit_operand(cur, Inst::FIXNUM, num as u64)
    }

    /// Appends the read of the local variable `num` to the buffer of the
    /// current frame.
    pub fn gen_ident(&mut self, num: usize) -> (r: Result<(), RuntimeError>)
        ensures
            ok_state(
                if old(self)@.iseq_poses.len() > 0 {
                    old(self)@.emit_num(old(self)@.iseq_poses.last(), Inst::IDENT, num as u64)
                } else {
                    Err(ErrorTag::Unreachable)
                },
                r,
                final(self)@,
            ),
            old(self).wf() ==> final(self).wf(),
    {
        let cur = self.current_key()?;
        self.emit_operand(cur, Inst::IDENT, num as u64)
    }

    /// Appends the read of the constant `num` to the buffer of the current
    /// frame.
    pub fn gen_const(&mut self, num: usize) -> (r: Result<(), RuntimeError>)
        ensures
            ok_state(
                if old(self)@.iseq_poses.len() > 0 {
                    old(self)@.emit_num(old(self)@.iseq_poses.last(), Inst::CONST, num as u64)
                } else {
                    Err(ErrorTag::Unreachable)
                },
                r,
                final(self)@,
            ),
            old(self).wf() ==> final(self).wf(),
    {
        let cur = self.current_key()?;
        self.emit_operand(cur, Inst::CONST, num as u64)
    }

    /// Appends the push of the identifier `num` to the buffer of the
    /// current frame.
    pub fn gen_table_ident(&mut self, num: usize) -> (r: Result<(), RuntimeError>)
        ensures
            ok_state(
                if old(self)@.iseq_poses.len() > 0 {
                    old(self)@.emit_num(
                        old(self)@.iseq_poses.last(),
                        Inst::TABLE_IDENT,
                        num as u64,
                    )
                } else {
                    Err(ErrorTag::Unreachable)
                },
                r,
                final(self)@,
            ),
            old(self).wf() ==> final(self).wf(),
    {
        let cur = self.current_key()?;
        self.emit_operand(cur, Inst::TABLE_IDENT, num as u64)
    }

    /// Appends the push of an identifier, or of nil where there is none, to
    /// the buffer of the current frame.
    pub fn gen_num_option(&mut self, id_option: Option<IdentId>) -> (r: Result<(), RuntimeError>)
        ensures
            ok_state(
                if old(self)@.iseq_poses.len() > 0 {
                    match id_option {
                        Some(id) => old(self)@.emit_num(
                            old(self)@.iseq_poses.last(),
                            Inst::FIXNUM,
                            id.0 as u64,
                        ),
                        None => old(self)@.emit(old(self)@.iseq_poses.last(), seq![Inst::NIL]),
                    }
                } else {
                    Err(ErrorTag::Unreachable)
                },
                r,
                final(self)@,
            ),
            old(self).wf() ==> final(self).wf(),
    {
        let cur = self.current_key()?;
        match id_option {
            Some(id) => self.emit_operand(cur, Inst::FIXNUM, id.0 as u64),
            None => self.emit_byte(cur, Inst::NIL),
        }
    }

    /// Compiles `node` into the buffer of the current frame.
    pub fn gen(&mut self, node: &Node) -> (r: Result<(), RuntimeError>)
        requires
            old(self).wf(),
        ensures
            ok_state(
                if old(self)@.iseq_poses.len() > 0 {
                    old(self)@.gen(*node, old(self)@.iseq_poses.last())
                } else {
                    Err(ErrorTag::Unreachable)
                },
                r,
                final(self)@,
            ),
            final(self).wf(),
    {
        let cur = self.current_key()?;
        self.gen_into(node, cur)
    }

    /// Compiles a body that is evaluated on demand; the push of its key
    /// goes into the buffer of the current frame.
    pub fn gen_body(&mut self, node: &Node) -> (r: Result<(), RuntimeError>)
        requires
            old(self).wf(),
        ensures
            ok_state(
                if old(self)@.iseq_poses.len() > 0 {
                    old(self)@.gen_body(*node, old(self)@.iseq_poses.last())
                } else {
                    Err(ErrorTag::Unreachable)
                },
                r,
                final(self)@,
            ),
            final(self).wf(),
    {
        let cur = self.current_key()?;
        self.gen_body_into(node, cur)
    }

    /// Compiles the nodes of a list and then the push of their number into
    /// the buffer of the current frame.
    pub fn gen_array_with_len(&mut self, array: &Vec<Node>) -> (r: Result<(), RuntimeError>)
        requires
            old(self).wf(),
        ensures
            ok_state(
                if old(self)@.iseq_poses.len() > 0 {
                    old(self)@.gen_counted(array@, old(self)@.iseq_poses.last())
                } else {
                    Err(ErrorTag::Unreachable)
                },
                r,
                final(self)@,
            ),
            final(self).wf(),
    {
        let cur = self.current_key()?;
        self.gen_counted_into(array, cur)
    }

    /// A copy of the value on top of the operand stack.
    pub fn copy_exec_stack(&self) -> (r: Value)
        requires
            self@.exec_stack.len() > 0,
            self@.exec_stack.last().len() > 0,
        ensures
            r@ == self@.exec_stack.last().last(),
    {
        let n: usize = self.stack.exec_stack.len();
        proof {
            crate::value::lemma_values_view(self.stack.exec_stack@.last()@);
        }
        let top = &self.stack.exec_stack[n - 1];
        clone_value(&top[top.len() - 1])
    }

    /// Takes the topmost value off the operand stack.
    pub fn pop_value(&mut self) -> (r: Value)
        requires
            old(self)@.pop() is Ok,
        ensures
            Ok::<(Machine, ValueView), ErrorTag>((final(self)@, r@)) == old(self)@.pop(),
            old(self).wf() ==> final(self).wf(),
    {
        match self.pop_checked() {
            Ok(v) => v,
            Err(_) => Value::Nil,
        }
    }

    /// Drops the current operand stack.
    pub fn clear_last_exec_stack(&mut self)
        requires
            old(self)@.exec_stack.len() > 0,
        ensures
            final(self)@ == (Machine {
                exec_stack: old(self)@.exec_stack.drop_last(),
                ..old(self)@
            }),
            old(self).wf() ==> final(self).wf(),
    {
        self.stack.exec_stack.pop();
        assert(self@.exec_stack =~= old(self)@.exec_stack.drop_last());
    }

    /// Drops the current operand stack and pushes the value that was on
    /// top of it onto the one before.
    pub fn push_last_eval_stack(&mut self)
        requires
            old(self)@.exec_stack.len() > 1,
            old(self)@.exec_stack.last().len() > 0,
        ensures
            final(self)@ == (Machine {
                exec_stack: old(self)@.exec_stack.drop_last().update(
                    old(self)@.exec_stack.len() - 2,
                    old(self)@.exec_stack[old(self)@.exec_stack.len() - 2].push(
                        old(self)@.exec_stack.last().last(),
                    ),
                ),
                ..old(self)@
            }),
            old(self).wf() ==> final(self).wf(),
    {
        let val = self.copy_exec_stack();
        self.clear_last_exec_stack();
        let r = self.push_value(val);
    }

    /// Drops the current frame.
    pub fn return_stack(&mut self)
        requires
            old(self)@.stack_poses.len() > 0,
            old(self)@.iseq_poses.len() > 0,
        ensures
            final(self)@ == (Machine {
                stack_poses: old(self)@.stack_poses.drop_last(),
                iseq_poses: old(self)@.iseq_poses.drop_last(),
                ..old(self)@
            }),
            old(self).wf() ==> final(self).wf(),
    {
        self.stack.stack_poses.pop();
        self.stack.iseq_poses.pop();
    }

    /// The key of the buffer of the current frame, as a place to write
    /// to.
    pub fn iseq_pos_mut(&mut self) -> (r: &mut usize)
        requires
            old(self).stack.iseq_poses@.len() > 0,
        ensures
            *r == old(self)@.iseq_poses.last(),
            final(self).stack.iseq_poses@ == old(self).stack.iseq_poses@.update(
                old(self).stack.iseq_poses@.len() - 1,
                *final(r),
            ),
    {
        let n: usize = self.stack.iseq_poses.len();
        &mut self.stack.iseq_poses[n - 1]
    }

    /// The current operand stack.
    pub fn exec_stack(&mut self) -> (r: &mut Vec<Value>)
        requires
            old(self).stack.exec_stack@.len() > 0,
        ensures
            *r == old(self).stack.exec_stack@.last(),
            final(self).stack.exec_stack@ == old(self).stack.exec_stack@.update(
                old(self).stack.exec_stack@.len() - 1,
                *final(r),
            ),
    {
        let n: usize = self.stack.exec_stack.len();
        &mut self.stack.exec_stack[n - 1]
    }

    /// The innermost scope.
    pub fn local_scope(&mut self) -> (r: &mut LocalScope)
        requires
            old(self).scope_stack@.len() > 0,
        ensures
            *r == old(self).scope_stack@.last(),
            final(self).scope_stack@ == old(self).scope_stack@.update(
                old(self).scope_stack@.len() - 1,
                *final(r),
            ),
    {
        let n: usize = self.scope_stack.len();
        &mut self.scope_stack[n - 1]
    }

    /// The local variables of the innermost scope.
    pub fn lvar_table_as_mut(&mut self) -> (r: &mut ValueTable)
        requires
            old(self).scope_stack@.len() > 0,
        ensures
            *r == old(self).scope_stack@.last().lvar_table,
            final(self).scope_stack@ == old(self).scope_stack@.update(
                old(self).scope_stack@.len() - 1,
                LocalScope {
                    lvar_table: *final(r),
                    propagated_table: old(self).scope_stack@.last().propagated_table,
                },
            ),
    {
        let n: usize = self.scope_stack.len();
        &mut self.scope_stack[n - 1].lvar_table
    }

    /// Puts an opcode into the buffer of the current frame, at the
    /// cursor.
    pub fn insert_iseq(&mut self, inst: u8)
        requires
            old(self)@.framed(),
            old(self)@.pos() <= old(self)@.buf().len(),
        ensures
            final(self)@ == (Machine {
                iseqs: old(self)@.iseqs.insert(
                    old(self)@.iseq_poses.last(),
                    old(self)@.buf().insert(old(self)@.pos() as int, inst),
                ),
                ..old(self)@
            }),
            old(self).wf() ==> final(self).wf(),
    {
        let pos: usize = self.stack_pos();
        let key: usize = self.iseq_pos();
        {
            let buf = fx_get_mut(&mut self.stack.iseqs, key);
            buf.insert(pos, inst);
        }
        assert(bufs_view(self.stack.iseqs@) =~= old(self)@.iseqs.insert(
            key,
            old(self)@.buf().insert(pos as int, inst),
        ));
    }

    /// Puts the push of the number `num` into the buffer of the current
    /// frame, at the cursor.
    pub fn insert_num(&mut self, num: usize)
        requires
            old(self)@.framed(),
            old(self)@.pos() <= old(self)@.buf().len(),
        ensures
            final(self)@ == (Machine {
                iseqs: old(self)@.iseqs.insert(
                    old(self)@.iseq_poses.last(),
                    old(self)@.buf().subrange(0, old(self)@.pos() as int) + (seq![Inst::FIXNUM]
                        + crate::inst::be_bytes(num as u64)) + old(self)@.buf().subrange(
                        old(self)@.pos() as int,
                        old(self)@.buf().len() as int,
                    ),
                ),
                ..old(self)@
            }),
            old(self).wf() ==> final(self).wf(),
    {
        let pos: usize = self.stack_pos();
        let key: usize = self.iseq_pos();
        {
            let buf = fx_get_mut(&mut self.stack.iseqs, key);
            let mut tail = buf.split_off(pos);
            buf.push(Inst::FIXNUM);
            crate::inst::push_be_bytes(buf, num as u64);
            buf.append(&mut tail);
        }
        proof {
            let before = old(self)@.buf();
            let head = before.subrange(0, pos as int);
            assert(head.push(Inst::FIXNUM) + crate::inst::be_bytes(num as u64) =~= head + (
            seq![Inst::FIXNUM] + crate::inst::be_bytes(num as u64)));
            assert(bufs_view(self.stack.iseqs@) =~= old(self)@.iseqs.insert(
                key,
                head + (seq![Inst::FIXNUM] + crate::inst::be_bytes(num as u64)) + before.subrange(
                    pos as int,
                    before.len() as int,
                ),
            ));
        }
    }

    /// The lines that show where `node` stands in the source text.
    pub fn show_source(&self, node: &Node) -> (r: Vec<String>)
        ensures
            crate::util::names_view(r@) == crate::util::shown_lines(
                self.source_info.code@,
                self.source_info.coordinates@,
                node.loc,
                self.source_info.coordinates@.len(),
            ),
    {
        self.source_info.show_loc(&node.loc)
    }
}

} // verus!
