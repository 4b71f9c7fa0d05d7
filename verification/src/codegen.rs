//! The compiler: from a syntax tree to instruction buffers.

use crate::compiler::{binop_code, lemma_compile, lemma_gen, lemma_gen_body, lemma_gen_nodes};
use crate::fxmap::{fx_contains, fx_get_mut, fx_insert};
use crate::inst::{be_bytes, push_be_bytes, to_bits, Inst};
use crate::machine::{ErrorTag, Machine};
use crate::node::{BinOp, Node, NodeKind};
use crate::vm::{bufs_view, fail, ok_state, ok_word, RuntimeError, VM};
use vstd::prelude::*;

verus! {

pub fn opcode_of(op: BinOp) -> (r: u8)
    ensures
        r == binop_code(op),
{
    match op {
        BinOp::Add => Inst::ADD,
        BinOp::Sub => Inst::SUB,
        BinOp::Mul => Inst::MUL,
        BinOp::Div => Inst::DIV,
        BinOp::Eq => Inst::EQ,
        BinOp::Ne => Inst::NE,
        BinOp::GT => Inst::GT,
        BinOp::GE => Inst::GE,
        BinOp::LT => Inst::LT,
        BinOp::LE => Inst::LE,
        BinOp::LAnd => Inst::LAND,
        BinOp::LOr => Inst::LOR,
    }
}

/// Where the code of one node of a list fails, the code of the list fails
/// in the same way, unless an earlier node fails.
pub proof fn lemma_gen_nodes_fail(m: Machine, nodes: Seq<Node>, i: nat, n: nat, cur: usize)
    requires
        i <= n <= nodes.len(),
        m.gen_nodes(nodes, i, cur) is Err,
    ensures
        m.gen_nodes(nodes, n, cur) == m.gen_nodes(nodes, i, cur),
    decreases n - i,
{
    if i < n {
        lemma_gen_nodes_fail(m, nodes, i, (n - 1) as nat, cur);
        lemma_gen_nodes(m, nodes, n, cur);
    }
}

impl VM {
    /// Appends a byte to the buffer `cur`.
    pub fn emit_byte(&mut self, cur: usize, b: u8) -> (r: Result<(), RuntimeError>)
        ensures
            ok_state(old(self)@.emit(cur, seq![b]), r, final(self)@),
            old(self).wf() ==> final(self).wf(),
    {
        if !fx_contains(&self.stack.iseqs, cur) {
            return fail(ErrorTag::Unreachable, "no such buffer");
        }
        {
            let buf = fx_get_mut(&mut self.stack.iseqs, cur);
            buf.push(b);
        }
        proof {
            let before = old(self).stack.iseqs@[cur]@;
            assert(before.push(b) =~= before + seq![b]);
            assert(bufs_view(self.stack.iseqs@) =~= old(self)@.emit(cur, seq![b])->Ok_0.iseqs);
        }
        Ok(())
    }

    /// Appends an opcode and its operand to the buffer `cur`.
    pub fn emit_operand(&mut self, cur: usize, op: u8, u: u64) -> (r: Result<(), RuntimeError>)
        ensures
            ok_state(old(self)@.emit_num(cur, op, u), r, final(self)@),
            old(self).wf() ==> final(self).wf(),
    {
        if !fx_contains(&self.stack.iseqs, cur) {
            return fail(ErrorTag::Unreachable, "no such buffer");
        }
        {
            let buf = fx_get_mut(&mut self.stack.iseqs, cur);
            buf.push(op);
            push_be_bytes(buf, u);
        }
        proof {
            let before = old(self).stack.iseqs@[cur]@;
            assert(before.push(op) + be_bytes(u) =~= before + (seq![op] + be_bytes(u)));
            assert(bufs_view(self.stack.iseqs@) =~= old(self)@.emit_num(cur, op, u)->Ok_0.iseqs);
        }
        Ok(())
    }

    /// Compiles the nodes of a list, in order, into the buffer `cur`.
    pub fn gen_nodes_into(&mut self, nodes: &Vec<Node>, cur: usize) -> (r: Result<(), RuntimeError>)
        requires
            old(self).wf(),
        ensures
            ok_state(old(self)@.gen_nodes(nodes@, nodes@.len(), cur), r, final(self)@),
            final(self).wf(),
        decreases nodes, 0nat,
    {
        let ghost m0 = self@;
        let mut i: usize = 0;
        proof {
            lemma_gen_nodes(m0, nodes@, 0, cur);
        }
        while i < nodes.len()
            invariant
                i <= nodes.len(),
                self.wf(),
                m0 == old(self)@,
                m0.gen_nodes(nodes@, i as nat, cur) == Ok::<Machine, ErrorTag>(self@),
            decreases nodes.len() - i,
        {
            proof {
                lemma_gen_nodes(m0, nodes@, (i + 1) as nat, cur);
                vstd::std_specs::vec::axiom_vec_index_decreases(*nodes, i as int);
            }
            match self.gen_into(&nodes[i], cur) {
                Ok(()) => {},
                Err(e) => {
                    proof {
                        lemma_gen_nodes_fail(m0, nodes@, (i + 1) as nat, nodes@.len(), cur);
                    }
                    return Err(e);
                },
            }
            i += 1;
        }
        Ok(())
    }

    /// Compiles the nodes of a list and then the push of their number.
    pub fn gen_counted_into(&mut self, nodes: &Vec<Node>, cur: usize) -> (r: Result<(), RuntimeError>)
        requires
            old(self).wf(),
        ensures
            ok_state(old(self)@.gen_counted(nodes@, cur), r, final(self)@),
            final(self).wf(),
        decreases nodes, 1nat,
    {
        self.gen_nodes_into(nodes, cur)?;
        self.emit_operand(cur, Inst::FIXNUM, nodes.len() as u64)
    }

    /// Compiles `node` into a buffer of its own, which ends with `END`,
    /// and returns the buffer's key, which no buffer had before.
    pub fn compile(&mut self, node: &Node) -> (r: Result<usize, RuntimeError>)
        requires
            old(self).wf(),
        ensures
            ok_word(old(self)@.compile(*node), r, final(self)@),
            final(self).wf(),
            r is Ok ==> !old(self)@.iseqs.contains_key(r->Ok_0),
        decreases node, 2nat,
    {
        proof {
            lemma_compile(old(self)@, *node);
        }
        if self.next_key == usize::MAX {
            return fail(ErrorTag::Unreachable, "no buffer key is left");
        }
        let key: usize = self.next_key;
        self.next_key = key + 1;
        fx_insert(&mut self.stack.iseqs, key, Vec::new());
        assert(bufs_view(self.stack.iseqs@) =~= old(self)@.iseqs.insert(key, Seq::empty()));
        self.gen_into(node, key)?;
        self.emit_byte(key, Inst::END)?;
        Ok(key)
    }

    /// Compiles a body that is evaluated on demand.
    pub fn gen_body_into(&mut self, node: &Node, cur: usize) -> (r: Result<(), RuntimeError>)
        requires
            old(self).wf(),
        ensures
            ok_state(old(self)@.gen_body(*node, cur), r, final(self)@),
            final(self).wf(),
        decreases node, 3nat,
    {
        proof {
            lemma_gen_body(old(self)@, *node, cur);
        }
        match node.kind {
            NodeKind::Nil => self.emit_byte(cur, Inst::NIL),
            _ => {
                let key = self.compile(node)?;
                self.emit_operand(cur, Inst::FIXNUM, key as u64)
            },
        }
    }

    /// Compiles `node` into the buffer `cur`.
    pub fn gen_into(&mut self, node: &Node, cur: usize) -> (r: Result<(), RuntimeError>)
        requires
            old(self).wf(),
        ensures
            ok_state(old(self)@.gen(*node, cur), r, final(self)@),
            final(self).wf(),
        decreases node, 0nat,
    {
        proof {
            lemma_gen(old(self)@, *node, cur);
        }
        match &node.kind {
            NodeKind::Nil => self.emit_byte(cur, Inst::NIL),
            NodeKind::SelfValue => self.emit_byte(cur, Inst::SELF_VALUE),
            NodeKind::Number(num) => self.emit_operand(cur, Inst::FIXNUM, to_bits(*num)),
            NodeKind::DecimalNumber(bits) => self.emit_operand(cur, Inst::DECIMALNUM, *bits),
            NodeKind::String(s) => {
                let id = self.stack.ident_table.get_ident_id(s.as_str());
                self.emit_operand(cur, Inst::FIXNUM, id.0 as u64)?;
                self.emit_byte(cur, Inst::STRING)
            },
            NodeKind::BinOp(op, lhs, rhs) => {
                self.gen_into(lhs, cur)?;
                self.gen_into(rhs, cur)?;
                self.emit_byte(cur, opcode_of(*op))
            },
            NodeKind::Ident(id) => self.emit_operand(cur, Inst::IDENT, id.0 as u64),
            NodeKind::Const(id) => self.emit_operand(cur, Inst::CONST, id.0 as u64),
            NodeKind::TableIdent(id) => self.emit_operand(cur, Inst::TABLE_IDENT, id.0 as u64),
            NodeKind::InstanceVar(id) => self.emit_operand(cur, Inst::INSTANCE_VAR, id.0 as u64),
            NodeKind::ClassVar(id) => self.emit_operand(cur, Inst::CLASS_VAR, id.0 as u64),
            NodeKind::CompStmt(nodes) => self.gen_nodes_into(nodes, cur),
            NodeKind::BlockDecl(body) => self.gen_into(body, cur),
            NodeKind::Array(nodes) => {
                self.gen_counted_into(nodes, cur)?;
                self.emit_byte(cur, Inst::ARRAY)
            },
            NodeKind::ArrayIndex(receiver, num) => {
                self.gen_into(receiver, cur)?;
                self.emit_operand(cur, Inst::FIXNUM, to_bits(*num))?;
                self.emit_byte(cur, Inst::ARRAY_INDEX)
            },
            NodeKind::If(cond_, then_, else_) => {
                self.gen_body_into(else_, cur)?;
                self.gen_body_into(then_, cur)?;
                self.gen_body_into(cond_, cur)?;
                self.emit_byte(cur, Inst::IF)
            },
            NodeKind::FuncDecl(id, params, body) => {
                self.emit_operand(cur, Inst::FIXNUM, id.0 as u64)?;
                self.gen_counted_into(params, cur)?;
                self.emit_byte(cur, Inst::INIT_FUNC)?;
                self.emit_operand(cur, Inst::FIXNUM, id.0 as u64)?;
                self.gen_body_into(body, cur)?;
                self.emit_byte(cur, Inst::FUNC_DECL)
            },
            NodeKind::ClassDecl(id, body, parent) => {
                self.emit_operand(cur, Inst::FIXNUM, id.0 as u64)?;
                self.gen_body_into(body, cur)?;
                match parent {
                    Some(p) => self.emit_operand(cur, Inst::FIXNUM, p.0 as u64)?,
                    None => self.emit_byte(cur, Inst::NIL)?,
                }
                self.emit_byte(cur, Inst::CLASS_DECL)
            },
            NodeKind::Assign(lhs, rhs) => {
                self.gen_into(rhs, cur)?;
                match &lhs.kind {
                    NodeKind::Ident(id) => {
                        self.emit_operand(cur, Inst::FIXNUM, id.0 as u64)?;
                        self.emit_byte(cur, Inst::IDENT_ASSIGN)
                    },
                    NodeKind::InstanceVar(id) => {
                        self.emit_operand(cur, Inst::FIXNUM, id.0 as u64)?;
                        self.emit_byte(cur, Inst::INSTANCE_VAR_ASSIGN)
                    },
                    NodeKind::ClassVar(id) => {
                        self.emit_operand(cur, Inst::FIXNUM, id.0 as u64)?;
                        self.emit_byte(cur, Inst::CLASS_VAR_ASSIGN)
                    },
                    _ => fail(ErrorTag::Unimplemented, "this cannot be assigned to"),
                }
            },
            NodeKind::Send(receiver, method, args) => {
                self.gen_into(receiver, cur)?;
                match &method.kind {
                    NodeKind::Ident(id) => {
                        self.emit_operand(cur, Inst::FIXNUM, id.0 as u64)?;
                        self.gen_into(&args.table, cur)?;
                        self.gen_body_into(&args.node, cur)?;
                        self.gen_counted_into(&args.args, cur)?;
                        self.emit_byte(cur, Inst::SEND)
                    },
                    _ => fail(ErrorTag::Unimplemented, "the method must be named by an identifier"),
                }
            },
            _ => fail(ErrorTag::Unimplemented, "this node cannot be compiled"),
        }
    }
}

} // verus!
