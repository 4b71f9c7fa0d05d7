//! What the compiler produces, as functions on the abstract machine state.
//!
//! Every body that is evaluated on demand (a branch of a conditional, the
//! body of a method, of a class or of a block) is compiled into a buffer of
//! its own, and the code that refers to it pushes the buffer's key. Keys
//! are given out in order, from 1; key 0 is the buffer of the program, and
//! stands for "no body" where a body is optional.

use crate::inst::{be_bytes, bits_of, Inst};
use crate::machine::{ErrorTag, Machine, Outcome};
use crate::node::{BinOp, Node, NodeKind};
use crate::util::{intern, intern_id};
use vstd::prelude::*;

verus! {

/// The opcode of a binary operator.
pub open spec fn binop_code(op: BinOp) -> u8 {
    match op {
        BinOp::Add => Inst::ADD,
        BinOp::Sub => Inst::SUB,
        BinOp::Mul => Inst::MUL,
        BinOp::Div => Inst::DIV,
        BinOp::Eq => Inst::EQ,
        BinOp::Ne => Inst::NE,
        BinOp::GT => Inst::GT,
        BinOp::GE => Inst::GE,
        BinOp::LT => Inst::LT,
        BinOp::LE => Inst::LE,
        BinOp::LAnd => Inst::LAND,
        BinOp::LOr => Inst::LOR,
    }
}

impl Machine {
    /// The state with `bytes` appended to the buffer `cur`.
    pub open spec fn emit(self, cur: usize, bytes: Seq<u8>) -> Result<Machine, ErrorTag> {
        if self.iseqs.contains_key(cur) {
            Ok(Machine { iseqs: self.iseqs.insert(cur, self.iseqs[cur] + bytes), ..self })
        } else {
            Err(ErrorTag::Unreachable)
        }
    }

    /// The state with the opcode `op` and its operand `u` appended to the
    /// buffer `cur`.
    pub open spec fn emit_num(self, cur: usize, op: u8, u: u64) -> Result<Machine, ErrorTag> {
        self.emit(cur, seq![op] + be_bytes(u))
    }

    /// The code of the first `n` of `nodes`, in order.
    pub open spec fn gen_nodes_body(self, nodes: Seq<Node>, n: nat, cur: usize) -> Result<
        Machine,
        ErrorTag,
    >
        decreases nodes, n, 0nat,
    {
        if n == 0 || n > nodes.len() {
            Ok(self)
        } else {
            match self.gen_nodes(nodes, (n - 1) as nat, cur) {
                Err(e) => Err(e),
                Ok(m) => m.gen(nodes[n - 1], cur),
            }
        }
    }

    /// Compiles `node` into a buffer of its own, which ends with `END`,
    /// and returns the buffer's key.
    pub open spec fn compile_body(self, node: Node) -> Outcome<usize>
        decreases node, 2nat, 0nat,
    {
        if self.next_key == usize::MAX {
            Err(ErrorTag::Unreachable)
        } else {
            let key = self.next_key;
            let fresh = Machine {
                iseqs: self.iseqs.insert(key, Seq::empty()),
                next_key: (key + 1) as usize,
                ..self
            };
            match fresh.gen(node, key) {
                Err(e) => Err(e),
                Ok(m) => match m.emit(key, seq![Inst::END]) {
                    Err(e) => Err(e),
                    Ok(m1) => Ok((m1, key)),
                },
            }
        }
    }

    /// The code for a body that is evaluated on demand: the body is
    /// compiled into a buffer of its own and its key is pushed; for no body,
    /// nil is pushed.
    pub open spec fn gen_body_body(self, node: Node, cur: usize) -> Result<Machine, ErrorTag>
        decreases node, 3nat, 0nat,
    {
        if node.kind is Nil {
            self.emit(cur, seq![Inst::NIL])
        } else {
            match self.compile(node) {
                Err(e) => Err(e),
                Ok((m, key)) => m.emit_num(cur, Inst::FIXNUM, key as u64),
            }
        }
    }

    /// The code for a list of nodes, followed by the push of their number.
    pub open spec fn gen_counted(self, nodes: Seq<Node>, cur: usize) -> Result<Machine, ErrorTag>
        decreases nodes, nodes.len() + 1, 0nat,
    {
        match self.gen_nodes(nodes, nodes.len(), cur) {
            Err(e) => Err(e),
            Ok(m) => m.emit_num(cur, Inst::FIXNUM, nodes.len() as u64),
        }
    }

    /// The code for `node`, appended to the buffer `cur`.
    pub open spec fn gen_body_of(self, node: Node, cur: usize) -> Result<Machine, ErrorTag>
        decreases node, 0nat, 0nat,
    {
        match node.kind {
            NodeKind::Nil => self.emit(cur, seq![Inst::NIL]),
            NodeKind::SelfValue => self.emit(cur, seq![Inst::SELF_VALUE]),
            NodeKind::Number(n) => self.emit_num(cur, Inst::FIXNUM, bits_of(n)),
            NodeKind::DecimalNumber(bits) => self.emit_num(cur, Inst::DECIMALNUM, bits),
            NodeKind::String(s) => match (Machine {
                literals: intern(self.literals, s@),
                ..self
            }).emit_num(cur, Inst::FIXNUM, intern_id(self.literals, s@) as u64) {
                Err(e) => Err(e),
                Ok(m) => m.emit(cur, seq![Inst::STRING]),
            },
            NodeKind::BinOp(op, lhs, rhs) => match self.gen(*lhs, cur) {
                Err(e) => Err(e),
                Ok(m1) => match m1.gen(*rhs, cur) {
                    Err(e) => Err(e),
                    Ok(m2) => m2.emit(cur, seq![binop_code(op)]),
                },
            },
            NodeKind::Ident(id) => self.emit_num(cur, Inst::IDENT, id.0 as u64),
            NodeKind::Const(id) => self.emit_num(cur, Inst::CONST, id.0 as u64),
            NodeKind::TableIdent(id) => self.emit_num(cur, Inst::TABLE_IDENT, id.0 as u64),
            NodeKind::InstanceVar(id) => self.emit_num(cur, Inst::INSTANCE_VAR, id.0 as u64),
            NodeKind::ClassVar(id) => self.emit_num(cur, Inst::CLASS_VAR, id.0 as u64),
            NodeKind::CompStmt(nodes) => self.gen_nodes(nodes@, nodes@.len(), cur),
            NodeKind::BlockDecl(body) => self.gen(*body, cur),
            NodeKind::Array(nodes) => match self.gen_counted(nodes@, cur) {
                Err(e) => Err(e),
                Ok(m) => m.emit(cur, seq![Inst::ARRAY]),
            },
            NodeKind::ArrayIndex(receiver, num) => match self.gen(*receiver, cur) {
                Err(e) => Err(e),
                Ok(m1) => match m1.emit_num(cur, Inst::FIXNUM, bits_of(num)) {
                    Err(e) => Err(e),
                    Ok(m2) => m2.emit(cur, seq![Inst::ARRAY_INDEX]),
                },
            },
            NodeKind::If(cond_, then_, else_) => match self.gen_body(*else_, cur) {
                Err(e) => Err(e),
                Ok(m1) => match m1.gen_body(*then_, cur) {
                    Err(e) => Err(e),
                    Ok(m2) => match m2.gen_body(*cond_, cur) {
                        Err(e) => Err(e),
                        Ok(m3) => m3.emit(cur, seq![Inst::IF]),
                    },
                },
            },
            NodeKind::FuncDecl(id, params, body) => match self.emit_num(
                cur,
                Inst::FIXNUM,
                id.0 as u64,
            ) {
                Err(e) => Err(e),
                Ok(m1) => match m1.gen_counted(params@, cur) {
                    Err(e) => Err(e),
                    Ok(m2) => match m2.emit(cur, seq![Inst::INIT_FUNC]) {
                        Err(e) => Err(e),
                        Ok(m3) => match m3.emit_num(cur, Inst::FIXNUM, id.0 as u64) {
                            Err(e) => Err(e),
                            Ok(m4) => match m4.gen_body(*body, cur) {
                                Err(e) => Err(e),
                                Ok(m5) => m5.emit(cur, seq![Inst::FUNC_DECL]),
                            },
                        },
                    },
                },
            },
            NodeKind::ClassDecl(id, body, parent) => match self.emit_num(
                cur,
                Inst::FIXNUM,
                id.0 as u64,
            ) {
                Err(e) => Err(e),
                Ok(m1) => match m1.gen_body(*body, cur) {
                    Err(e) => Err(e),
                    Ok(m2) => match (match parent {
                        Some(p) => m2.emit_num(cur, Inst::FIXNUM, p.0 as u64),
                        None => m2.emit(cur, seq![Inst::NIL]),
                    }) {
                        Err(e) => Err(e),
                        Ok(m3) => m3.emit(cur, seq![Inst::CLASS_DECL]),
                    },
                },
            },
            NodeKind::Assign(lhs, rhs) => match self.gen(*rhs, cur) {
                Err(e) => Err(e),
                Ok(m1) => match lhs.kind {
                    NodeKind::Ident(id) => match m1.emit_num(cur, Inst::FIXNUM, id.0 as u64) {
                        Err(e) => Err(e),
                        Ok(m2) => m2.emit(cur, seq![Inst::IDENT_ASSIGN]),
                    },
                    NodeKind::InstanceVar(id) => match m1.emit_num(cur, Inst::FIXNUM, id.0 as u64) {
                        Err(e) => Err(e),
                        Ok(m2) => m2.emit(cur, seq![Inst::INSTANCE_VAR_ASSIGN]),
                    },
                    NodeKind::ClassVar(id) => match m1.emit_num(cur, Inst::FIXNUM, id.0 as u64) {
                        Err(e) => Err(e),
                        Ok(m2) => m2.emit(cur, seq![Inst::CLASS_VAR_ASSIGN]),
                    },
                    _ => Err(ErrorTag::Unimplemented),
                },
            },
            NodeKind::Send(receiver, method, args) => match self.gen(*receiver, cur) {
                Err(e) => Err(e),
                Ok(m1) => match method.kind {
                    NodeKind::Ident(id) => match m1.emit_num(cur, Inst::FIXNUM, id.0 as u64) {
                        Err(e) => Err(e),
                        Ok(m2) => match m2.gen(args.table, cur) {
                            Err(e) => Err(e),
                            Ok(m3) => match m3.gen_body(args.node, cur) {
                                Err(e) => Err(e),
                                Ok(m4) => match m4.gen_counted(args.args@, cur) {
                                    Err(e) => Err(e),
                                    Ok(m5) => m5.emit(cur, seq![Inst::SEND]),
                                },
                            },
                        },
                    },
                    _ => Err(ErrorTag::Unimplemented),
                },
            },
            _ => Err(ErrorTag::Unimplemented),
        }
    }

    /// Loads a program: a frame and an operand stack for the buffer 0, and
    /// in that buffer the code of `node`, ended by `END`.
    pub open spec fn load(self, node: Node) -> Result<Machine, ErrorTag> {
        match (Machine {
            stack_poses: self.stack_poses.push(0),
            iseq_poses: self.iseq_poses.push(0),
            iseqs: self.iseqs.insert(0, Seq::empty()),
            exec_stack: self.exec_stack.push(Seq::empty()),
            ..self
        }).gen(node, 0) {
            Err(e) => Err(e),
            Ok(m) => m.emit(0, seq![Inst::END]),
        }
    }

    /// `gen_nodes_body`, under a name that is unfolded only on demand.
    #[verifier::opaque]
    pub open spec fn gen_nodes(self, nodes: Seq<Node>, n: nat, cur: usize) -> Result<
        Machine,
        ErrorTag,
    >
        decreases nodes, n, 1nat,
    {
        self.gen_nodes_body(nodes, n, cur)
    }

    /// `compile_body`, under a name that is unfolded only on demand.
    #[verifier::opaque]
    pub open spec fn compile(self, node: Node) -> Outcome<usize>
        decreases node, 2nat, 1nat,
    {
        self.compile_body(node)
    }

    /// `gen_body_body`, under a name that is unfolded only on demand.
    #[verifier::opaque]
    pub open spec fn gen_body(self, node: Node, cur: usize) -> Result<Machine, ErrorTag>
        decreases node, 3nat, 1nat,
    {
        self.gen_body_body(node, cur)
    }

    /// `gen_body_of`, under a name that is unfolded only on demand.
    #[verifier::opaque]
    pub open spec fn gen(self, node: Node, cur: usize) -> Result<Machine, ErrorTag>
        decreases node, 0nat, 1nat,
    {
        self.gen_body_of(node, cur)
    }
}

/// What `gen_nodes` is.
pub proof fn lemma_gen_nodes(m: Machine, nodes: Seq<Node>, n: nat, cur: usize)
    ensures
        m.gen_nodes(nodes, n, cur) == m.gen_nodes_body(nodes, n, cur),
{
    reveal(Machine::gen_nodes);
}

/// What `compile` is.
pub proof fn lemma_compile(m: Machine, node: Node)
    ensures
        m.compile(node) == m.compile_body(node),
{
    reveal(Machine::compile);
}

/// What `gen_body` is.
pub proof fn lemma_gen_body(m: Machine, node: Node, cur: usize)
    ensures
        m.gen_body(node, cur) == m.gen_body_body(node, cur),
{
    reveal(Machine::gen_body);
}

/// What `gen` is.
pub proof fn lemma_gen(m: Machine, node: Node, cur: usize)
    ensures
        m.gen(node, cur) == m.gen_body_of(node, cur),
{
    reveal(Machine::gen);
}

} // verus!
