//! Laws of the instructions and of compiled programs.

use crate::compiler::{binop_code, lemma_compile, lemma_gen, lemma_gen_body, lemma_gen_nodes};
use crate::inst::{
    be_bytes, bits_of, from_be_bytes, lemma_be_bytes_round_trip, lemma_signed_round_trip, Inst,
};
use crate::machine::{binop, is_binop, lemma_evaluate, lemma_run, lemma_step, ErrorTag, Machine};
use crate::node::{BinOp, Node, NodeKind};
use crate::util::intern;
use crate::value::ValueView;
use vstd::prelude::*;

verus! {

/// The state with the operand stack of the current frame replaced.
pub open spec fn with_operands(s: Machine, operands: Seq<ValueView>) -> Machine {
    Machine { exec_stack: s.exec_stack.update(s.exec_stack.len() - 1, operands), ..s }
}

/// The bytes of a number are read back as the number, wherever they lie.
pub proof fn lemma_read_number(buf: Seq<u8>, at: int, u: u64)
    requires
        0 <= at,
        at + 8 <= buf.len(),
        buf.subrange(at, at + 8) == be_bytes(u),
    ensures
        from_be_bytes(buf, at) == u,
{
    let part = buf.subrange(at, at + 8);
    assert(part[0] == buf[at]);
    assert(part[1] == buf[at + 1]);
    assert(part[2] == buf[at + 2]);
    assert(part[3] == buf[at + 3]);
    assert(part[4] == buf[at + 4]);
    assert(part[5] == buf[at + 5]);
    assert(part[6] == buf[at + 6]);
    assert(part[7] == buf[at + 7]);
    lemma_be_bytes_round_trip(u);
    assert(from_be_bytes(buf, at) == from_be_bytes(be_bytes(u), 0));
}

/// `FIXNUM`: the number that follows the opcode is pushed, and the cursor
/// moves past both.
pub proof fn lemma_step_number(s: Machine, n: i64, fuel: nat)
    requires
        s.framed(),
        s.exec_stack.len() > 0,
        s.pos() + 9 <= s.buf().len(),
        s.buf()[s.pos() as int] == Inst::FIXNUM,
        s.buf().subrange(s.pos() + 1, s.pos() + 9) == be_bytes(bits_of(n)),
    ensures
        s.step(fuel) == Ok::<(Machine, bool), ErrorTag>(
            (with_operands(s.advance(9), s.exec_stack.last().push(ValueView::FixNum(n))), false),
        ),
{
    lemma_step(s, fuel);
    reveal(Machine::op_push);
    lemma_read_number(s.buf(), s.pos() + 1, bits_of(n));
    lemma_signed_round_trip(n, 0);
}

/// A binary operator: the two topmost values are replaced by the result,
/// and the cursor moves on by one.
pub proof fn lemma_step_binary(s: Machine, op: u8, lhs: ValueView, rhs: ValueView, fuel: nat)
    requires
        s.framed(),
        s.exec_stack.len() > 0,
        s.pos() < s.buf().len(),
        s.pos() < usize::MAX,
        s.buf()[s.pos() as int] == op,
        is_binop(op),
        s.exec_stack.last().len() >= 2,
        s.exec_stack.last()[s.exec_stack.last().len() - 2] == lhs,
        s.exec_stack.last().last() == rhs,
    ensures
        s.step(fuel) == (match binop(op, lhs, rhs) {
            Ok(v) => Ok(
                (
                    with_operands(
                        s.advance(1),
                        s.exec_stack.last().drop_last().drop_last().push(v),
                    ),
                    false,
                ),
            ),
            Err(e) => Err(e),
        }),
{
    lemma_step(s, fuel);
    reveal(Machine::op_binary);
    let s1 = s.advance(1);
    let (s2, r) = s1.pop()->Ok_0;
    assert(r == rhs);
    let (s3, l) = s2.pop()->Ok_0;
    assert(l == lhs);
    match binop(op, lhs, rhs) {
        Ok(v) => {
            assert(s3.push(v)->Ok_0.exec_stack =~= with_operands(
                s.advance(1),
                s.exec_stack.last().drop_last().drop_last().push(v),
            ).exec_stack);
        },
        Err(e) => {},
    }
}

/// `END` in a buffer that has produced a value: the cursor moves on by
/// one, and the buffer is at its end.
pub proof fn lemma_step_end(s: Machine, fuel: nat)
    requires
        s.framed(),
        s.exec_stack.len() > 0,
        s.exec_stack.last().len() > 0,
        s.pos() < s.buf().len(),
        s.buf()[s.pos() as int] == Inst::END,
    ensures
        s.step(fuel) == Ok::<(Machine, bool), ErrorTag>((s.advance(1), true)),
{
    lemma_step(s, fuel);
}

/// The code of a binary operator on two number literals.
pub open spec fn binop_program(op: BinOp, a: i64, b: i64) -> Seq<u8> {
    seq![Inst::FIXNUM] + be_bytes(bits_of(a)) + seq![Inst::FIXNUM] + be_bytes(bits_of(b))
        + seq![binop_code(op)] + seq![Inst::END]
}

/// Whether `node` is the binary operator `op` on the number literals `a`
/// and `b`.
pub open spec fn is_binop_of_numbers(node: Node, op: BinOp, a: i64, b: i64) -> bool {
    &&& node.kind is BinOp
    &&& node.kind->BinOp_0 == op
    &&& (*node.kind->BinOp_1).kind == NodeKind::Number(a)
    &&& (*node.kind->BinOp_2).kind == NodeKind::Number(b)
}

/// The code of a number literal is the push of the number.
pub proof fn lemma_gen_number(m: Machine, node: Node, cur: usize, n: i64)
    requires
        node.kind == NodeKind::Number(n),
    ensures
        m.gen(node, cur) == m.emit_num(cur, Inst::FIXNUM, bits_of(n)),
{
    lemma_gen(m, node, cur);
}

/// The code of a binary operator is the code of its left operand, the
/// code of its right operand and the operator's opcode.
pub proof fn lemma_gen_binop(m: Machine, node: Node, cur: usize)
    requires
        node.kind is BinOp,
    ensures
        m.gen(node, cur) == (match m.gen(*node.kind->BinOp_1, cur) {
            Err(e) => Err(e),
            Ok(m1) => match m1.gen(*node.kind->BinOp_2, cur) {
                Err(e) => Err(e),
                Ok(m2) => m2.emit(cur, seq![binop_code(node.kind->BinOp_0)]),
            },
        }),
{
    lemma_gen(m, node, cur);
}

/// Compiling a binary operator on two number literals yields a new buffer
/// that holds the push of the one, the push of the other, the operator and
/// the end; nothing else changes.
pub proof fn lemma_compile_binop(m: Machine, node: Node, op: BinOp, a: i64, b: i64)
    requires
        is_binop_of_numbers(node, op, a, b),
        m.next_key < usize::MAX,
    ensures
        m.compile(node) == Ok::<(Machine, usize), ErrorTag>(
            (
                Machine {
                    iseqs: m.iseqs.insert(m.next_key, binop_program(op, a, b)),
                    next_key: (m.next_key + 1) as usize,
                    ..m
                },
                m.next_key,
            ),
        ),
{
    let key = m.next_key;
    let fresh = Machine {
        iseqs: m.iseqs.insert(key, Seq::empty()),
        next_key: (key + 1) as usize,
        ..m
    };
    let lhs = *node.kind->BinOp_1;
    let rhs = *node.kind->BinOp_2;
    let code1 = seq![Inst::FIXNUM] + be_bytes(bits_of(a));
    let code2 = code1 + (seq![Inst::FIXNUM] + be_bytes(bits_of(b)));
    let code3 = code2 + seq![binop_code(op)];
    let code4 = code3 + seq![Inst::END];
    lemma_compile(m, node);
    lemma_gen_binop(fresh, node, key);
    lemma_gen_number(fresh, lhs, key, a);
    let m1 = Machine { iseqs: m.iseqs.insert(key, code1), ..fresh };
    assert(fresh.iseqs[key] + code1 =~= code1);
    assert(fresh.iseqs.insert(key, fresh.iseqs[key] + code1) =~= m1.iseqs);
    assert(fresh.gen(lhs, key) == Ok::<Machine, ErrorTag>(m1));
    lemma_gen_number(m1, rhs, key, b);
    let m2 = Machine { iseqs: m.iseqs.insert(key, code2), ..fresh };
    assert(m1.iseqs.insert(key, m1.iseqs[key] + (seq![Inst::FIXNUM] + be_bytes(bits_of(b))))
        =~= m2.iseqs);
    assert(m1.gen(rhs, key) == Ok::<Machine, ErrorTag>(m2));
    let m3 = Machine { iseqs: m.iseqs.insert(key, code3), ..fresh };
    assert(m2.iseqs.insert(key, m2.iseqs[key] + seq![binop_code(op)]) =~= m3.iseqs);
    assert(fresh.gen(node, key) == Ok::<Machine, ErrorTag>(m3));
    let m4 = Machine { iseqs: m.iseqs.insert(key, code4), ..fresh };
    assert(m3.iseqs.insert(key, m3.iseqs[key] + seq![Inst::END]) =~= m4.iseqs);
    assert(code4 =~= binop_program(op, a, b));
}

/// Running the code of a binary operator on two number literals yields
/// what the operator computes on the two numbers, and fails where the
/// operator fails; the machine is otherwise as it was.
pub proof fn lemma_run_binop(s: Machine, key: usize, op: BinOp, a: i64, b: i64, fuel: nat)
    requires
        s.iseqs.contains_key(key),
        s.iseqs[key] == binop_program(op, a, b),
        fuel >= 5,
    ensures
        s.evaluate(key, fuel) == (match binop(
            binop_code(op),
            ValueView::FixNum(a),
            ValueView::FixNum(b),
        ) {
            Ok(v) => Ok((s, v)),
            Err(e) => Err(e),
        }),
{
    let code = binop_program(op, a, b);
    let f1 = (fuel - 1) as nat;
    let f2 = (fuel - 2) as nat;
    let f3 = (fuel - 3) as nat;
    let f4 = (fuel - 4) as nat;
    let f5 = (fuel - 5) as nat;
    assert(code.len() == 20);
    assert(code[0] == Inst::FIXNUM);
    assert(code.subrange(1, 9) =~= be_bytes(bits_of(a)));
    assert(code[9] == Inst::FIXNUM);
    assert(code.subrange(10, 18) =~= be_bytes(bits_of(b)));
    assert(code[18] == binop_code(op));
    assert(code[19] == Inst::END);
    lemma_evaluate(s, key, fuel);
    let s0 = s.enter(key);
    assert(s0.buf() == code);
    assert(s0.pos() == 0);
    lemma_run(s0, f1);
    lemma_step_number(s0, a, f2);
    let s1 = with_operands(s0.advance(9), seq![ValueView::FixNum(a)]);
    assert(s0.exec_stack.last().push(ValueView::FixNum(a)) =~= seq![ValueView::FixNum(a)]);
    assert(s1.buf() == code);
    assert(s1.pos() == 9);
    lemma_run(s1, f2);
    lemma_step_number(s1, b, f3);
    let s2 = with_operands(s1.advance(9), seq![ValueView::FixNum(a), ValueView::FixNum(b)]);
    assert(s1.exec_stack.last().push(ValueView::FixNum(b)) =~= seq![
        ValueView::FixNum(a),
        ValueView::FixNum(b),
    ]);
    assert(with_operands(s1.advance(9), s1.exec_stack.last().push(ValueView::FixNum(b))) == s2);
    assert(s2.buf() == code);
    assert(s2.pos() == 18);
    lemma_run(s2, f3);
    lemma_step_binary(s2, binop_code(op), ValueView::FixNum(a), ValueView::FixNum(b), f4);
    match binop(binop_code(op), ValueView::FixNum(a), ValueView::FixNum(b)) {
        Err(e) => {},
        Ok(v) => {
            let s3 = with_operands(s2.advance(1), seq![v]);
            assert(s2.exec_stack.last().drop_last().drop_last().push(v) =~= seq![v]);
            assert(with_operands(
                s2.advance(1),
                s2.exec_stack.last().drop_last().drop_last().push(v),
            ) == s3);
            assert(s3.buf() == code);
            assert(s3.pos() == 19);
            lemma_run(s3, f4);
            lemma_step_end(s3, f5);
            let s4 = s3.advance(1);
            assert(s4.leave()->Ok_0.0.stack_poses =~= s.stack_poses);
            assert(s4.leave()->Ok_0.0.iseq_poses =~= s.iseq_poses);
            assert(s4.leave()->Ok_0.0.exec_stack =~= s.exec_stack);
            assert(s4.leave()->Ok_0.0 == s);
        },
    }
}

/// A program that applies a binary operator to two number literals
/// evaluates to what the operator computes on the two numbers, from any
/// state of the machine and as often as it is run.
pub proof fn lemma_binop_program(m: Machine, node: Node, op: BinOp, a: i64, b: i64, fuel: nat)
    requires
        is_binop_of_numbers(node, op, a, b),
        m.next_key < usize::MAX,
        fuel >= 5,
    ensures
        m.compile(node) is Ok,
        ({
            let (compiled, entry) = m.compile(node)->Ok_0;
            let expected = binop(binop_code(op), ValueView::FixNum(a), ValueView::FixNum(b));
            &&& compiled.evaluate(entry, fuel) == (match expected {
                Ok(v) => Ok((compiled, v)),
                Err(e) => Err(e),
            })
            &&& expected is Ok ==> compiled.evaluate(entry, fuel)->Ok_0.0.evaluate(entry, fuel)
                == compiled.evaluate(entry, fuel)
        }),
{
    lemma_compile_binop(m, node, op, a, b);
    let (compiled, entry) = m.compile(node)->Ok_0;
    lemma_run_binop(compiled, entry, op, a, b, fuel);
}

/// Whether `node` is an arithmetic expression: a number literal, or a
/// binary operator on two arithmetic expressions.
pub open spec fn is_arith(node: Node) -> bool
    decreases node,
{
    match node.kind {
        NodeKind::Number(_) => true,
        NodeKind::BinOp(_, lhs, rhs) => is_arith(*lhs) && is_arith(*rhs),
        _ => false,
    }
}

/// What an arithmetic expression stands for: its operands are worked out
/// from left to right, and the first failure is the failure of the whole.
pub open spec fn arith_value(node: Node) -> Result<ValueView, ErrorTag>
    decreases node,
{
    match node.kind {
        NodeKind::Number(n) => Ok(ValueView::FixNum(n)),
        NodeKind::BinOp(op, lhs, rhs) => match arith_value(*lhs) {
            Err(e) => Err(e),
            Ok(l) => match arith_value(*rhs) {
                Err(e) => Err(e),
                Ok(r) => binop(binop_code(op), l, r),
            },
        },
        _ => Err(ErrorTag::Unimplemented),
    }
}

/// The code of an arithmetic expression.
pub open spec fn arith_code(node: Node) -> Seq<u8>
    decreases node,
{
    match node.kind {
        NodeKind::Number(n) => seq![Inst::FIXNUM] + be_bytes(bits_of(n)),
        NodeKind::BinOp(op, lhs, rhs) => arith_code(*lhs) + arith_code(*rhs) + seq![
            binop_code(op),
        ],
        _ => Seq::empty(),
    }
}

/// The number of instructions in the code of an arithmetic expression.
pub open spec fn arith_steps(node: Node) -> nat
    decreases node,
{
    match node.kind {
        NodeKind::BinOp(_, lhs, rhs) => arith_steps(*lhs) + arith_steps(*rhs) + 1,
        _ => 1,
    }
}

/// The state in which an arithmetic expression has left its value: the
/// cursor has moved past the code, and the value is on the operand stack.
pub open spec fn after_value(s: Machine, len: nat, v: ValueView) -> Machine {
    with_operands(s.advance(len as int), s.exec_stack.last().push(v))
}

/// Compiling an arithmetic expression appends its code to the buffer and
/// changes nothing else.
pub proof fn lemma_gen_arith(m: Machine, node: Node, cur: usize)
    requires
        is_arith(node),
        m.iseqs.contains_key(cur),
    ensures
        m.gen(node, cur) == Ok::<Machine, ErrorTag>(
            Machine { iseqs: m.iseqs.insert(cur, m.iseqs[cur] + arith_code(node)), ..m },
        ),
    decreases node,
{
    match node.kind {
        NodeKind::Number(n) => {
            lemma_gen_number(m, node, cur, n);
        },
        NodeKind::BinOp(op, lhs, rhs) => {
            lemma_gen_binop(m, node, cur);
            lemma_gen_arith(m, *lhs, cur);
            let m1 = Machine { iseqs: m.iseqs.insert(cur, m.iseqs[cur] + arith_code(*lhs)), ..m };
            lemma_gen_arith(m1, *rhs, cur);
            let m2 = Machine {
                iseqs: m.iseqs.insert(cur, m.iseqs[cur] + arith_code(*lhs) + arith_code(*rhs)),
                ..m
            };
            assert(m1.iseqs.insert(cur, m1.iseqs[cur] + arith_code(*rhs)) =~= m2.iseqs);
            assert(m1.gen(*rhs, cur) == Ok::<Machine, ErrorTag>(m2));
            let m3 = Machine { iseqs: m.iseqs.insert(cur, m.iseqs[cur] + arith_code(node)), ..m };
            assert(m.iseqs[cur] + arith_code(*lhs) + arith_code(*rhs) + seq![binop_code(op)]
                =~= m.iseqs[cur] + arith_code(node));
            assert(m2.iseqs.insert(cur, m2.iseqs[cur] + seq![binop_code(op)]) =~= m3.iseqs);
        },
        _ => {},
    }
}

/// Running the code of an arithmetic expression leaves the value of the
/// expression on the operand stack, with the cursor behind the code, and
/// goes on from there; where the expression fails, the run fails in the
/// same way.
pub proof fn lemma_run_arith(s: Machine, node: Node, fuel: nat)
    requires
        is_arith(node),
        s.framed(),
        s.exec_stack.len() > 0,
        s.pos() + arith_code(node).len() <= s.buf().len(),
        s.pos() + arith_code(node).len() < usize::MAX,
        s.buf().subrange(s.pos() as int, s.pos() + arith_code(node).len()) == arith_code(node),
        fuel >= arith_steps(node),
    ensures
        arith_steps(node) >= 1,
        s.run(fuel) == (match arith_value(node) {
            Ok(v) => after_value(s, arith_code(node).len(), v).run(
                (fuel - arith_steps(node)) as nat,
            ),
            Err(e) => Err(e),
        }),
    decreases node,
{
    let p = s.pos() as int;
    let code = arith_code(node);
    match node.kind {
        NodeKind::Number(n) => {
            assert(code.len() == 9);
            assert(s.buf()[p] == code[0]);
            assert(s.buf().subrange(p + 1, p + 9) =~= be_bytes(bits_of(n))) by {
                assert forall|i: int| 0 <= i < 8 implies s.buf()[p + 1 + i] == be_bytes(
                    bits_of(n),
                )[i] by {
                    assert(s.buf().subrange(p, p + code.len())[1 + i] == code[1 + i]);
                }
            }
            lemma_run(s, fuel);
            lemma_step_number(s, n, (fuel - 1) as nat);
        },
        NodeKind::BinOp(op, lhs, rhs) => {
            let cl = arith_code(*lhs);
            let cr = arith_code(*rhs);
            assert(code.len() == cl.len() + cr.len() + 1);
            assert(s.buf().subrange(p, p + cl.len()) =~= cl) by {
                assert(code.subrange(0, cl.len() as int) =~= cl);
                assert forall|i: int| 0 <= i < cl.len() implies s.buf()[p + i] == cl[i] by {
                    assert(s.buf().subrange(p, p + code.len())[i] == code[i]);
                }
            }
            lemma_run_arith(s, *lhs, fuel);
            match arith_value(*lhs) {
                Err(e) => {},
                Ok(l) => {
                    let s1 = after_value(s, cl.len(), l);
                    let f1 = (fuel - arith_steps(*lhs)) as nat;
                    assert(s1.buf() == s.buf());
                    assert(s1.pos() == p + cl.len());
                    assert(s1.buf().subrange(p + cl.len(), p + cl.len() + cr.len()) =~= cr) by {
                        assert forall|i: int| 0 <= i < cr.len() implies s.buf()[p + cl.len() + i]
                            == cr[i] by {
                            assert(s.buf().subrange(p, p + code.len())[cl.len() + i] == code[cl.len()
                                + i]);
                        }
                    }
                    lemma_run_arith(s1, *rhs, f1);
                    match arith_value(*rhs) {
                        Err(e) => {},
                        Ok(r) => {
                            let s2 = after_value(s1, cr.len(), r);
                            let f2 = (f1 - arith_steps(*rhs)) as nat;
                            assert(s2.buf() == s.buf());
                            assert(s2.pos() == p + cl.len() + cr.len());
                            assert(s.buf()[p + cl.len() + cr.len()] == binop_code(op)) by {
                                let at = (cl.len() + cr.len()) as int;
                                assert(s.buf().subrange(p, p + code.len())[at] == code[at]);
                            }
                            let st = s.exec_stack.last();
                            assert(s2.exec_stack.last() == st.push(l).push(r));
                            lemma_run(s2, f2);
                            lemma_step_binary(s2, binop_code(op), l, r, (f2 - 1) as nat);
                            match binop(binop_code(op), l, r) {
                                Err(e) => {},
                                Ok(v) => {
                                    let s3 = with_operands(
                                        s2.advance(1),
                                        s2.exec_stack.last().drop_last().drop_last().push(v),
                                    );
                                    assert(st.push(l).push(r).drop_last().drop_last() =~= st);
                                    assert(s3.stack_poses =~= after_value(
                                        s,
                                        code.len(),
                                        v,
                                    ).stack_poses);
                                    assert(s3.exec_stack =~= after_value(
                                        s,
                                        code.len(),
                                        v,
                                    ).exec_stack);
                                    assert(s3 == after_value(s, code.len(), v));
                                },
                            }
                        },
                    }
                },
            }
        },
        _ => {},
    }
}

/// A program that is an arithmetic expression evaluates to what the
/// expression stands for, and fails where the expression fails: from any
/// state of the machine, and as often as it is compiled and run. The
/// machine is afterwards as it was when the program had been compiled.
pub proof fn lemma_arith_program(m: Machine, node: Node, fuel: nat)
    requires
        is_arith(node),
        m.next_key < usize::MAX,
        arith_code(node).len() + 1 < usize::MAX,
        fuel >= arith_steps(node) + 2,
    ensures
        m.compile(node) is Ok,
        ({
            let (compiled, entry) = m.compile(node)->Ok_0;
            &&& compiled == (Machine {
                iseqs: m.iseqs.insert(m.next_key, arith_code(node) + seq![Inst::END]),
                next_key: (m.next_key + 1) as usize,
                ..m
            })
            &&& entry == m.next_key
            &&& compiled.evaluate(entry, fuel) == (match arith_value(node) {
                Ok(v) => Ok((compiled, v)),
                Err(e) => Err(e),
            })
        }),
{
    let key = m.next_key;
    let code = arith_code(node);
    let fresh = Machine {
        iseqs: m.iseqs.insert(key, Seq::empty()),
        next_key: (key + 1) as usize,
        ..m
    };
    lemma_compile(m, node);
    lemma_gen_arith(fresh, node, key);
    let m1 = Machine { iseqs: fresh.iseqs.insert(key, fresh.iseqs[key] + code), ..fresh };
    let compiled = Machine { iseqs: m.iseqs.insert(key, code + seq![Inst::END]), ..fresh };
    assert(fresh.iseqs[key] + code =~= code);
    assert(m1.iseqs.insert(key, m1.iseqs[key] + seq![Inst::END]) =~= compiled.iseqs);
    assert(m.compile(node) == Ok::<(Machine, usize), ErrorTag>((compiled, key)));
    lemma_evaluate(compiled, key, fuel);
    let s0 = compiled.enter(key);
    let f1 = (fuel - 1) as nat;
    assert(s0.buf() == code + seq![Inst::END]);
    assert(s0.buf().subrange(0, code.len() as int) =~= code);
    lemma_run_arith(s0, node, f1);
    match arith_value(node) {
        Err(e) => {},
        Ok(v) => {
            let s1 = after_value(s0, code.len(), v);
            let f2 = (f1 - arith_steps(node)) as nat;
            assert(s1.buf() == s0.buf());
            assert(s1.pos() == code.len());
            lemma_run(s1, f2);
            lemma_step_end(s1, (f2 - 1) as nat);
            let s2 = s1.advance(1);
            assert(s2.leave()->Ok_0.0.stack_poses =~= compiled.stack_poses);
            assert(s2.leave()->Ok_0.0.iseq_poses =~= compiled.iseq_poses);
            assert(s2.leave()->Ok_0.0.exec_stack =~= compiled.exec_stack);
            assert(s2.leave()->Ok_0.0 == compiled);
        },
    }
}

/// Compiling and running an arithmetic expression a second time gives the
/// value of the first time.
pub proof fn lemma_arith_program_twice(m: Machine, node: Node, fuel: nat)
    requires
        is_arith(node),
        m.next_key + 1 < usize::MAX,
        arith_code(node).len() + 1 < usize::MAX,
        fuel >= arith_steps(node) + 2,
        arith_value(node) is Ok,
    ensures
        ({
            let (c1, e1) = m.compile(node)->Ok_0;
            let (r1, v1) = c1.evaluate(e1, fuel)->Ok_0;
            let (c2, e2) = r1.compile(node)->Ok_0;
            let (r2, v2) = c2.evaluate(e2, fuel)->Ok_0;
            &&& m.compile(node) is Ok
            &&& c1.evaluate(e1, fuel) is Ok
            &&& r1.compile(node) is Ok
            &&& c2.evaluate(e2, fuel) is Ok
            &&& v1 == v2
            &&& v1 == arith_value(node)->Ok_0
            &&& r1.evaluate(e1, fuel) == c1.evaluate(e1, fuel)
        }),
{
    lemma_arith_program(m, node, fuel);
    let (c1, e1) = m.compile(node)->Ok_0;
    let (r1, v1) = c1.evaluate(e1, fuel)->Ok_0;
    lemma_arith_program(r1, node, fuel);
}

/// Whether `after` differs from `before` in nothing but the compiled
/// code: the buffers, the string literals and the next key.
pub open spec fn code_only(before: Machine, after: Machine) -> bool {
    after == (Machine {
        iseqs: after.iseqs,
        literals: after.literals,
        next_key: after.next_key,
        ..before
    })
}

/// Compiling changes nothing but the compiled code: the operand stacks,
/// the frames, the scopes, the classes, the instances, the constants and
/// the output are as they were.
pub proof fn lemma_gen_changes_code_only(m: Machine, node: Node, cur: usize)
    ensures
        m.gen(node, cur) is Ok ==> code_only(m, m.gen(node, cur)->Ok_0),
        m.gen_body(node, cur) is Ok ==> code_only(m, m.gen_body(node, cur)->Ok_0),
        m.compile(node) is Ok ==> code_only(m, m.compile(node)->Ok_0.0),
    decreases node, 1nat, 0nat,
{
    lemma_gen(m, node, cur);
    lemma_gen_body(m, node, cur);
    lemma_compile(m, node);
    if m.next_key < usize::MAX {
        let fresh = Machine {
            iseqs: m.iseqs.insert(m.next_key, Seq::empty()),
            next_key: (m.next_key + 1) as usize,
            ..m
        };
        lemma_gen_only(fresh, node, m.next_key);
    }
    lemma_gen_only(m, node, cur);
}

/// The part of `lemma_gen_changes_code_only` that speaks of `gen`.
pub proof fn lemma_gen_only(m: Machine, node: Node, cur: usize)
    ensures
        m.gen(node, cur) is Ok ==> code_only(m, m.gen(node, cur)->Ok_0),
    decreases node, 0nat, 0nat,
{
    lemma_gen(m, node, cur);
    match node.kind {
        NodeKind::BinOp(op, lhs, rhs) => {
            lemma_gen_only(m, *lhs, cur);
            if m.gen(*lhs, cur) is Ok {
                lemma_gen_only(m.gen(*lhs, cur)->Ok_0, *rhs, cur);
            }
        },
        NodeKind::CompStmt(nodes) => {
            lemma_gen_nodes_only(m, nodes@, nodes@.len(), cur);
        },
        NodeKind::BlockDecl(body) => {
            lemma_gen_only(m, *body, cur);
        },
        NodeKind::Array(nodes) => {
            lemma_gen_nodes_only(m, nodes@, nodes@.len(), cur);
        },
        NodeKind::ArrayIndex(receiver, num) => {
            lemma_gen_only(m, *receiver, cur);
        },
        NodeKind::If(cond_, then_, else_) => {
            lemma_gen_changes_code_only(m, *else_, cur);
            if m.gen_body(*else_, cur) is Ok {
                let m1 = m.gen_body(*else_, cur)->Ok_0;
                lemma_gen_changes_code_only(m1, *then_, cur);
                if m1.gen_body(*then_, cur) is Ok {
                    lemma_gen_changes_code_only(m1.gen_body(*then_, cur)->Ok_0, *cond_, cur);
                }
            }
        },
        NodeKind::FuncDecl(id, params, body) => {
            let m1 = m.emit_num(cur, Inst::FIXNUM, id.0 as u64);
            if m1 is Ok {
                lemma_gen_nodes_only(m1->Ok_0, params@, params@.len(), cur);
                let m2 = m1->Ok_0.gen_counted(params@, cur);
                if m2 is Ok {
                    let m3 = m2->Ok_0.emit(cur, seq![Inst::INIT_FUNC]);
                    if m3 is Ok {
                        let m4 = m3->Ok_0.emit_num(cur, Inst::FIXNUM, id.0 as u64);
                        if m4 is Ok {
                            lemma_gen_changes_code_only(m4->Ok_0, *body, cur);
                        }
                    }
                }
            }
        },
        NodeKind::ClassDecl(id, body, parent) => {
            let m1 = m.emit_num(cur, Inst::FIXNUM, id.0 as u64);
            if m1 is Ok {
                lemma_gen_changes_code_only(m1->Ok_0, *body, cur);
            }
        },
        NodeKind::Assign(lhs, rhs) => {
            lemma_gen_only(m, *rhs, cur);
        },
        NodeKind::Send(receiver, method, args) => {
            lemma_gen_only(m, *receiver, cur);
            if m.gen(*receiver, cur) is Ok && method.kind is Ident {
                let m1 = m.gen(*receiver, cur)->Ok_0;
                let m2 = m1.emit_num(cur, Inst::FIXNUM, method.kind->Ident_0.0 as u64);
                if m2 is Ok {
                    lemma_gen_only(m2->Ok_0, args.table, cur);
                    if m2->Ok_0.gen(args.table, cur) is Ok {
                        let m3 = m2->Ok_0.gen(args.table, cur)->Ok_0;
                        lemma_gen_changes_code_only(m3, args.node, cur);
                        if m3.gen_body(args.node, cur) is Ok {
                            lemma_gen_nodes_only(
                                m3.gen_body(args.node, cur)->Ok_0,
                                args.args@,
                                args.args@.len(),
                                cur,
                            );
                        }
                    }
                }
            }
        },
        _ => {},
    }
}

/// The part of `lemma_gen_changes_code_only` that speaks of lists.
pub proof fn lemma_gen_nodes_only(m: Machine, nodes: Seq<Node>, n: nat, cur: usize)
    ensures
        m.gen_nodes(nodes, n, cur) is Ok ==> code_only(m, m.gen_nodes(nodes, n, cur)->Ok_0),
    decreases nodes, n, 0nat,
{
    lemma_gen_nodes(m, nodes, n, cur);
    if 0 < n <= nodes.len() {
        lemma_gen_nodes_only(m, nodes, (n - 1) as nat, cur);
        if m.gen_nodes(nodes, (n - 1) as nat, cur) is Ok {
            lemma_gen_only(m.gen_nodes(nodes, (n - 1) as nat, cur)->Ok_0, nodes[n - 1], cur);
        }
    }
}

/// Whether `after` holds the compiled code of `before` and possibly
/// more: every buffer of `before` is there and starts with what it held,
/// the string literals start with those of `before`, the next key is no
/// smaller, and the keys in use are still below the next one.
#[verifier::opaque]
pub open spec fn grows(before: Machine, after: Machine) -> bool {
    &&& before.next_key <= after.next_key
    &&& before.literals.is_prefix_of(after.literals)
    &&& forall|k: usize| #[trigger]
        before.iseqs.contains_key(k) ==> after.iseqs.contains_key(k) && before.iseqs[k].is_prefix_of(
            after.iseqs[k],
        )
    &&& after.keys_in_order()
}

/// A state whose keys are in order grows into itself.
pub proof fn lemma_grows_same(m: Machine)
    requires
        m.keys_in_order(),
    ensures
        grows(m, m),
{
    reveal(grows);
}

/// Growing is transitive.
pub proof fn lemma_grows_twice(a: Machine, b: Machine, c: Machine)
    requires
        grows(a, b),
        grows(b, c),
    ensures
        grows(a, c),
{
    reveal(grows);
    assert forall|k: usize| #[trigger] a.iseqs.contains_key(k) implies c.iseqs.contains_key(k)
        && a.iseqs[k].is_prefix_of(c.iseqs[k]) by {
        assert(b.iseqs.contains_key(k));
        assert(a.iseqs[k].is_prefix_of(b.iseqs[k]));
        assert(b.iseqs[k].is_prefix_of(c.iseqs[k]));
    }
}

/// Appending to a buffer lets the code grow.
pub proof fn lemma_emit_grows(m: Machine, cur: usize, bytes: Seq<u8>)
    requires
        m.keys_in_order(),
        m.emit(cur, bytes) is Ok,
    ensures
        grows(m, m.emit(cur, bytes)->Ok_0),
{
    reveal(grows);
    let after = m.emit(cur, bytes)->Ok_0;
    assert forall|k: usize| #[trigger] m.iseqs.contains_key(k) implies after.iseqs.contains_key(k)
        && m.iseqs[k].is_prefix_of(after.iseqs[k]) by {
        if k == cur {
            assert(m.iseqs[k].is_prefix_of(m.iseqs[k] + bytes));
        }
    }
    assert forall|k: usize| #[trigger] after.iseqs.contains_key(k) implies k < after.next_key by {
        assert(m.iseqs.contains_key(k));
    }
}

/// A new string literal lets the code grow.
pub proof fn lemma_literal_grows(m: Machine, text: Seq<char>)
    requires
        m.keys_in_order(),
    ensures
        grows(m, Machine { literals: intern(m.literals, text), ..m }),
{
    reveal(grows);
}

/// A new, empty buffer under the next key lets the code grow.
pub proof fn lemma_fresh_grows(m: Machine)
    requires
        m.keys_in_order(),
        m.next_key < usize::MAX,
    ensures
        grows(
            m,
            Machine {
                iseqs: m.iseqs.insert(m.next_key, Seq::empty()),
                next_key: (m.next_key + 1) as usize,
                ..m
            },
        ),
{
    reveal(grows);
}

/// What has grown has its keys in order.
pub proof fn lemma_grown_in_order(a: Machine, b: Machine)
    requires
        grows(a, b),
    ensures
        b.keys_in_order(),
{
    reveal(grows);
}

/// The rules of growing, for every state at once.
proof fn lemma_grows_rules()
    ensures
        forall|a: Machine, b: Machine, c: Machine|
            #[trigger] grows(a, b) && #[trigger] grows(b, c) ==> grows(a, c),
        forall|a: Machine, b: Machine| #[trigger] grows(a, b) ==> b.keys_in_order(),
        forall|m: Machine, cur: usize, bytes: Seq<u8>|
            m.keys_in_order() && (#[trigger] m.emit(cur, bytes)) is Ok ==> grows(
                m,
                m.emit(cur, bytes)->Ok_0,
            ),
{
    assert forall|a: Machine, b: Machine, c: Machine|
        #[trigger] grows(a, b) && #[trigger] grows(b, c) implies grows(a, c) by {
        lemma_grows_twice(a, b, c);
    }
    assert forall|a: Machine, b: Machine| #[trigger] grows(a, b) implies b.keys_in_order() by {
        lemma_grown_in_order(a, b);
    }
    assert forall|m: Machine, cur: usize, bytes: Seq<u8>|
        m.keys_in_order() && (#[trigger] m.emit(cur, bytes)) is Ok implies grows(
        m,
        m.emit(cur, bytes)->Ok_0,
    ) by {
        lemma_emit_grows(m, cur, bytes);
    }
}

/// Compiling only appends: where the buffer keys in use are in order,
/// every buffer that was there is still there and starts with what it
/// held, and so do the string literals; a body that is compiled on its own
/// gets a key that no buffer had.
pub proof fn lemma_gen_only_appends(m: Machine, node: Node, cur: usize)
    requires
        m.keys_in_order(),
    ensures
        m.gen(node, cur) is Ok ==> grows(m, m.gen(node, cur)->Ok_0),
        m.gen_body(node, cur) is Ok ==> grows(m, m.gen_body(node, cur)->Ok_0),
        m.compile(node) is Ok ==> grows(m, m.compile(node)->Ok_0.0) && !m.iseqs.contains_key(
            m.compile(node)->Ok_0.1,
        ),
    decreases node, 1nat, 0nat,
{
    lemma_grows_rules();
    lemma_gen(m, node, cur);
    lemma_gen_body(m, node, cur);
    lemma_compile(m, node);
    lemma_grows_same(m);
    if m.next_key < usize::MAX {
        let fresh = Machine {
            iseqs: m.iseqs.insert(m.next_key, Seq::empty()),
            next_key: (m.next_key + 1) as usize,
            ..m
        };
        lemma_fresh_grows(m);
        lemma_gen_appends(fresh, node, m.next_key);
    }
    lemma_gen_appends(m, node, cur);
}

/// The part of `lemma_gen_only_appends` that speaks of `gen`.
pub proof fn lemma_gen_appends(m: Machine, node: Node, cur: usize)
    requires
        m.keys_in_order(),
    ensures
        m.gen(node, cur) is Ok ==> grows(m, m.gen(node, cur)->Ok_0),
    decreases node, 0nat, 0nat,
{
    lemma_grows_rules();
    lemma_grows_same(m);
    lemma_gen(m, node, cur);
    match node.kind {
        NodeKind::String(text) => {
            lemma_literal_grows(m, text@);
        },
        NodeKind::BinOp(op, lhs, rhs) => {
            lemma_gen_appends(m, *lhs, cur);
            if m.gen(*lhs, cur) is Ok {
                lemma_gen_appends(m.gen(*lhs, cur)->Ok_0, *rhs, cur);
            }
        },
        NodeKind::CompStmt(nodes) => {
            lemma_gen_nodes_appends(m, nodes@, nodes@.len(), cur);
        },
        NodeKind::BlockDecl(body) => {
            lemma_gen_appends(m, *body, cur);
        },
        NodeKind::Array(nodes) => {
            lemma_gen_nodes_appends(m, nodes@, nodes@.len(), cur);
        },
        NodeKind::ArrayIndex(receiver, num) => {
            lemma_gen_appends(m, *receiver, cur);
        },
        NodeKind::If(cond_, then_, else_) => {
            lemma_gen_only_appends(m, *else_, cur);
            if m.gen_body(*else_, cur) is Ok {
                let m1 = m.gen_body(*else_, cur)->Ok_0;
                lemma_gen_only_appends(m1, *then_, cur);
                if m1.gen_body(*then_, cur) is Ok {
                    lemma_gen_only_appends(m1.gen_body(*then_, cur)->Ok_0, *cond_, cur);
                }
            }
        },
        NodeKind::FuncDecl(id, params, body) => {
            let m1 = m.emit_num(cur, Inst::FIXNUM, id.0 as u64);
            if m1 is Ok {
                lemma_gen_nodes_appends(m1->Ok_0, params@, params@.len(), cur);
                let m2 = m1->Ok_0.gen_counted(params@, cur);
                if m2 is Ok {
                    let m3 = m2->Ok_0.emit(cur, seq![Inst::INIT_FUNC]);
                    if m3 is Ok {
                        let m4 = m3->Ok_0.emit_num(cur, Inst::FIXNUM, id.0 as u64);
                        if m4 is Ok {
                            lemma_gen_only_appends(m4->Ok_0, *body, cur);
                        }
                    }
                }
            }
        },
        NodeKind::ClassDecl(id, body, parent) => {
            let m1 = m.emit_num(cur, Inst::FIXNUM, id.0 as u64);
            if m1 is Ok {
                lemma_gen_only_appends(m1->Ok_0, *body, cur);
            }
        },
        NodeKind::Assign(lhs, rhs) => {
            lemma_gen_appends(m, *rhs, cur);
        },
        NodeKind::Send(receiver, method, args) => {
            lemma_gen_appends(m, *receiver, cur);
            if m.gen(*receiver, cur) is Ok && method.kind is Ident {
                let m1 = m.gen(*receiver, cur)->Ok_0;
                let m2 = m1.emit_num(cur, Inst::FIXNUM, method.kind->Ident_0.0 as u64);
                if m2 is Ok {
                    lemma_gen_appends(m2->Ok_0, args.table, cur);
                    if m2->Ok_0.gen(args.table, cur) is Ok {
                        let m3 = m2->Ok_0.gen(args.table, cur)->Ok_0;
                        lemma_gen_only_appends(m3, args.node, cur);
                        if m3.gen_body(args.node, cur) is Ok {
                            lemma_gen_nodes_appends(
                                m3.gen_body(args.node, cur)->Ok_0,
                                args.args@,
                                args.args@.len(),
                                cur,
                            );
                        }
                    }
                }
            }
        },
        _ => {},
    }
}

/// The part of `lemma_gen_only_appends` that speaks of lists.
pub proof fn lemma_gen_nodes_appends(m: Machine, nodes: Seq<Node>, n: nat, cur: usize)
    requires
        m.keys_in_order(),
    ensures
        m.gen_nodes(nodes, n, cur) is Ok ==> grows(m, m.gen_nodes(nodes, n, cur)->Ok_0),
    decreases nodes, n, 0nat,
{
    lemma_grows_rules();
    lemma_grows_same(m);
    lemma_gen_nodes(m, nodes, n, cur);
    if 0 < n <= nodes.len() {
        lemma_gen_nodes_appends(m, nodes, (n - 1) as nat, cur);
        if m.gen_nodes(nodes, (n - 1) as nat, cur) is Ok {
            lemma_gen_appends(m.gen_nodes(nodes, (n - 1) as nat, cur)->Ok_0, nodes[n - 1], cur);
        }
    }
}

} // verus!
