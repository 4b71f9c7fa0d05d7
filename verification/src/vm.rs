//! The virtual machine: its state, and the operations on it that neither
//! compile nor evaluate.

use crate::annot::{Annot, Loc};
use crate::class::{ClassRef, GlobalClassTable};
use crate::fxmap::{fx_get, fx_new};
use crate::instance::GlobalInstanceTable;
use crate::machine::{binop, trunc_div, Env, ErrorTag, Machine, Outcome};
use crate::inst::Inst;
use crate::table::{GlobalScope, LocalScope, ScopeView, ValueTable};
use crate::text::{i64_to_string, usize_to_chars, string_from_chars};
use crate::class::Class;
use crate::util::{names_view, IdentId, IdentifierTable, SourceInfo};
use crate::value::{class_name, debug_list, values_view, Value, ValueView};
use rustc_hash::FxHashMap;
use vstd::prelude::*;

verus! {

pub type ISeq = u8;

/// The arguments that a builtin function gets: the key of the block's body
/// (0 where there is no block), the positional arguments and the block's
/// parameter.
#[derive(Debug)]
pub struct Args {
    pub body: usize,
    pub args: Vec<Value>,
    pub table: Option<IdentId>,
}

impl Args {
    pub fn new() -> (r: Self)
        ensures
            r.body == 0,
            r.args@.len() == 0,
            r.table is None,
    {
        Args { body: 0, args: Vec::new(), table: None }
    }
}

#[derive(Debug, Clone, PartialEq)]
pub enum RuntimeErrorKind {
    Unimplemented(String),
    Unreachable(String),
    Name(String),
    NoMethod(String),
}

impl RuntimeErrorKind {
    /// The kind of the failure, without its message.
    pub open spec fn tag(&self) -> ErrorTag {
        match self {
            RuntimeErrorKind::Unimplemented(_) => ErrorTag::Unimplemented,
            RuntimeErrorKind::Unreachable(_) => ErrorTag::Unreachable,
            RuntimeErrorKind::Name(_) => ErrorTag::Name,
            RuntimeErrorKind::NoMethod(_) => ErrorTag::NoMethod,
        }
    }

    pub fn kind_tag(&self) -> (r: ErrorTag)
        ensures
            r == self.tag(),
    {
        match self {
            RuntimeErrorKind::Unimplemented(_) => ErrorTag::Unimplemented,
            RuntimeErrorKind::Unreachable(_) => ErrorTag::Unreachable,
            RuntimeErrorKind::Name(_) => ErrorTag::Name,
            RuntimeErrorKind::NoMethod(_) => ErrorTag::NoMethod,
        }
    }

    /// The message of the failure, as characters.
    pub open spec fn text(&self) -> Seq<char> {
        match self {
            RuntimeErrorKind::Unimplemented(s) => s@,
            RuntimeErrorKind::Unreachable(s) => s@,
            RuntimeErrorKind::Name(s) => s@,
            RuntimeErrorKind::NoMethod(s) => s@,
        }
    }

    /// The message of the failure.
    pub fn message(&self) -> (r: String)
        ensures
            r@ == self.text(),
    {
        match self {
            RuntimeErrorKind::Unimplemented(s) => s.clone(),
            RuntimeErrorKind::Unreachable(s) => s.clone(),
            RuntimeErrorKind::Name(s) => s.clone(),
            RuntimeErrorKind::NoMethod(s) => s.clone(),
        }
    }
}

pub type RuntimeError = Annot<RuntimeErrorKind>;

pub type EvalResult = Result<Value, RuntimeError>;

/// A failure of the kind `tag` with the message `msg`.
pub fn fail<T>(tag: ErrorTag, msg: &str) -> (r: Result<T, RuntimeError>)
    ensures
        r is Err,
        r->Err_0.kind.tag() == tag,
        r->Err_0.kind.text() == msg@,
        r->Err_0.loc == Loc(0, 0),
{
    let text: String = msg.to_owned();
    let kind = match tag {
        ErrorTag::Unimplemented => RuntimeErrorKind::Unimplemented(text),
        ErrorTag::Unreachable => RuntimeErrorKind::Unreachable(text),
        ErrorTag::Name => RuntimeErrorKind::Name(text),
        ErrorTag::NoMethod => RuntimeErrorKind::NoMethod(text),
    };
    Err(Annot { kind, loc: Loc(0, 0) })
}

/// The compiled code and the frames of the evaluation.
#[derive(Debug)]
pub struct Stack {
    pub iseqs: FxHashMap<usize, Vec<u8>>,
    pub ident_table: IdentifierTable,
    pub stack_poses: Vec<usize>,
    pub iseq_poses: Vec<usize>,
    pub exec_stack: Vec<Vec<Value>>,
}

impl Stack {
    pub fn new() -> (r: Self)
        ensures
            r.iseqs@ == Map::<usize, Vec<u8>>::empty(),
            r.ident_table.wf(),
            r.ident_table@.len() == 0,
            r.stack_poses@.len() == 0,
            r.iseq_poses@.len() == 0,
            r.exec_stack@.len() == 0,
    {
        Stack {
            iseqs: fx_new(),
            ident_table: IdentifierTable::new(),
            stack_poses: Vec::new(),
            iseq_poses: Vec::new(),
            exec_stack: Vec::new(),
        }
    }
}

/// The virtual machine.
#[derive(Debug)]
pub struct VM {
    pub stack: Stack,
    pub source_info: SourceInfo,
    pub ident_table: IdentifierTable,
    pub class_table: GlobalClassTable,
    pub instance_table: GlobalInstanceTable,
    pub const_table: ValueTable,
    pub class_stack: Vec<ClassRef>,
    pub scope_stack: Vec<LocalScope>,
    pub global_stack: Vec<GlobalScope>,
    pub env: Vec<Env>,
    /// The key that the next compiled body gets.
    pub next_key: usize,
    /// The lines that `puts` has written and nobody has taken yet.
    pub output: Vec<String>,
}

/// The bytes of each buffer.
pub open spec fn bufs_view(m: Map<usize, Vec<u8>>) -> Map<usize, Seq<u8>> {
    Map::new(|k: usize| m.contains_key(k), |k: usize| m[k]@)
}

/// What each operand stack holds.
pub open spec fn stacks_view(s: Seq<Vec<Value>>) -> Seq<Seq<ValueView>> {
    Seq::new(s.len(), |i: int| values_view(s[i]@))
}

/// What each scope holds.
pub open spec fn scopes_view(s: Seq<LocalScope>) -> Seq<ScopeView> {
    Seq::new(s.len(), |i: int| s[i]@)
}

/// The handles of a stack of classes.
pub open spec fn class_stack_view(s: Seq<ClassRef>) -> Seq<usize> {
    Seq::new(s.len(), |i: int| s[i].0)
}

impl View for VM {
    type V = Machine;

    open spec fn view(&self) -> Machine {
        Machine {
            iseqs: bufs_view(self.stack.iseqs@),
            literals: self.stack.ident_table@,
            stack_poses: self.stack.stack_poses@,
            iseq_poses: self.stack.iseq_poses@,
            exec_stack: stacks_view(self.stack.exec_stack@),
            idents: self.ident_table@,
            classes: self.class_table@,
            instances: self.instance_table@,
            consts: self.const_table@,
            class_stack: class_stack_view(self.class_stack@),
            scopes: scopes_view(self.scope_stack@),
            env: self.env@,
            next_key: self.next_key,
            output: names_view(self.output@),
        }
    }
}

/// Whether an operation that changes the machine did what it should: it
/// succeeded with the expected state, or failed with the expected kind.
pub open spec fn ok_state(expected: Result<Machine, ErrorTag>, got: Result<(), RuntimeError>, after: Machine) -> bool {
    match expected {
        Ok(m) => got is Ok && after == m,
        Err(t) => got is Err && got->Err_0.kind.tag() == t,
    }
}

/// As `ok_state`, for an operation that also yields a value.
pub open spec fn ok_value(expected: Outcome<ValueView>, got: Result<Value, RuntimeError>, after: Machine) -> bool {
    match expected {
        Ok((m, v)) => got is Ok && after == m && got->Ok_0@ == v,
        Err(t) => got is Err && got->Err_0.kind.tag() == t,
    }
}

/// As `ok_state`, for an operation that also yields values.
pub open spec fn ok_values(expected: Outcome<Seq<ValueView>>, got: Result<Vec<Value>, RuntimeError>, after: Machine) -> bool {
    match expected {
        Ok((m, v)) => got is Ok && after == m && values_view(got->Ok_0@) == v,
        Err(t) => got is Err && got->Err_0.kind.tag() == t,
    }
}

/// As `ok_state`, for an operation that also yields a word.
pub open spec fn ok_word(expected: Outcome<usize>, got: Result<usize, RuntimeError>, after: Machine) -> bool {
    match expected {
        Ok((m, v)) => got is Ok && after == m && got->Ok_0 == v,
        Err(t) => got is Err && got->Err_0.kind.tag() == t,
    }
}

/// As `ok_state`, for an operation that also yields 64 bits.
pub open spec fn ok_bits(expected: Outcome<u64>, got: Result<u64, RuntimeError>, after: Machine) -> bool {
    match expected {
        Ok((m, v)) => got is Ok && after == m && got->Ok_0 == v,
        Err(t) => got is Err && got->Err_0.kind.tag() == t,
    }
}

/// As `ok_state`, for an operation that also yields a flag.
pub open spec fn ok_flag(expected: Outcome<bool>, got: Result<bool, RuntimeError>, after: Machine) -> bool {
    match expected {
        Ok((m, v)) => got is Ok && after == m && got->Ok_0 == v,
        Err(t) => got is Err && got->Err_0.kind.tag() == t,
    }
}

/// Whether a computation gave the expected value or failed as expected.
pub open spec fn same_value(expected: Result<ValueView, ErrorTag>, got: Result<Value, RuntimeError>) -> bool {
    match expected {
        Ok(v) => got is Ok && got->Ok_0@ == v,
        Err(t) => got is Err && got->Err_0.kind.tag() == t,
    }
}

/// Whether a computation gave the expected text or failed as expected.
pub open spec fn same_text(expected: Result<Seq<char>, ErrorTag>, got: Result<String, RuntimeError>) -> bool {
    match expected {
        Ok(v) => got is Ok && got->Ok_0@ == v,
        Err(t) => got is Err && got->Err_0.kind.tag() == t,
    }
}

/// Whether a computation gave the expected byte or failed as expected.
pub open spec fn same_byte(expected: Result<u8, ErrorTag>, got: Result<u8, RuntimeError>) -> bool {
    match expected {
        Ok(v) => got is Ok && got->Ok_0 == v,
        Err(t) => got is Err && got->Err_0.kind.tag() == t,
    }
}

/// Whether a computation gave the expected word or failed as expected.
pub open spec fn same_word(expected: Result<usize, ErrorTag>, got: Result<usize, RuntimeError>) -> bool {
    match expected {
        Ok(v) => got is Ok && got->Ok_0 == v,
        Err(t) => got is Err && got->Err_0.kind.tag() == t,
    }
}

/// The sum, difference or product of two 64-bit numbers, where it fits.
fn fit(n: i128) -> (r: Result<Value, RuntimeError>)
    ensures
        same_value(crate::machine::fixnum(n as int), r),
{
    if n < i64::MIN as i128 || n > i64::MAX as i128 {
        fail(ErrorTag::Unreachable, "the result does not fit in 64 bits")
    } else {
        Ok(Value::FixNum(n as i64))
    }
}

/// The quotient of two 64-bit numbers, rounded towards zero.
fn quotient(a: i64, b: i64) -> (r: i128)
    requires
        b != 0,
    ensures
        r == trunc_div(a as int, b as int),
{
    let ua: u128 = if a < 0 { (-(a as i128)) as u128 } else { a as u128 };
    let ub: u128 = if b < 0 { (-(b as i128)) as u128 } else { b as u128 };
    let q: u128 = ua / ub;
    if (a < 0) == (b < 0) {
        q as i128
    } else {
        -(q as i128)
    }
}

/// What a binary operator computes.
pub fn eval_binop(op: u8, lhs: &Value, rhs: &Value) -> (r: EvalResult)
    ensures
        same_value(binop(op, lhs@, rhs@), r),
{
    match lhs {
        Value::FixNum(a) => match rhs {
            Value::FixNum(b) => {
                let a: i64 = *a;
                let b: i64 = *b;
                if op == Inst::ADD {
                    fit(a as i128 + b as i128)
                } else if op == Inst::SUB {
                    fit(a as i128 - b as i128)
                } else if op == Inst::MUL {
                    assert(-0x8000_0000_0000_0000 * 0x8000_0000_0000_0000 <= a * b
                        <= 0x8000_0000_0000_0000 * 0x8000_0000_0000_0000) by (nonlinear_arith)
                        requires
                            -0x8000_0000_0000_0000 <= a < 0x8000_0000_0000_0000,
                            -0x8000_0000_0000_0000 <= b < 0x8000_0000_0000_0000,
                    ;
                    fit(a as i128 * b as i128)
                } else if op == Inst::DIV {
                    if b == 0 {
                        fail(ErrorTag::Unreachable, "divided by 0")
                    } else {
                        fit(quotient(a, b))
                    }
                } else if op == Inst::EQ {
                    Ok(Value::Bool(a == b))
                } else if op == Inst::NE {
                    Ok(Value::Bool(a != b))
                } else if op == Inst::GT {
                    Ok(Value::Bool(a > b))
                } else if op == Inst::GE {
                    Ok(Value::Bool(a >= b))
                } else if op == Inst::LT {
                    Ok(Value::Bool(a < b))
                } else if op == Inst::LE {
                    Ok(Value::Bool(a <= b))
                } else {
                    fail(ErrorTag::Unimplemented, "no such operator on integers")
                }
            },
            _ => fail(ErrorTag::Unimplemented, "no such operator on these operands"),
        },
        Value::Bool(a) => match rhs {
            Value::Bool(b) => {
                let a: bool = *a;
                let b: bool = *b;
                if op == Inst::EQ {
                    Ok(Value::Bool(a == b))
                } else if op == Inst::NE {
                    Ok(Value::Bool(a != b))
                } else if op == Inst::LAND {
                    Ok(Value::Bool(a && b))
                } else if op == Inst::LOR {
                    Ok(Value::Bool(a || b))
                } else {
                    fail(ErrorTag::Unimplemented, "no such operator on booleans")
                }
            },
            _ => fail(ErrorTag::Unimplemented, "no such operator on these operands"),
        },
        _ => fail(ErrorTag::Unimplemented, "no such operator on these operands"),
    }
}

/// `#<name:kind(handle)>`, the text of a class or of an instance.
fn handle_text(name: &String, kind: &str, handle: usize) -> (r: String)
    ensures
        r@ == "#<"@ + name@ + kind@ + crate::text::int_text(handle as int) + ")>"@,
{
    let digits = string_from_chars(&usize_to_chars(handle));
    let mut s: String = "#<".to_owned();
    s.append(name.as_str());
    s.append(kind);
    s.append(digits.as_str());
    s.append(")>");
    s
}

impl VM {
    /// The identifier tables are in order, every handle and buffer key in
    /// use has been given out, and every subclass map refers to classes
    /// that exist.
    pub open spec fn wf(&self) -> bool {
        &&& self.ident_table.wf()
        &&& self.stack.ident_table.wf()
        &&& self@.ordered()
        &&& self@.linked()
    }

    /// A machine without code, classes or frames, with one empty scope.
    pub fn new() -> (r: Self)
        ensures
            r.wf(),
            r@ == (Machine {
                iseqs: Map::empty(),
                literals: Seq::empty(),
                stack_poses: Seq::empty(),
                iseq_poses: Seq::empty(),
                exec_stack: Seq::empty(),
                idents: Seq::empty(),
                classes: crate::class::ClassTableView { classes: Map::empty(), class_id: 0 },
                instances: crate::instance::InstanceTableView {
                    instances: Map::empty(),
                    instance_id: 0,
                },
                consts: Map::empty(),
                class_stack: Seq::empty(),
                scopes: seq![
                    ScopeView { lvar: Map::empty(), propagated: Map::empty() },
                ],
                env: Seq::empty(),
                next_key: 1,
                output: Seq::empty(),
            }),
    {
        let mut scope_stack: Vec<LocalScope> = Vec::new();
        scope_stack.push(LocalScope::new());
        let mut global_stack: Vec<GlobalScope> = Vec::new();
        global_stack.push(GlobalScope::new());
        let r = VM {
            stack: Stack::new(),
            source_info: SourceInfo::new(),
            ident_table: IdentifierTable::new(),
            class_table: GlobalClassTable::new(),
            instance_table: GlobalInstanceTable::new(),
            const_table: ValueTable::new(),
            class_stack: Vec::new(),
            scope_stack,
            global_stack,
            env: Vec::new(),
            next_key: 1,
            output: Vec::new(),
        };
        assert(r@.iseqs =~= Map::<usize, Seq<u8>>::empty());
        assert(r@.literals =~= Seq::<Seq<char>>::empty());
        assert(r@.exec_stack =~= Seq::<Seq<ValueView>>::empty());
        assert(r@.class_stack =~= Seq::<usize>::empty());
        assert(r@.env =~= Seq::<Env>::empty());
        assert(r@.stack_poses =~= Seq::<usize>::empty());
        assert(r@.iseq_poses =~= Seq::<usize>::empty());
        assert(r@.output =~= Seq::<Seq<char>>::empty());
        assert(r@.scopes =~= seq![ScopeView { lvar: Map::empty(), propagated: Map::empty() }]);
        r
    }

    /// The sum of two integers.
    pub fn eval_add(&self, lhs: Value, rhs: Value) -> (r: EvalResult)
        ensures
            same_value(binop(Inst::ADD, lhs@, rhs@), r),
    {
        eval_binop(Inst::ADD, &lhs, &rhs)
    }

    /// The difference of two integers.
    pub fn eval_sub(&self, lhs: Value, rhs: Value) -> (r: EvalResult)
        ensures
            same_value(binop(Inst::SUB, lhs@, rhs@), r),
    {
        eval_binop(Inst::SUB, &lhs, &rhs)
    }

    /// The product of two integers.
    pub fn eval_mul(&self, lhs: Value, rhs: Value) -> (r: EvalResult)
        ensures
            same_value(binop(Inst::MUL, lhs@, rhs@), r),
    {
        eval_binop(Inst::MUL, &lhs, &rhs)
    }

    /// The quotient of two integers, rounded towards zero.
    pub fn eval_div(&self, lhs: Value, rhs: Value) -> (r: EvalResult)
        ensures
            same_value(binop(Inst::DIV, lhs@, rhs@), r),
    {
        eval_binop(Inst::DIV, &lhs, &rhs)
    }

    /// Whether two integers, or two booleans, are equal.
    pub fn eval_eq(&self, lhs: Value, rhs: Value) -> (r: EvalResult)
        ensures
            same_value(binop(Inst::EQ, lhs@, rhs@), r),
    {
        eval_binop(Inst::EQ, &lhs, &rhs)
    }

    /// Whether two integers, or two booleans, differ.
    pub fn eval_neq(&self, lhs: Value, rhs: Value) -> (r: EvalResult)
        ensures
            same_value(binop(Inst::NE, lhs@, rhs@), r),
    {
        eval_binop(Inst::NE, &lhs, &rhs)
    }

    /// Whether the first integer is at least the second.
    pub fn eval_ge(&self, lhs: Value, rhs: Value) -> (r: EvalResult)
        ensures
            same_value(binop(Inst::GE, lhs@, rhs@), r),
    {
        eval_binop(Inst::GE, &lhs, &rhs)
    }

    /// Whether the first integer is greater than the second.
    pub fn eval_gt(&self, lhs: Value, rhs: Value) -> (r: EvalResult)
        ensures
            same_value(binop(Inst::GT, lhs@, rhs@), r),
    {
        eval_binop(Inst::GT, &lhs, &rhs)
    }

    /// Whether the first integer is at most the second.
    pub fn eval_le(&self, lhs: Value, rhs: Value) -> (r: EvalResult)
        ensures
            same_value(binop(Inst::LE, lhs@, rhs@), r),
    {
        eval_binop(Inst::LE, &lhs, &rhs)
    }

    /// Whether the first integer is less than the second.
    pub fn eval_lt(&self, lhs: Value, rhs: Value) -> (r: EvalResult)
        ensures
            same_value(binop(Inst::LT, lhs@, rhs@), r),
    {
        eval_binop(Inst::LT, &lhs, &rhs)
    }

    /// The text of a value.
    pub fn val_to_s(&self, val: &Value) -> (r: Result<String, RuntimeError>)
        ensures
            same_text(self@.to_s(val@), r),
    {
        match val {
            Value::Nil => Ok(String::new()),
            Value::Bool(b) => if *b {
                Ok("true".to_owned())
            } else {
                Ok("false".to_owned())
            },
            Value::FixNum(i) => Ok(i64_to_string(*i)),
            Value::String(s) => Ok(s.clone()),
            Value::Class(class) => {
                if self.class_table.contains(*class) {
                    let info = self.class_table.get(*class);
                    Ok(handle_text(&info.name, ":ClassRef(", class.0))
                } else {
                    fail(ErrorTag::Unreachable, "the class handle is not valid")
                }
            },
            Value::Instance(instance) => {
                if self.instance_table.contains(*instance) {
                    let info = self.instance_table.get(*instance);
                    Ok(handle_text(&info.class_name, ":InstanceRef(", instance.0))
                } else {
                    fail(ErrorTag::Unreachable, "the instance handle is not valid")
                }
            },
            Value::SelfClass(c) => Ok(class_name(*c)),
            Value::Array(v) => Ok(debug_list(v)),
            _ => fail(ErrorTag::Unimplemented, "this value has no text"),
        }
    }

    /// The opcode under the cursor.
    pub fn fetch(&self) -> (r: Result<u8, RuntimeError>)
        ensures
            same_byte(self@.fetch(), r),
            r is Ok ==> self.stack.stack_poses@.len() > 0 && self@.pos() < usize::MAX,
    {
        let n: usize = self.stack.stack_poses.len();
        let k: usize = self.stack.iseq_poses.len();
        if n == 0 || k == 0 {
            return fail(ErrorTag::Unreachable, "no frame");
        }
        let key: usize = self.stack.iseq_poses[k - 1];
        let pos: usize = self.stack.stack_poses[n - 1];
        match fx_get(&self.stack.iseqs, key) {
            None => fail(ErrorTag::Unreachable, "no such buffer"),
            Some(buf) => {
                if pos < buf.len() {
                    Ok(buf[pos])
                } else {
                    fail(ErrorTag::Unreachable, "the cursor is past the end of the buffer")
                }
            },
        }
    }

    /// Moves the cursor on by `n`.
    pub fn plus_stack_pos(&mut self, n: usize)
        requires
            old(self).stack.stack_poses@.len() > 0,
            old(self)@.pos() + n <= usize::MAX,
        ensures
            final(self)@ == old(self)@.advance(n as int),
            old(self).wf() ==> final(self).wf(),
    {
        let p: usize = self.stack.stack_poses.pop().unwrap();
        self.stack.stack_poses.push(p + n);
        assert(self.stack.stack_poses@ =~= old(self)@.advance(n as int).stack_poses);
    }

    /// Reads the integer operand of the opcode under the cursor and moves
    /// the cursor past both.
    pub fn operand(&mut self) -> (r: Result<u64, RuntimeError>)
        ensures
            ok_bits(old(self)@.operand(), r, final(self)@),
            old(self).wf() ==> final(self).wf(),
    {
        let n: usize = self.stack.stack_poses.len();
        let k: usize = self.stack.iseq_poses.len();
        if n == 0 || k == 0 {
            return fail(ErrorTag::Unreachable, "no frame");
        }
        let key: usize = self.stack.iseq_poses[k - 1];
        let pos: usize = self.stack.stack_poses[n - 1];
        let value: u64 = match fx_get(&self.stack.iseqs, key) {
            None => {
                return fail(ErrorTag::Unreachable, "no such buffer");
            },
            Some(buf) => {
                if buf.len() < 9 || pos > buf.len() - 9 {
                    return fail(ErrorTag::Unreachable, "the operand is cut short");
                }
                proof {
                    crate::inst::lemma_from_be_bytes_range(buf@, pos + 1);
                }
                crate::inst::read_be_bytes(buf, pos + 1)
            },
        };
        self.plus_stack_pos(9);
        Ok(value)
    }

    /// Pushes a value onto the operand stack.
    pub fn push_value(&mut self, v: Value) -> (r: Result<(), RuntimeError>)
        ensures
            ok_state(old(self)@.push(v@), r, final(self)@),
            old(self).wf() ==> final(self).wf(),
    {
        match self.stack.exec_stack.pop() {
            None => fail(ErrorTag::Unreachable, "no operand stack"),
            Some(mut top) => {
                top.push(v);
                self.stack.exec_stack.push(top);
                proof {
                    crate::value::lemma_values_view_push(old(self).stack.exec_stack@.last()@, v);
                    assert(self@.exec_stack =~= old(self)@.push(v@)->Ok_0.exec_stack);
                }
                Ok(())
            },
        }
    }

    /// Takes the topmost value off the operand stack.
    pub fn pop_checked(&mut self) -> (r: EvalResult)
        ensures
            ok_value(old(self)@.pop(), r, final(self)@),
            old(self).wf() ==> final(self).wf(),
    {
        match self.stack.exec_stack.pop() {
            None => fail(ErrorTag::Unreachable, "no operand stack"),
            Some(mut top) => {
                proof {
                    crate::value::lemma_values_view(top@);
                }
                match top.pop() {
                    None => {
                        fail(ErrorTag::Unreachable, "the operand stack is empty")
                    },
                    Some(v) => {
                        self.stack.exec_stack.push(top);
                        proof {
                            crate::value::lemma_values_view_drop_last(
                                old(self).stack.exec_stack@.last()@,
                            );
                            assert(self@.exec_stack =~= old(self)@.pop()->Ok_0.0.exec_stack);
                        }
                        Ok(v)
                    },
                }
            },
        }
    }

    /// Takes the `n` topmost values off the operand stack; they come in
    /// the order in which they were pushed.
    pub fn pop_n(&mut self, n: usize) -> (r: Result<Vec<Value>, RuntimeError>)
        ensures
            ok_values(old(self)@.pop_n(n as nat), r, final(self)@),
            old(self).wf() ==> final(self).wf(),
    {
        match self.stack.exec_stack.pop() {
            None => fail(ErrorTag::Unreachable, "no operand stack"),
            Some(mut top) => {
                proof {
                    crate::value::lemma_values_view(top@);
                }
                if top.len() < n {
                    return fail(ErrorTag::Unreachable, "the operand stack is too short");
                }
                let at: usize = top.len() - n;
                let taken = top.split_off(at);
                self.stack.exec_stack.push(top);
                proof {
                    let before = old(self).stack.exec_stack@.last()@;
                    crate::value::lemma_values_view(before);
                    crate::value::lemma_values_view(top@);
                    crate::value::lemma_values_view(taken@);
                    assert(values_view(top@) =~= values_view(before).subrange(0, at as int));
                    assert(values_view(taken@) =~= values_view(before).subrange(
                        at as int,
                        before.len() as int,
                    ));
                    assert(self@.exec_stack =~= old(self)@.pop_n(n as nat)->Ok_0.0.exec_stack);
                }
                Ok(taken)
            },
        }
    }
}

} // verus!
