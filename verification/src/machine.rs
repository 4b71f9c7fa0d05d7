//! What the stack machine does, as functions on an abstract machine state.
//!
//! Every operation either yields the next state (and what it produced) or
//! fails for good; a failure carries its kind. Evaluation of nested bodies
//! is bounded by a budget: each buffer that is entered and each instruction
//! that is carried out takes one unit, and an evaluation that runs out of
//! budget fails.

use crate::class::{fresh_class, Class, ClassRef, ClassTableView, ClassView};
use crate::inst::{from_be_bytes, signed_of, Inst};
use crate::instance::{InstanceRef, InstanceTableView, InstanceView};
use crate::table::{copy_back, Builtin, MethodView, ScopeView};
use crate::text::{int_text, parse_i64_spec};
use crate::util::{intern, intern_id};
use crate::value::{class_of, class_text, list_debug_text, truthy, word_of, ValueView};
use vstd::prelude::*;

verus! {

/// The kinds of failure.
#[derive(Debug, Clone, Copy, PartialEq, Eq, Structural)]
pub enum ErrorTag {
    Unimplemented,
    Unreachable,
    Name,
    NoMethod,
}

/// What `self` is: a class or an instance.
#[derive(Debug, Clone, Copy, PartialEq, Eq, Structural)]
pub enum Env {
    ClassRef(ClassRef),
    InstanceRef(InstanceRef),
}

/// The arguments that a builtin function gets: the key of the block's
/// body (0 where there is no block), the positional arguments and the
/// identifier of the block's parameter.
pub struct ArgsView {
    pub body: usize,
    pub args: Seq<ValueView>,
    pub table: Option<usize>,
}

/// The state of the machine.
pub struct Machine {
    /// The instruction buffers, by key.
    pub iseqs: Map<usize, Seq<u8>>,
    /// The string literals of the compiled code, by number.
    pub literals: Seq<Seq<char>>,
    /// The cursor of each frame, innermost last.
    pub stack_poses: Seq<usize>,
    /// The buffer key of each frame, innermost last.
    pub iseq_poses: Seq<usize>,
    /// The operand stacks, the current one last.
    pub exec_stack: Seq<Seq<ValueView>>,
    /// The identifiers, by number.
    pub idents: Seq<Seq<char>>,
    pub classes: ClassTableView,
    pub instances: InstanceTableView,
    pub consts: Map<usize, ValueView>,
    pub class_stack: Seq<usize>,
    pub scopes: Seq<ScopeView>,
    pub env: Seq<Env>,
    /// The key that the next compiled body gets.
    pub next_key: usize,
    /// The lines that `puts` has written.
    pub output: Seq<Seq<char>>,
}

pub type Outcome<T> = Result<(Machine, T), ErrorTag>;

/// The identifier in a stack slot.
pub open spec fn slot_ident(v: ValueView) -> Result<usize, ErrorTag> {
    match v {
        ValueView::FixNum(n) => Ok(word_of(n)),
        _ => Err(ErrorTag::Unimplemented),
    }
}

/// The identifier in a stack slot, or none for nil.
pub open spec fn slot_option_ident(v: ValueView) -> Result<Option<usize>, ErrorTag> {
    match v {
        ValueView::FixNum(n) => Ok(Some(word_of(n))),
        ValueView::Nil => Ok(None),
        _ => Err(ErrorTag::Unimplemented),
    }
}

/// The buffer key in a stack slot; nil stands for no buffer, which is 0.
pub open spec fn slot_ptr(v: ValueView) -> Result<usize, ErrorTag> {
    match v {
        ValueView::FixNum(n) => Ok(word_of(n)),
        ValueView::Nil => Ok(0),
        _ => Err(ErrorTag::Unimplemented),
    }
}

/// The count in a stack slot; nil and negative numbers count as 0.
pub open spec fn slot_count(v: ValueView) -> Result<nat, ErrorTag> {
    match v {
        ValueView::FixNum(n) => Ok(if n > 0 { n as nat } else { 0 }),
        ValueView::Nil => Ok(0),
        _ => Err(ErrorTag::Unimplemented),
    }
}

/// The identifiers in a run of stack slots.
pub open spec fn slot_idents(vs: Seq<ValueView>) -> Result<Seq<usize>, ErrorTag> {
    if forall|i: int| 0 <= i < vs.len() ==> (#[trigger] vs[i]) is FixNum {
        Ok(Seq::new(vs.len(), |i: int| word_of(vs[i]->FixNum_0)))
    } else {
        Err(ErrorTag::Unimplemented)
    }
}

/// The quotient of `a` by `b`, rounded towards zero.
pub open spec fn trunc_div(a: int, b: int) -> int {
    if a >= 0 && b > 0 {
        a / b
    } else if a < 0 && b > 0 {
        -((-a) / b)
    } else if a >= 0 && b < 0 {
        -(a / (-b))
    } else {
        (-a) / (-b)
    }
}

/// The number `n` as a value, where it fits in 64 bits.
pub open spec fn fixnum(n: int) -> Result<ValueView, ErrorTag> {
    if i64::MIN <= n <= i64::MAX {
        Ok(ValueView::FixNum(n as i64))
    } else {
        Err(ErrorTag::Unreachable)
    }
}

/// What a binary operator computes. Arithmetic and comparison are defined
/// on integers, equality on integers and on booleans, and the logical
/// operators on booleans. A result that does not fit in 64 bits and a
/// division by zero fail as `Unreachable`; operands of any other kind
/// fail as `Unimplemented`.
pub open spec fn binop(op: u8, lhs: ValueView, rhs: ValueView) -> Result<ValueView, ErrorTag> {
    match (lhs, rhs) {
        (ValueView::FixNum(a), ValueView::FixNum(b)) => {
            if op == Inst::ADD {
                fixnum(a + b)
            } else if op == Inst::SUB {
                fixnum(a - b)
            } else if op == Inst::MUL {
                fixnum(a * b)
            } else if op == Inst::DIV {
                if b == 0 {
                    Err(ErrorTag::Unreachable)
                } else {
                    fixnum(trunc_div(a as int, b as int))
                }
            } else if op == Inst::EQ {
                Ok(ValueView::Bool(a == b))
            } else if op == Inst::NE {
                Ok(ValueView::Bool(a != b))
            } else if op == Inst::GT {
                Ok(ValueView::Bool(a > b))
            } else if op == Inst::GE {
                Ok(ValueView::Bool(a >= b))
            } else if op == Inst::LT {
                Ok(ValueView::Bool(a < b))
            } else if op == Inst::LE {
                Ok(ValueView::Bool(a <= b))
            } else {
                Err(ErrorTag::Unimplemented)
            }
        },
        (ValueView::Bool(a), ValueView::Bool(b)) => {
            if op == Inst::EQ {
                Ok(ValueView::Bool(a == b))
            } else if op == Inst::NE {
                Ok(ValueView::Bool(a != b))
            } else if op == Inst::LAND {
                Ok(ValueView::Bool(a && b))
            } else if op == Inst::LOR {
                Ok(ValueView::Bool(a || b))
            } else {
                Err(ErrorTag::Unimplemented)
            }
        },
        _ => Err(ErrorTag::Unimplemented),
    }
}

/// Whether `op` is the opcode of a binary operator.
pub open spec fn is_binop(op: u8) -> bool {
    Inst::ADD <= op <= Inst::LOR
}

/// The variables after the parameters from `i` on have been bound to the
/// arguments at their positions, or to nil where the arguments run out.
pub open spec fn bind_params(
    lvar: Map<usize, ValueView>,
    params: Seq<usize>,
    args: Seq<ValueView>,
    i: nat,
) -> Map<usize, ValueView>
    decreases params.len() - i,
{
    if i >= params.len() {
        lvar
    } else {
        bind_params(
            lvar.insert(
                params[i as int],
                if i < args.len() {
                    args[i as int]
                } else {
                    ValueView::Nil
                },
            ),
            params,
            args,
            i + 1,
        )
    }
}

/// The variables after the parameters from `i` on have been set to 0.
pub open spec fn zero_params(lvar: Map<usize, ValueView>, params: Seq<usize>, i: nat) -> Map<
    usize,
    ValueView,
>
    decreases params.len() - i,
{
    if i >= params.len() {
        lvar
    } else {
        zero_params(lvar.insert(params[i as int], ValueView::FixNum(0)), params, i + 1)
    }
}

/// The names of the instance variables `vars` among the first `n`
/// identifiers, each with `@` in front, in the order of the identifiers.
pub open spec fn ivar_names(vars: Map<usize, ValueView>, idents: Seq<Seq<char>>, n: nat) -> Seq<
    ValueView,
>
    decreases n,
{
    if n == 0 {
        Seq::empty()
    } else {
        let rest = ivar_names(vars, idents, (n - 1) as nat);
        if vars.contains_key((n - 1) as usize) {
            rest.push(ValueView::String("@"@ + idents[n - 1]))
        } else {
            rest
        }
    }
}

/// Where the text of one value fails, the texts of all values fail in the
/// same way, unless an earlier one fails.
pub proof fn lemma_texts_fail(m: Machine, args: Seq<ValueView>, i: nat, n: nat)
    requires
        i <= n <= args.len(),
        m.texts(args, i) is Err,
    ensures
        m.texts(args, n) == m.texts(args, i),
    decreases n - i,
{
    if i < n {
        lemma_texts_fail(m, args, i, (n - 1) as nat);
    }
}

impl Machine {
    /// Every class handle, instance handle and buffer key in use has been
    /// given out: it lies below the next one. The key 0 is that of the
    /// program's own buffer and is never given out.
    pub open spec fn ordered(self) -> bool {
        &&& self.classes.wf()
        &&& self.instances.wf()
        &&& 0 < self.next_key
        &&& self.keys_in_order()
    }

    /// Whether every buffer key in use is below the next one.
    pub open spec fn keys_in_order(self) -> bool {
        forall|k: usize| #[trigger] self.iseqs.contains_key(k) ==> k < self.next_key
    }

    /// Whether there is a current frame and its buffer exists.
    pub open spec fn framed(self) -> bool {
        &&& self.stack_poses.len() > 0
        &&& self.iseq_poses.len() > 0
        &&& self.iseqs.contains_key(self.iseq_poses.last())
    }

    /// The buffer of the current frame.
    pub open spec fn buf(self) -> Seq<u8> {
        self.iseqs[self.iseq_poses.last()]
    }

    /// The cursor of the current frame.
    pub open spec fn pos(self) -> usize {
        self.stack_poses.last()
    }

    /// The opcode under the cursor.
    pub open spec fn fetch(self) -> Result<u8, ErrorTag> {
        if self.framed() && self.pos() < self.buf().len() {
            Ok(self.buf()[self.pos() as int])
        } else {
            Err(ErrorTag::Unreachable)
        }
    }

    /// The state with the cursor moved on by `n`.
    pub open spec fn advance(self, n: int) -> Machine {
        Machine {
            stack_poses: self.stack_poses.update(
                self.stack_poses.len() - 1,
                (self.pos() + n) as usize,
            ),
            ..self
        }
    }

    /// Reads the integer operand of the opcode under the cursor and moves
    /// the cursor past both.
    pub open spec fn operand(self) -> Outcome<u64> {
        if self.framed() && self.pos() + 9 <= self.buf().len() {
            Ok((self.advance(9), from_be_bytes(self.buf(), self.pos() + 1) as u64))
        } else {
            Err(ErrorTag::Unreachable)
        }
    }

    pub open spec fn push(self, v: ValueView) -> Result<Machine, ErrorTag> {
        if self.exec_stack.len() > 0 {
            Ok(
                Machine {
                    exec_stack: self.exec_stack.update(
                        self.exec_stack.len() - 1,
                        self.exec_stack.last().push(v),
                    ),
                    ..self
                },
            )
        } else {
            Err(ErrorTag::Unreachable)
        }
    }

    pub open spec fn pop(self) -> Outcome<ValueView> {
        if self.exec_stack.len() > 0 && self.exec_stack.last().len() > 0 {
            Ok(
                (
                    Machine {
                        exec_stack: self.exec_stack.update(
                            self.exec_stack.len() - 1,
                            self.exec_stack.last().drop_last(),
                        ),
                        ..self
                    },
                    self.exec_stack.last().last(),
                ),
            )
        } else {
            Err(ErrorTag::Unreachable)
        }
    }

    /// Takes the `n` topmost values off the operand stack; they come in
    /// the order in which they were pushed.
    pub open spec fn pop_n(self, n: nat) -> Outcome<Seq<ValueView>> {
        if self.exec_stack.len() > 0 && self.exec_stack.last().len() >= n {
            let top = self.exec_stack.last();
            Ok(
                (
                    Machine {
                        exec_stack: self.exec_stack.update(
                            self.exec_stack.len() - 1,
                            top.subrange(0, top.len() - n),
                        ),
                        ..self
                    },
                    top.subrange(top.len() - n, top.len() as int),
                ),
            )
        } else {
            Err(ErrorTag::Unreachable)
        }
    }

    /// Takes a count off the operand stack and then that many values.
    pub open spec fn pop_array(self) -> Outcome<Seq<ValueView>> {
        match self.pop() {
            Err(e) => Err(e),
            Ok((m, v)) => match slot_count(v) {
                Err(e) => Err(e),
                Ok(n) => m.pop_n(n),
            },
        }
    }

    /// Takes a buffer key off the operand stack.
    pub open spec fn pop_ptr(self) -> Outcome<usize> {
        match self.pop() {
            Err(e) => Err(e),
            Ok((m, v)) => match slot_ptr(v) {
                Err(e) => Err(e),
                Ok(p) => Ok((m, p)),
            },
        }
    }

    /// Takes an identifier off the operand stack.
    pub open spec fn pop_ident(self) -> Outcome<usize> {
        match self.pop() {
            Err(e) => Err(e),
            Ok((m, v)) => match slot_ident(v) {
                Err(e) => Err(e),
                Ok(p) => Ok((m, p)),
            },
        }
    }

    /// Binds a local variable in the innermost scope.
    pub open spec fn set_local(self, id: usize, v: ValueView) -> Result<Machine, ErrorTag> {
        if self.scopes.len() > 0 {
            let top = self.scopes.last();
            Ok(
                Machine {
                    scopes: self.scopes.update(
                        self.scopes.len() - 1,
                        ScopeView { lvar: top.lvar.insert(id, v), propagated: top.propagated },
                    ),
                    ..self
                },
            )
        } else {
            Err(ErrorTag::Unreachable)
        }
    }

    /// Enters a scope that starts with the variables of the current one,
    /// with `bound` added where there is one.
    pub open spec fn enter_scope(self, bound: Option<(usize, ValueView)>) -> Result<
        Machine,
        ErrorTag,
    > {
        if self.scopes.len() > 0 {
            let outer = self.scopes.last().lvar;
            let lvar = match bound {
                Some((id, v)) => outer.insert(id, v),
                None => outer,
            };
            Ok(Machine { scopes: self.scopes.push(ScopeView { lvar, propagated: outer }), ..self })
        } else {
            Err(ErrorTag::Unreachable)
        }
    }

    /// Leaves the innermost scope: every variable that it shares with the
    /// scope around it is copied back to that scope, and the others are
    /// dropped with it.
    pub open spec fn leave_scope(self) -> Result<Machine, ErrorTag> {
        if self.scopes.len() >= 2 {
            let inner = self.scopes.last();
            let outer = self.scopes[self.scopes.len() - 2];
            Ok(
                Machine {
                    scopes: self.scopes.drop_last().update(
                        self.scopes.len() - 2,
                        ScopeView {
                            lvar: copy_back(outer.lvar, inner.lvar),
                            propagated: outer.propagated,
                        },
                    ),
                    ..self
                },
            )
        } else {
            Err(ErrorTag::Unreachable)
        }
    }

    /// The class of an entry of the environment stack.
    pub open spec fn class_of_env(self, e: Env) -> Result<usize, ErrorTag> {
        match e {
            Env::ClassRef(c) => if self.classes.classes.contains_key(c.0) {
                Ok(c.0)
            } else {
                Err(ErrorTag::Unreachable)
            },
            Env::InstanceRef(i) => if self.instances.instances.contains_key(i.0)
                && self.classes.classes.contains_key(self.instances.instances[i.0].class_id) {
                Ok(self.instances.instances[i.0].class_id)
            } else {
                Err(ErrorTag::Unreachable)
            },
        }
    }

    /// The class that `self` is or belongs to.
    pub open spec fn env_class(self) -> Result<usize, ErrorTag> {
        if self.env.len() > 0 {
            self.class_of_env(self.env.last())
        } else {
            Err(ErrorTag::Unreachable)
        }
    }

    /// The state with the class `c` replaced.
    pub open spec fn with_class(self, c: usize, cv: ClassView) -> Machine {
        Machine {
            classes: ClassTableView {
                classes: self.classes.classes.insert(c, cv),
                class_id: self.classes.class_id,
            },
            ..self
        }
    }

    /// The state with the instance `i` replaced.
    pub open spec fn with_instance(self, i: usize, iv: InstanceView) -> Machine {
        Machine {
            instances: InstanceTableView {
                instances: self.instances.instances.insert(i, iv),
                instance_id: self.instances.instance_id,
            },
            ..self
        }
    }

    /// Whether every class that `sub` refers to exists.
    pub open spec fn parents_exist(self, sub: Map<usize, usize>) -> bool {
        forall|k: usize| #[trigger] sub.contains_key(k) ==> self.classes.classes.contains_key(sub[k])
    }

    /// Whether every subclass map refers to classes that exist.
    pub open spec fn linked(self) -> bool {
        forall|c: usize| #[trigger]
            self.classes.classes.contains_key(c) ==> self.parents_exist(
                self.classes.classes[c].subclass,
            )
    }

    /// Replacing a class by one whose subclass map refers to classes that
    /// exist keeps every subclass map in order.
    pub proof fn lemma_with_class_linked(self, c: usize, cv: ClassView)
        requires
            self.linked(),
            self.parents_exist(cv.subclass),
        ensures
            self.with_class(c, cv).linked(),
    {
        let after = self.with_class(c, cv);
        assert forall|d: usize| #[trigger] after.classes.classes.contains_key(d) implies after.parents_exist(
            after.classes.classes[d].subclass,
        ) by {
            let sub = after.classes.classes[d].subclass;
            if d != c {
                assert(self.classes.classes.contains_key(d));
                assert(self.parents_exist(sub));
            }
            assert forall|k: usize| #[trigger] sub.contains_key(k) implies after.classes.classes.contains_key(
                sub[k],
            ) by {
                assert(self.classes.classes.contains_key(sub[k]));
            }
        }
    }

    /// Whether the class that `sub` holds for the identifier `k` has the
    /// method `id`.
    pub open spec fn parent_has(self, sub: Map<usize, usize>, k: usize, id: usize) -> bool {
        sub.contains_key(k) && self.classes.classes[sub[k]].methods.contains_key(id)
    }

    /// The method `id` of the classes that `sub` refers to: where several
    /// of them have it, the one under the smallest identifier.
    pub open spec fn parent_method(self, sub: Map<usize, usize>, id: usize) -> Result<
        Option<MethodView>,
        ErrorTag,
    > {
        if !self.parents_exist(sub) {
            Err(ErrorTag::Unreachable)
        } else if exists|k: usize| self.parent_has(sub, k, id) {
            let k = choose|k: usize|
                self.parent_has(sub, k, id) && forall|j: usize|
                    self.parent_has(sub, j, id) ==> k <= j;
            Ok(Some(self.classes.classes[sub[k]].methods[id]))
        } else {
            Ok(None)
        }
    }

    /// Method resolution over the first `n` entries of the environment
    /// stack, innermost first: for each entry, the method table of its
    /// class, then those of the classes in its subclass map.
    pub open spec fn resolve_from(self, id: usize, n: nat) -> Result<MethodView, ErrorTag>
        decreases n,
    {
        if n == 0 || n > self.env.len() {
            Err(ErrorTag::NoMethod)
        } else {
            match self.class_of_env(self.env[n - 1]) {
                Err(e) => Err(e),
                Ok(c) => {
                    let cv = self.classes.classes[c];
                    if cv.methods.contains_key(id) {
                        Ok(cv.methods[id])
                    } else {
                        match self.parent_method(cv.subclass, id) {
                            Err(e) => Err(e),
                            Ok(Some(mv)) => Ok(mv),
                            Ok(None) => self.resolve_from(id, (n - 1) as nat),
                        }
                    }
                },
            }
        }
    }

    /// Method resolution.
    pub open spec fn resolve(self, id: usize) -> Result<MethodView, ErrorTag> {
        self.resolve_from(id, self.env.len())
    }

    /// The text of a value.
    pub open spec fn to_s(self, v: ValueView) -> Result<Seq<char>, ErrorTag> {
        match v {
            ValueView::Nil => Ok(Seq::empty()),
            ValueView::Bool(b) => Ok(if b { "true"@ } else { "false"@ }),
            ValueView::FixNum(n) => Ok(int_text(n as int)),
            ValueView::String(s) => Ok(s),
            ValueView::Class(c) => if self.classes.classes.contains_key(c) {
                Ok("#<"@ + self.classes.classes[c].name + ":ClassRef("@ + int_text(c as int) + ")>"@)
            } else {
                Err(ErrorTag::Unreachable)
            },
            ValueView::Instance(i) => if self.instances.instances.contains_key(i) {
                Ok(
                    "#<"@ + self.instances.instances[i].class_name + ":InstanceRef("@ + int_text(
                        i as int,
                    ) + ")>"@,
                )
            } else {
                Err(ErrorTag::Unreachable)
            },
            ValueView::SelfClass(c) => Ok(class_text(c)),
            ValueView::Array(items) => Ok(list_debug_text(items)),
            _ => Err(ErrorTag::Unimplemented),
        }
    }

    /// The texts of the first `n` of `args`, in order.
    pub open spec fn texts(self, args: Seq<ValueView>, n: nat) -> Result<Seq<Seq<char>>, ErrorTag>
        decreases n,
    {
        if n == 0 || n > args.len() {
            Ok(Seq::empty())
        } else {
            match self.texts(args, (n - 1) as nat) {
                Err(e) => Err(e),
                Ok(lines) => match self.to_s(args[n - 1]) {
                    Err(e) => Err(e),
                    Ok(line) => Ok(lines.push(line)),
                },
            }
        }
    }

    /// `puts`: the text of each argument becomes a line of the output.
    pub open spec fn puts(self, args: Seq<ValueView>) -> Result<Machine, ErrorTag> {
        match self.texts(args, args.len()) {
            Err(e) => Err(e),
            Ok(lines) => Ok(Machine { output: self.output + lines, ..self }),
        }
    }

    /// Creates a class named by the identifier `id`, with the builtin
    /// `new` as its only class method.
    pub open spec fn new_class(self, id: usize, ptr: usize) -> Outcome<usize> {
        if id >= self.idents.len() {
            Err(ErrorTag::Unimplemented)
        } else if self.classes.class_id == usize::MAX {
            Err(ErrorTag::Unreachable)
        } else {
            let c = self.classes.class_id;
            let cv = fresh_class(id, self.idents[id as int], ptr);
            let new_id = intern_id(self.idents, "new"@) as usize;
            Ok(
                (
                    Machine {
                        idents: intern(self.idents, "new"@),
                        classes: ClassTableView {
                            classes: self.classes.classes.insert(
                                c,
                                ClassView {
                                    class_methods: cv.class_methods.insert(
                                        new_id,
                                        MethodView::BuiltinFunc { name: "new"@, func: Builtin::New },
                                    ),
                                    ..cv
                                },
                            ),
                            class_id: (c + 1) as usize,
                        },
                        ..self
                    },
                    c,
                ),
            )
        }
    }

    /// Registers the builtin function `func` under `name` in the class `c`.
    pub open spec fn register(self, c: usize, name: Seq<char>, func: Builtin) -> Machine {
        let id = intern_id(self.idents, name) as usize;
        let m = Machine { idents: intern(self.idents, name), ..self };
        let cv = m.classes.classes[c];
        m.with_class(
            c,
            ClassView {
                methods: cv.methods.insert(id, MethodView::BuiltinFunc { name, func }),
                ..cv
            },
        )
    }

    /// Sets the machine up for a program whose identifiers are `idents`:
    /// the class `top` is created and becomes `self`, and the builtin
    /// functions are registered as its methods.
    pub open spec fn boot(self, idents: Seq<Seq<char>>) -> Result<Machine, ErrorTag> {
        let m0 = Machine { idents: intern(idents, "top"@), ..self };
        match m0.new_class(intern_id(idents, "top"@) as usize, 0) {
            Err(e) => Err(e),
            Ok((m1, c)) => Ok(
                Machine {
                    env: m1.env.push(Env::ClassRef(ClassRef(c))),
                    class_stack: m1.class_stack.push(c),
                    ..m1
                }.register(c, "puts"@, Builtin::Puts).register(c, "new"@, Builtin::New).register(
                    c,
                    "to_i"@,
                    Builtin::ToI,
                ).register(c, "to_s"@, Builtin::ToS).register(
                    c,
                    "assert"@,
                    Builtin::Assert,
                ).register(c, "class"@, Builtin::Class).register(
                    c,
                    "times"@,
                    Builtin::Times,
                ).register(c, "len"@, Builtin::Len).register(c, "each"@, Builtin::Each).register(
                    c,
                    "instance_variables"@,
                    Builtin::InstanceVariables,
                ),
            ),
        }
    }

    /// Creates an instance of the class `c`; its variables start as a copy
    /// of the class's defaults.
    pub open spec fn new_instance(self, c: usize) -> Outcome<usize> {
        if !self.classes.classes.contains_key(c) || self.instances.instance_id == usize::MAX {
            Err(ErrorTag::Unreachable)
        } else {
            let i = self.instances.instance_id;
            let cv = self.classes.classes[c];
            Ok(
                (
                    Machine {
                        instances: InstanceTableView {
                            instances: self.instances.instances.insert(
                                i,
                                InstanceView {
                                    class_id: c,
                                    class_name: cv.name,
                                    instance_var: cv.instance_var,
                                },
                            ),
                            instance_id: (i + 1) as usize,
                        },
                        ..self
                    },
                    i,
                ),
            )
        }
    }

    /// Makes the receiver of a call `self`, if it is a class or an
    /// instance; says whether it did.
    pub open spec fn push_env(self, receiver: ValueView) -> (Machine, bool) {
        match receiver {
            ValueView::Class(c) => (
                Machine { env: self.env.push(Env::ClassRef(ClassRef(c))), ..self },
                true,
            ),
            ValueView::Instance(i) => (
                Machine { env: self.env.push(Env::InstanceRef(InstanceRef(i))), ..self },
                true,
            ),
            _ => (self, false),
        }
    }

    /// Undoes `push_env`.
    pub open spec fn pop_env_if(self, pushed: bool) -> Result<Machine, ErrorTag> {
        if !pushed {
            Ok(self)
        } else if self.env.len() > 0 {
            Ok(Machine { env: self.env.drop_last(), ..self })
        } else {
            Err(ErrorTag::Unreachable)
        }
    }

    /// Reads the instance variable `id` of `self`.
    pub open spec fn instance_var(self, id: usize) -> Result<ValueView, ErrorTag> {
        if self.env.len() == 0 {
            Err(ErrorTag::Unreachable)
        } else {
            match self.env.last() {
                Env::InstanceRef(i) => if self.instances.instances.contains_key(i.0)
                    && self.instances.instances[i.0].instance_var.contains_key(id) {
                    Ok(self.instances.instances[i.0].instance_var[id])
                } else {
                    Err(ErrorTag::Unreachable)
                },
                Env::ClassRef(_) => Err(ErrorTag::Unimplemented),
            }
        }
    }

    /// Sets the instance variable `id` of `self`: of the instance, or, in a
    /// class body, the value that new instances start with.
    pub open spec fn set_instance_var(self, id: usize, v: ValueView) -> Result<Machine, ErrorTag> {
        if self.env.len() == 0 {
            Err(ErrorTag::Unreachable)
        } else {
            match self.env.last() {
                Env::InstanceRef(i) => if self.instances.instances.contains_key(i.0) {
                    let iv = self.instances.instances[i.0];
                    Ok(
                        self.with_instance(
                            i.0,
                            InstanceView { instance_var: iv.instance_var.insert(id, v), ..iv },
                        ),
                    )
                } else {
                    Err(ErrorTag::Unreachable)
                },
                Env::ClassRef(c) => if self.classes.classes.contains_key(c.0) {
                    let cv = self.classes.classes[c.0];
                    Ok(
                        self.with_class(
                            c.0,
                            ClassView { instance_var: cv.instance_var.insert(id, v), ..cv },
                        ),
                    )
                } else {
                    Err(ErrorTag::Unreachable)
                },
            }
        }
    }

    /// Reads the class variable `id` of the class that `self` is or
    /// belongs to.
    pub open spec fn class_var(self, id: usize) -> Result<ValueView, ErrorTag> {
        match self.env_class() {
            Err(e) => Err(e),
            Ok(c) => if self.classes.classes[c].class_var.contains_key(id) {
                Ok(self.classes.classes[c].class_var[id])
            } else {
                Err(ErrorTag::Unreachable)
            },
        }
    }

    /// Sets the class variable `id`. In a class body this creates the
    /// variable where it is new; through an instance, the variable must
    /// exist.
    pub open spec fn set_class_var(self, id: usize, v: ValueView) -> Result<Machine, ErrorTag> {
        match self.env_class() {
            Err(e) => Err(e),
            Ok(c) => {
                let cv = self.classes.classes[c];
                if self.env.last() is InstanceRef && !cv.class_var.contains_key(id) {
                    Err(ErrorTag::Unreachable)
                } else {
                    Ok(self.with_class(c, ClassView { class_var: cv.class_var.insert(id, v), ..cv }))
                }
            },
        }
    }

    /// Registers a method, without a body yet, in the class that `self`
    /// is or belongs to. The method keeps the variables of the scope it is
    /// defined in, with its parameters set to 0.
    pub open spec fn init_func(self, id: usize, params: Seq<usize>) -> Result<Machine, ErrorTag> {
        if self.scopes.len() == 0 {
            Err(ErrorTag::Unreachable)
        } else {
            match self.env_class() {
                Err(e) => Err(e),
                Ok(c) => {
                    let cv = self.classes.classes[c];
                    let outer = self.scopes.last().lvar;
                    let mv = MethodView::RubyFunc {
                        params,
                        ptr: 0,
                        scope: ScopeView { lvar: zero_params(outer, params, 0), propagated: outer },
                    };
                    Ok(self.with_class(c, ClassView { methods: cv.methods.insert(id, mv), ..cv }))
                },
            }
        }
    }

    /// Records the key of the compiled body of a method that `init_func`
    /// has registered.
    pub open spec fn func_decl(self, id: usize, ptr: usize) -> Result<Machine, ErrorTag> {
        match self.env_class() {
            Err(e) => Err(e),
            Ok(c) => {
                let cv = self.classes.classes[c];
                if !cv.methods.contains_key(id) {
                    Err(ErrorTag::Unreachable)
                } else {
                    match cv.methods[id] {
                        MethodView::RubyFunc { params, ptr: _, scope } => Ok(
                            self.with_class(
                                c,
                                ClassView {
                                    methods: cv.methods.insert(
                                        id,
                                        MethodView::RubyFunc { params, ptr, scope },
                                    ),
                                    ..cv
                                },
                            ),
                        ),
                        MethodView::BuiltinFunc { .. } => Err(ErrorTag::Unreachable),
                    }
                }
            },
        }
    }

    /// The handle of the class that was declared under the identifier `p`:
    /// the class that the constant `p` is bound to, where that class is
    /// registered. An unbound constant fails as an unknown name, and a
    /// constant that is bound to anything else fails for good.
    pub open spec fn parent_handle(self, p: usize) -> Result<usize, ErrorTag> {
        if !self.consts.contains_key(p) {
            Err(ErrorTag::Name)
        } else {
            match self.consts[p] {
                ValueView::Class(h) => if self.classes.classes.contains_key(h) {
                    Ok(h)
                } else {
                    Err(ErrorTag::Unreachable)
                },
                _ => Err(ErrorTag::Unreachable),
            }
        }
    }

    /// Creates the class that a class declaration names and binds its
    /// constant. A parent named by the identifier `p` is entered into the
    /// subclass map under `p`, with the handle of the class that was
    /// declared under `p` before; the declaration fails where there is no
    /// such class.
    pub open spec fn declare_class(self, id: usize, ptr: usize, parent: Option<usize>) -> Outcome<
        usize,
    > {
        match self.new_class(id, ptr) {
            Err(e) => Err(e),
            Ok((m, c)) => {
                let cv = m.classes.classes[c];
                match parent {
                    Some(p) => match self.parent_handle(p) {
                        Err(e) => Err(e),
                        Ok(h) => Ok(
                            (
                                Machine {
                                    consts: m.consts.insert(id, ValueView::Class(c)),
                                    ..m.with_class(
                                        c,
                                        ClassView { subclass: cv.subclass.insert(p, h), ..cv },
                                    )
                                },
                                c,
                            ),
                        ),
                    },
                    None => Ok((Machine { consts: m.consts.insert(id, ValueView::Class(c)), ..m }, c)),
                }
            },
        }
    }

    /// Enters the buffer `key`: a new frame at its start and a fresh
    /// operand stack.
    pub open spec fn enter(self, key: usize) -> Machine {
        Machine {
            stack_poses: self.stack_poses.push(0),
            iseq_poses: self.iseq_poses.push(key),
            exec_stack: self.exec_stack.push(Seq::empty()),
            ..self
        }
    }

    /// Leaves the current buffer with the value on top of its operand
    /// stack, and restores the frame and the operand stack from before.
    pub open spec fn leave(self) -> Outcome<ValueView> {
        if self.stack_poses.len() > 0 && self.iseq_poses.len() > 0 && self.exec_stack.len() > 0
            && self.exec_stack.last().len() > 0 {
            Ok(
                (
                    Machine {
                        stack_poses: self.stack_poses.drop_last(),
                        iseq_poses: self.iseq_poses.drop_last(),
                        exec_stack: self.exec_stack.drop_last(),
                        ..self
                    },
                    self.exec_stack.last().last(),
                ),
            )
        } else {
            Err(ErrorTag::Unreachable)
        }
    }

    /// Evaluates the buffer `key` and returns its result.
    pub open spec fn evaluate_body(self, key: usize, fuel: nat) -> Outcome<ValueView>
        decreases fuel, 0nat, 0nat, 0nat,
    {
        if fuel == 0 {
            Err(ErrorTag::Unreachable)
        } else {
            match self.enter(key).run((fuel - 1) as nat) {
                Err(e) => Err(e),
                Ok(m) => m.leave(),
            }
        }
    }

    /// Evaluates the body `ptr`; no body evaluates to nil.
    pub open spec fn eval_body_body(self, ptr: usize, fuel: nat) -> Outcome<ValueView>
        decreases fuel, 1nat, 0nat, 0nat,
    {
        if ptr == 0 {
            Ok((self, ValueView::Nil))
        } else {
            self.evaluate(ptr, fuel)
        }
    }

    /// One round of a block: in a scope of its own, with the block's
    /// parameter bound to `item`, the block's body is evaluated.
    pub open spec fn block_round_body(self, args: ArgsView, item: ValueView, fuel: nat) -> Result<
        Machine,
        ErrorTag,
    >
        decreases fuel, 2nat, 0nat, 0nat,
    {
        match self.enter_scope(
            match args.table {
                Some(id) => Some((id, item)),
                None => None,
            },
        ) {
            Err(e) => Err(e),
            Ok(m1) => match m1.eval_body(args.body, fuel) {
                Err(e) => Err(e),
                Ok((m2, _)) => m2.leave_scope(),
            },
        }
    }

    /// The rounds of `times` from `i` up to `n`.
    pub open spec fn times_from_body(self, args: ArgsView, i: int, n: int, fuel: nat) -> Result<
        Machine,
        ErrorTag,
    >
        decreases fuel, 3nat, n - i, 0nat,
    {
        if i >= n || i < 0 || i > i64::MAX {
            Ok(self)
        } else {
            match self.block_round(args, ValueView::FixNum(i as i64), fuel) {
                Err(e) => Err(e),
                Ok(m) => m.times_from(args, i + 1, n, fuel),
            }
        }
    }

    /// The rounds of `each` for the items from `i` on.
    pub open spec fn each_from_body(self, args: ArgsView, items: Seq<ValueView>, i: nat, fuel: nat) -> Result<
        Machine,
        ErrorTag,
    >
        decreases fuel, 3nat, items.len() - i, 0nat,
    {
        if i >= items.len() {
            Ok(self)
        } else {
            match self.block_round(args, items[i as int], fuel) {
                Err(e) => Err(e),
                Ok(m) => m.each_from(args, items, i + 1, fuel),
            }
        }
    }

    /// What a builtin function does and returns.
    pub open spec fn call_builtin_body(self, func: Builtin, receiver: ValueView, args: ArgsView, fuel: nat) -> Outcome<
        ValueView,
    >
        decreases fuel, 4nat, 0nat, 0nat,
    {
        match func {
            Builtin::Puts => match self.puts(args.args) {
                Err(e) => Err(e),
                Ok(m) => Ok((m, ValueView::Nil)),
            },
            Builtin::New => match receiver {
                ValueView::Class(c) => match self.new_instance(c) {
                    Err(e) => Err(e),
                    Ok((m, i)) => Ok((m, ValueView::Instance(i))),
                },
                _ => Err(ErrorTag::Unimplemented),
            },
            Builtin::ToI => match receiver {
                ValueView::String(s) => match parse_i64_spec(s) {
                    Some(n) => Ok((self, ValueView::FixNum(n))),
                    None => Err(ErrorTag::Unimplemented),
                },
                _ => Err(ErrorTag::Unimplemented),
            },
            Builtin::ToS => match self.to_s(receiver) {
                Err(e) => Err(e),
                Ok(s) => Ok((self, ValueView::String(s))),
            },
            Builtin::Assert => if args.args.len() != 2 {
                Err(ErrorTag::Unimplemented)
            } else if args.args[0] == args.args[1] {
                Ok((self, ValueView::Nil))
            } else {
                Err(ErrorTag::Unreachable)
            },
            Builtin::Class => match class_of(receiver) {
                Some(c) => Ok((self, ValueView::SelfClass(c))),
                None => Err(ErrorTag::Unimplemented),
            },
            Builtin::Times => match receiver {
                ValueView::FixNum(n) => match self.times_from(args, 0, n as int, fuel) {
                    Err(e) => Err(e),
                    Ok(m) => Ok((m, ValueView::Nil)),
                },
                _ => Err(ErrorTag::Unreachable),
            },
            Builtin::Len => match receiver {
                ValueView::Array(items) => match fixnum(items.len() as int) {
                    Err(e) => Err(e),
                    Ok(v) => Ok((self, v)),
                },
                _ => Err(ErrorTag::Unimplemented),
            },
            Builtin::Each => match receiver {
                ValueView::Array(items) => match self.each_from(args, items, 0, fuel) {
                    Err(e) => Err(e),
                    Ok(m) => Ok((m, ValueView::Nil)),
                },
                _ => Err(ErrorTag::Unreachable),
            },
            Builtin::InstanceVariables => match receiver {
                ValueView::Instance(i) => if !self.instances.instances.contains_key(i) {
                    Err(ErrorTag::Unreachable)
                } else {
                    let vars = self.instances.instances[i].instance_var;
                    if forall|k: usize| #[trigger] vars.contains_key(k) ==> k < self.idents.len() {
                        Ok((self, ValueView::Array(ivar_names(vars, self.idents, self.idents.len()))))
                    } else {
                        Err(ErrorTag::Unimplemented)
                    }
                },
                _ => Err(ErrorTag::Unreachable),
            },
        }
    }

    /// A call of the method `info` on `receiver`. A method of the program
    /// runs in a scope of its own, which starts with the variables of the
    /// caller's scope, with those that the method kept from its definition
    /// for the names that the caller's scope lacks, and with its parameters
    /// bound to the arguments; when it ends, the variables it shares with
    /// the caller's scope are copied back.
    pub open spec fn call_body(self, info: MethodView, receiver: ValueView, args: ArgsView, pushed: bool, fuel: nat) -> Outcome<
        ValueView,
    >
        decreases fuel, 5nat, 0nat, 0nat,
    {
        match info {
            MethodView::RubyFunc { params, ptr, scope } => {
                if self.scopes.len() == 0 {
                    Err(ErrorTag::Unreachable)
                } else if ptr == 0 {
                    Err(ErrorTag::Unimplemented)
                } else {
                    let entered = Machine {
                        scopes: self.scopes.push(
                            ScopeView {
                                lvar: bind_params(
                                    scope.lvar.union_prefer_right(self.scopes.last().lvar),
                                    params,
                                    args.args,
                                    0,
                                ),
                                propagated: self.scopes.last().lvar,
                            },
                        ),
                        ..self
                    };
                    match entered.evaluate(ptr, fuel) {
                        Err(e) => Err(e),
                        Ok((m1, v)) => match m1.leave_scope() {
                            Err(e) => Err(e),
                            Ok(m2) => match m2.pop_env_if(pushed) {
                                Err(e) => Err(e),
                                Ok(m3) => Ok((m3, v)),
                            },
                        },
                    }
                }
            },
            MethodView::BuiltinFunc { name: _, func } => match self.pop_env_if(pushed) {
                Err(e) => Err(e),
                Ok(m1) => m1.call_builtin(func, receiver, args, fuel),
            },
        }
    }

    /// `SEND`: takes the arguments, the block's body, the block's
    /// parameter, the method's name and the receiver off the operand
    /// stack, resolves the method with the receiver as `self`, calls it and
    /// pushes what it returns.
    pub open spec fn op_send_body(self, fuel: nat) -> Result<Machine, ErrorTag>
        decreases fuel, 6nat, 0nat, 0nat,
    {
        match self.pop_array() {
            Err(e) => Err(e),
            Ok((m1, args)) => match m1.pop_ptr() {
                Err(e) => Err(e),
                Ok((m2, body)) => match m2.pop() {
                    Err(e) => Err(e),
                    Ok((m3, t)) => match slot_option_ident(t) {
                        Err(e) => Err(e),
                        Ok(table) => match m3.pop_ident() {
                            Err(e) => Err(e),
                            Ok((m4, id)) => match m4.pop() {
                                Err(e) => Err(e),
                                Ok((m5, receiver)) => {
                                    let (m6, pushed) = m5.push_env(receiver);
                                    match m6.resolve(id) {
                                        Err(e) => Err(e),
                                        Ok(info) => match m6.call(
                                            info,
                                            receiver,
                                            ArgsView { body, args, table },
                                            pushed,
                                            fuel,
                                        ) {
                                            Err(e) => Err(e),
                                            Ok((m7, v)) => m7.push(v),
                                        },
                                    }
                                },
                            },
                        },
                    },
                },
            },
        }
    }

    /// `IF`: evaluates the condition and then the branch that it selects;
    /// the key of the other branch is dropped.
    pub open spec fn op_if_body(self, fuel: nat) -> Result<Machine, ErrorTag>
        decreases fuel, 6nat, 0nat, 0nat,
    {
        match self.pop_ptr() {
            Err(e) => Err(e),
            Ok((m1, cond_ptr)) => match m1.eval_body(cond_ptr, fuel) {
                Err(e) => Err(e),
                Ok((m2, cond)) => match truthy(cond) {
                    None => Err(ErrorTag::Unimplemented),
                    Some(true) => match m2.pop_ptr() {
                        Err(e) => Err(e),
                        Ok((m3, then_ptr)) => match m3.eval_body(then_ptr, fuel) {
                            Err(e) => Err(e),
                            Ok((m4, v)) => match m4.pop() {
                                Err(e) => Err(e),
                                Ok((m5, _)) => m5.push(v),
                            },
                        },
                    },
                    Some(false) => match m2.pop() {
                        Err(e) => Err(e),
                        Ok((m3, _)) => match m3.pop_ptr() {
                            Err(e) => Err(e),
                            Ok((m4, else_ptr)) => match m4.eval_body(else_ptr, fuel) {
                                Err(e) => Err(e),
                                Ok((m5, v)) => m5.push(v),
                            },
                        },
                    },
                },
            },
        }
    }

    /// `CLASS_DECL`: creates the class and evaluates its body with the
    /// class as `self`, in a scope of its own.
    pub open spec fn op_class_decl_body(self, fuel: nat) -> Result<Machine, ErrorTag>
        decreases fuel, 6nat, 0nat, 0nat,
    {
        match self.pop() {
            Err(e) => Err(e),
            Ok((m1, p)) => match slot_option_ident(p) {
                Err(e) => Err(e),
                Ok(parent) => match m1.pop_ptr() {
                    Err(e) => Err(e),
                    Ok((m2, ptr)) => match m2.pop_ident() {
                        Err(e) => Err(e),
                        Ok((m3, id)) => match m3.declare_class(id, ptr, parent) {
                            Err(e) => Err(e),
                            Ok((m4, c)) => match m4.enter_scope(None) {
                                Err(e) => Err(e),
                                Ok(m5) => {
                                    let m6 = Machine {
                                        class_stack: m5.class_stack.push(c),
                                        env: m5.env.push(Env::ClassRef(ClassRef(c))),
                                        ..m5
                                    };
                                    match m6.eval_body(ptr, fuel) {
                                        Err(e) => Err(e),
                                        Ok((m7, _)) => if m7.env.len() == 0 || m7.class_stack.len()
                                            == 0 {
                                            Err(ErrorTag::Unreachable)
                                        } else {
                                            Machine {
                                                class_stack: m7.class_stack.drop_last(),
                                                env: m7.env.drop_last(),
                                                ..m7
                                            }.leave_scope()
                                        },
                                    }
                                },
                            },
                        },
                    },
                },
            },
        }
    }

    /// The instructions that push a literal or `self`.
    #[verifier::opaque]
    pub open spec fn op_push(self, op: u8) -> Result<Machine, ErrorTag> {
        if op == Inst::NIL {
            self.advance(1).push(ValueView::Nil)
        } else if op == Inst::SELF_VALUE {
            if self.class_stack.len() > 0 {
                self.advance(1).push(ValueView::Class(self.class_stack.last()))
            } else {
                Err(ErrorTag::Unreachable)
            }
        } else if op == Inst::FIXNUM || op == Inst::TABLE_IDENT {
            match self.operand() {
                Err(e) => Err(e),
                Ok((m1, u)) => m1.push(ValueView::FixNum(signed_of(u))),
            }
        } else if op == Inst::DECIMALNUM {
            match self.operand() {
                Err(e) => Err(e),
                Ok((m1, u)) => m1.push(ValueView::FixDecimalNum(u)),
            }
        } else {
            match self.advance(1).pop_ident() {
                Err(e) => Err(e),
                Ok((m1, id)) => if id < m1.literals.len() {
                    m1.push(ValueView::String(m1.literals[id as int]))
                } else {
                    Err(ErrorTag::Unimplemented)
                },
            }
        }
    }

    /// The binary operators: the operands are taken off the operand
    /// stack, the right one first, and the result is pushed.
    #[verifier::opaque]
    pub open spec fn op_binary(self, op: u8) -> Result<Machine, ErrorTag> {
        match self.advance(1).pop() {
            Err(e) => Err(e),
            Ok((m1, rhs)) => match m1.pop() {
                Err(e) => Err(e),
                Ok((m2, lhs)) => match binop(op, lhs, rhs) {
                    Err(e) => Err(e),
                    Ok(v) => m2.push(v),
                },
            },
        }
    }

    /// `ARRAY` and `ARRAY_INDEX`.
    #[verifier::opaque]
    pub open spec fn op_array(self, op: u8) -> Result<Machine, ErrorTag> {
        if op == Inst::ARRAY {
            match self.advance(1).pop_array() {
                Err(e) => Err(e),
                Ok((m1, items)) => m1.push(ValueView::Array(items)),
            }
        } else {
            match self.advance(1).pop() {
                Err(e) => Err(e),
                Ok((m1, i)) => match slot_ptr(i) {
                    Err(e) => Err(e),
                    Ok(idx) => match m1.pop() {
                        Err(e) => Err(e),
                        Ok((m2, arr)) => match arr {
                            ValueView::Array(items) => if idx < items.len() {
                                m2.push(items[idx as int])
                            } else {
                                Err(ErrorTag::Unreachable)
                            },
                            _ => Err(ErrorTag::Unreachable),
                        },
                    },
                },
            }
        }
    }

    /// `INIT_FUNC` and `FUNC_DECL`.
    #[verifier::opaque]
    pub open spec fn op_def(self, op: u8) -> Result<Machine, ErrorTag> {
        if op == Inst::INIT_FUNC {
            match self.advance(1).pop_array() {
                Err(e) => Err(e),
                Ok((m1, ps)) => match slot_idents(ps) {
                    Err(e) => Err(e),
                    Ok(params) => match m1.pop_ident() {
                        Err(e) => Err(e),
                        Ok((m2, id)) => m2.init_func(id, params),
                    },
                },
            }
        } else {
            match self.advance(1).pop_ptr() {
                Err(e) => Err(e),
                Ok((m1, ptr)) => match m1.pop_ident() {
                    Err(e) => Err(e),
                    Ok((m2, id)) => m2.func_decl(id, ptr),
                },
            }
        }
    }

    /// The instructions that read a variable or a constant.
    #[verifier::opaque]
    pub open spec fn op_read(self, op: u8) -> Result<Machine, ErrorTag> {
        match self.operand() {
            Err(e) => Err(e),
            Ok((m1, u)) => {
                let id = word_of(signed_of(u));
                if op == Inst::IDENT {
                    if m1.scopes.len() == 0 {
                        Err(ErrorTag::Unreachable)
                    } else if m1.scopes.last().lvar.contains_key(id) {
                        m1.push(m1.scopes.last().lvar[id])
                    } else {
                        Err(ErrorTag::Name)
                    }
                } else if op == Inst::CONST {
                    if m1.consts.contains_key(id) {
                        m1.push(m1.consts[id])
                    } else {
                        Err(ErrorTag::Name)
                    }
                } else if op == Inst::INSTANCE_VAR {
                    match m1.instance_var(id) {
                        Err(e) => Err(e),
                        Ok(v) => m1.push(v),
                    }
                } else {
                    match m1.class_var(id) {
                        Err(e) => Err(e),
                        Ok(v) => m1.push(v),
                    }
                }
            },
        }
    }

    /// The assignments: the identifier and then the value are taken off
    /// the operand stack, the variable is set, and the value is pushed
    /// back.
    #[verifier::opaque]
    pub open spec fn op_assign(self, op: u8) -> Result<Machine, ErrorTag> {
        match self.advance(1).pop_ident() {
            Err(e) => Err(e),
            Ok((m1, id)) => match m1.pop() {
                Err(e) => Err(e),
                Ok((m2, rhs)) => match (if op == Inst::IDENT_ASSIGN {
                    m2.set_local(id, rhs)
                } else if op == Inst::INSTANCE_VAR_ASSIGN {
                    m2.set_instance_var(id, rhs)
                } else {
                    m2.set_class_var(id, rhs)
                }) {
                    Err(e) => Err(e),
                    Ok(m3) => m3.push(rhs),
                },
            },
        }
    }

    /// The instructions that neither end a buffer nor evaluate another.
    pub open spec fn simple_op(self, op: u8) -> Result<Machine, ErrorTag> {
        if op == Inst::NIL || op == Inst::SELF_VALUE || op == Inst::FIXNUM || op
            == Inst::TABLE_IDENT || op == Inst::DECIMALNUM || op == Inst::STRING {
            self.op_push(op)
        } else if is_binop(op) {
            self.op_binary(op)
        } else if op == Inst::ARRAY || op == Inst::ARRAY_INDEX {
            self.op_array(op)
        } else if op == Inst::INIT_FUNC || op == Inst::FUNC_DECL {
            self.op_def(op)
        } else if op == Inst::IDENT || op == Inst::CONST || op == Inst::INSTANCE_VAR || op
            == Inst::CLASS_VAR {
            self.op_read(op)
        } else if op == Inst::IDENT_ASSIGN || op == Inst::INSTANCE_VAR_ASSIGN || op
            == Inst::CLASS_VAR_ASSIGN {
            self.op_assign(op)
        } else {
            Err(ErrorTag::Unimplemented)
        }
    }

    /// `END`: a buffer that produced no value yields nil.
    pub open spec fn op_end(self) -> Result<Machine, ErrorTag> {
        if self.exec_stack.len() > 0 && self.exec_stack.last().len() == 0 {
            self.advance(1).push(ValueView::Nil)
        } else if self.exec_stack.len() > 0 {
            Ok(self.advance(1))
        } else {
            Err(ErrorTag::Unreachable)
        }
    }

    /// Carries out the instruction under the cursor; says whether it
    /// ended the buffer.
    pub open spec fn step_body(self, fuel: nat) -> Outcome<bool>
        decreases fuel, 7nat, 0nat, 0nat,
    {
        match self.fetch() {
            Err(e) => Err(e),
            Ok(op) => if op == Inst::END {
                match self.op_end() {
                    Err(e) => Err(e),
                    Ok(m) => Ok((m, true)),
                }
            } else if op == Inst::SEND {
                match self.advance(1).op_send(fuel) {
                    Err(e) => Err(e),
                    Ok(m) => Ok((m, false)),
                }
            } else if op == Inst::IF {
                match self.advance(1).op_if(fuel) {
                    Err(e) => Err(e),
                    Ok(m) => Ok((m, false)),
                }
            } else if op == Inst::CLASS_DECL {
                match self.advance(1).op_class_decl(fuel) {
                    Err(e) => Err(e),
                    Ok(m) => Ok((m, false)),
                }
            } else {
                match self.simple_op(op) {
                    Err(e) => Err(e),
                    Ok(m) => Ok((m, false)),
                }
            },
        }
    }

    /// Carries out the instructions of the current buffer from the cursor
    /// on, up to and including the one that ends it.
    pub open spec fn run_body(self, fuel: nat) -> Result<Machine, ErrorTag>
        decreases fuel, 8nat, 0nat, 0nat,
    {
        if fuel == 0 {
            Err(ErrorTag::Unreachable)
        } else {
            match self.step((fuel - 1) as nat) {
                Err(e) => Err(e),
                Ok((m, true)) => Ok(m),
                Ok((m, false)) => m.run((fuel - 1) as nat),
            }
        }
    }
}

impl Machine {
    /// `evaluate_body`, under a name that is unfolded only on demand.
    #[verifier::opaque]
    pub open spec fn evaluate(self, key: usize, fuel: nat) -> Outcome<ValueView>
        decreases fuel, 0nat, 0nat, 1nat,
    {
        self.evaluate_body(key, fuel)
    }

    /// `eval_body_body`, under a name that is unfolded only on demand.
    #[verifier::opaque]
    pub open spec fn eval_body(self, ptr: usize, fuel: nat) -> Outcome<ValueView>
        decreases fuel, 1nat, 0nat, 1nat,
    {
        self.eval_body_body(ptr, fuel)
    }

    /// `block_round_body`, under a name that is unfolded only on demand.
    #[verifier::opaque]
    pub open spec fn block_round(self, args: ArgsView, item: ValueView, fuel: nat) -> Result<Machine, ErrorTag>
        decreases fuel, 2nat, 0nat, 1nat,
    {
        self.block_round_body(args, item, fuel)
    }

    /// `times_from_body`, under a name that is unfolded only on demand.
    #[verifier::opaque]
    pub open spec fn times_from(self, args: ArgsView, i: int, n: int, fuel: nat) -> Result<Machine, ErrorTag>
        decreases fuel, 3nat, n - i, 1nat,
    {
        self.times_from_body(args, i, n, fuel)
    }

    /// `each_from_body`, under a name that is unfolded only on demand.
    #[verifier::opaque]
    pub open spec fn each_from(self, args: ArgsView, items: Seq<ValueView>, i: nat, fuel: nat) -> Result<Machine, ErrorTag>
        decreases fuel, 3nat, items.len() - i, 1nat,
    {
        self.each_from_body(args, items, i, fuel)
    }

    /// `call_builtin_body`, under a name that is unfolded only on demand.
    #[verifier::opaque]
    pub open spec fn call_builtin(self, func: Builtin, receiver: ValueView, args: ArgsView, fuel: nat) -> Outcome<ValueView>
        decreases fuel, 4nat, 0nat, 1nat,
    {
        self.call_builtin_body(func, receiver, args, fuel)
    }

    /// `call_body`, under a name that is unfolded only on demand.
    #[verifier::opaque]
    pub open spec fn call(self, info: MethodView, receiver: ValueView, args: ArgsView, pushed: bool, fuel: nat) -> Outcome<ValueView>
        decreases fuel, 5nat, 0nat, 1nat,
    {
        self.call_body(info, receiver, args, pushed, fuel)
    }

    /// `op_send_body`, under a name that is unfolded only on demand.
    #[verifier::opaque]
    pub open spec fn op_send(self, fuel: nat) -> Result<Machine, ErrorTag>
        decreases fuel, 6nat, 0nat, 1nat,
    {
        self.op_send_body(fuel)
    }

    /// `op_if_body`, under a name that is unfolded only on demand.
    #[verifier::opaque]
    pub open spec fn op_if(self, fuel: nat) -> Result<Machine, ErrorTag>
        decreases fuel, 6nat, 0nat, 1nat,
    {
        self.op_if_body(fuel)
    }

    /// `op_class_decl_body`, under a name that is unfolded only on demand.
    #[verifier::opaque]
    pub open spec fn op_class_decl(self, fuel: nat) -> Result<Machine, ErrorTag>
        decreases fuel, 6nat, 0nat, 1nat,
    {
        self.op_class_decl_body(fuel)
    }

    /// `step_body`, under a name that is unfolded only on demand.
    #[verifier::opaque]
    pub open spec fn step(self, fuel: nat) -> Outcome<bool>
        decreases fuel, 7nat, 0nat, 1nat,
    {
        self.step_body(fuel)
    }

    /// `run_body`, under a name that is unfolded only on demand.
    #[verifier::opaque]
    pub open spec fn run(self, fuel: nat) -> Result<Machine, ErrorTag>
        decreases fuel, 8nat, 0nat, 1nat,
    {
        self.run_body(fuel)
    }
}

/// What `evaluate` is.
pub proof fn lemma_evaluate(m: Machine, key: usize, fuel: nat)
    ensures
        m.evaluate(key, fuel) == m.evaluate_body(key, fuel),
{
    reveal(Machine::evaluate);
}

/// What `eval_body` is.
pub proof fn lemma_eval_body(m: Machine, ptr: usize, fuel: nat)
    ensures
        m.eval_body(ptr, fuel) == m.eval_body_body(ptr, fuel),
{
    reveal(Machine::eval_body);
}

/// What `block_round` is.
pub proof fn lemma_block_round(m: Machine, args: ArgsView, item: ValueView, fuel: nat)
    ensures
        m.block_round(args, item, fuel) == m.block_round_body(args, item, fuel),
{
    reveal(Machine::block_round);
}

/// What `times_from` is.
pub proof fn lemma_times_from(m: Machine, args: ArgsView, i: int, n: int, fuel: nat)
    ensures
        m.times_from(args, i, n, fuel) == m.times_from_body(args, i, n, fuel),
{
    reveal(Machine::times_from);
}

/// What `each_from` is.
pub proof fn lemma_each_from(m: Machine, args: ArgsView, items: Seq<ValueView>, i: nat, fuel: nat)
    ensures
        m.each_from(args, items, i, fuel) == m.each_from_body(args, items, i, fuel),
{
    reveal(Machine::each_from);
}

/// What `call_builtin` is.
pub proof fn lemma_call_builtin(m: Machine, func: Builtin, receiver: ValueView, args: ArgsView, fuel: nat)
    ensures
        m.call_builtin(func, receiver, args, fuel) == m.call_builtin_body(func, receiver, args, fuel),
{
    reveal(Machine::call_builtin);
}

/// What `call` is.
pub proof fn lemma_call(m: Machine, info: MethodView, receiver: ValueView, args: ArgsView, pushed: bool, fuel: nat)
    ensures
        m.call(info, receiver, args, pushed, fuel) == m.call_body(info, receiver, args, pushed, fuel),
{
    reveal(Machine::call);
}

/// What `op_send` is.
pub proof fn lemma_op_send(m: Machine, fuel: nat)
    ensures
        m.op_send(fuel) == m.op_send_body(fuel),
{
    reveal(Machine::op_send);
}

/// What `op_if` is.
pub proof fn lemma_op_if(m: Machine, fuel: nat)
    ensures
        m.op_if(fuel) == m.op_if_body(fuel),
{
    reveal(Machine::op_if);
}

/// What `op_class_decl` is.
pub proof fn lemma_op_class_decl(m: Machine, fuel: nat)
    ensures
        m.op_class_decl(fuel) == m.op_class_decl_body(fuel),
{
    reveal(Machine::op_class_decl);
}

/// What `step` is.
pub proof fn lemma_step(m: Machine, fuel: nat)
    ensures
        m.step(fuel) == m.step_body(fuel),
{
    reveal(Machine::step);
}

/// What `run` is.
pub proof fn lemma_run(m: Machine, fuel: nat)
    ensures
        m.run(fuel) == m.run_body(fuel),
{
    reveal(Machine::run);
}

} // verus!
