//! Evaluation: the instructions, the calls and the loop that carries them
//! out.
//!
//! The functions that evaluate a buffer take a budget; see the module
//! `machine`.

use crate::class::ClassRef;
use crate::engine::{option_ident_of, ptr_of};
use crate::inst::{to_signed, Inst};
use crate::machine::{bind_params, Env, ErrorTag, Machine};
use crate::objects::args_view;
use crate::table::{Builtin, LocalScope, MethodInfo, ValueTable};
use crate::util::IdentId;
use crate::value::{clone_value, to_word, value_eq, values_view, Value, ValueView};
use crate::vm::{eval_binop, fail, ok_flag, ok_state, ok_value, Args, EvalResult, RuntimeError, VM};
use vstd::prelude::*;

verus! {

/// Binds the parameters to the arguments at their positions, or to nil
/// where the arguments run out.
pub fn bind_args(lvar: &mut ValueTable, params: &Vec<IdentId>, args: &Vec<Value>)
    ensures
        final(lvar)@ == bind_params(
            old(lvar)@,
            crate::table::ids_view(params@),
            values_view(args@),
            0,
        ),
{
    let ghost ids = crate::table::ids_view(params@);
    let ghost vals = values_view(args@);
    proof {
        crate::value::lemma_values_view(args@);
    }
    let mut i: usize = 0;
    while i < params.len()
        invariant
            i <= params.len(),
            ids == crate::table::ids_view(params@),
            vals == values_view(args@),
            vals.len() == args@.len(),
            forall|j: int| 0 <= j < vals.len() ==> #[trigger] vals[j] == args@[j]@,
            bind_params(lvar@, ids, vals, i as nat) == bind_params(old(lvar)@, ids, vals, 0),
        decreases params.len() - i,
    {
        let v = if i < args.len() {
            clone_value(&args[i])
        } else {
            Value::Nil
        };
        lvar.insert(params[i].0, v);
        i += 1;
    }
}

impl VM {
    /// The instructions that push a literal or `self`.
    pub fn op_push(&mut self, op: u8) -> (r: Result<(), RuntimeError>)
        requires
            old(self).stack.stack_poses@.len() > 0,
            old(self)@.pos() < usize::MAX,
            op == Inst::NIL || op == Inst::SELF_VALUE || op == Inst::FIXNUM || op
                == Inst::TABLE_IDENT || op == Inst::DECIMALNUM || op == Inst::STRING,
        ensures
            ok_state(old(self)@.op_push(op), r, final(self)@),
            old(self).wf() ==> final(self).wf(),
    {
        reveal(Machine::op_push);
        if op == Inst::NIL {
            self.plus_stack_pos(1);
            self.push_value(Value::Nil)
        } else if op == Inst::SELF_VALUE {
            let n: usize = self.class_stack.len();
            if n == 0 {
                return fail(ErrorTag::Unreachable, "the class stack is empty");
            }
            let class = self.class_stack[n - 1];
            self.plus_stack_pos(1);
            self.push_value(Value::Class(class))
        } else if op == Inst::FIXNUM || op == Inst::TABLE_IDENT {
            let u = self.operand()?;
            self.push_value(Value::FixNum(to_signed(u)))
        } else if op == Inst::DECIMALNUM {
            let u = self.operand()?;
            self.push_value(Value::FixDecimalNum(u))
        } else {
            self.plus_stack_pos(1);
            let id = self.pop_ident()?;
            if !self.stack.ident_table.has_id(IdentId(id)) {
                return fail(ErrorTag::Unimplemented, "no such string literal");
            }
            let name: String = self.stack.ident_table.get_name(IdentId(id)).clone();
            self.push_value(Value::String(name))
        }
    }

    /// The binary operators: the operands are taken off the operand
    /// stack, the right one first, and the result is pushed.
    pub fn op_binary(&mut self, op: u8) -> (r: Result<(), RuntimeError>)
        requires
            old(self).stack.stack_poses@.len() > 0,
            old(self)@.pos() < usize::MAX,
        ensures
            ok_state(old(self)@.op_binary(op), r, final(self)@),
            old(self).wf() ==> final(self).wf(),
    {
        reveal(Machine::op_binary);
        self.plus_stack_pos(1);
        let rhs = self.pop_checked()?;
        let lhs = self.pop_checked()?;
        let val = eval_binop(op, &lhs, &rhs)?;
        self.push_value(val)
    }

    /// `ARRAY` and `ARRAY_INDEX`.
    pub fn op_array(&mut self, op: u8) -> (r: Result<(), RuntimeError>)
        requires
            old(self).stack.stack_poses@.len() > 0,
            old(self)@.pos() < usize::MAX,
            op == Inst::ARRAY || op == Inst::ARRAY_INDEX,
        ensures
            ok_state(old(self)@.op_array(op), r, final(self)@),
            old(self).wf() ==> final(self).wf(),
    {
        reveal(Machine::op_array);
        self.plus_stack_pos(1);
        if op == Inst::ARRAY {
            let arr = self.pop_array()?;
            self.push_value(Value::Array(arr))
        } else {
            let i = self.pop_checked()?;
            let idx = ptr_of(&i)?;
            match self.pop_checked()? {
                Value::Array(items) => {
                    proof {
                        crate::value::lemma_values_view(items@);
                    }
                    if idx < items.len() {
                        let val = clone_value(&items[idx]);
                        self.push_value(val)
                    } else {
                        fail(ErrorTag::Unreachable, "the index is out of range")
                    }
                },
                _ => fail(ErrorTag::Unreachable, "only an array can be indexed"),
            }
        }
    }

    /// `INIT_FUNC` and `FUNC_DECL`.
    pub fn op_def(&mut self, op: u8) -> (r: Result<(), RuntimeError>)
        requires
            old(self).stack.stack_poses@.len() > 0,
            old(self)@.pos() < usize::MAX,
            op == Inst::INIT_FUNC || op == Inst::FUNC_DECL,
        ensures
            ok_state(old(self)@.op_def(op), r, final(self)@),
            old(self).wf() ==> final(self).wf(),
    {
        reveal(Machine::op_def);
        self.plus_stack_pos(1);
        if op == Inst::INIT_FUNC {
            let slots = self.pop_array()?;
            let params = crate::engine::idents_of(&slots)?;
            let id = self.pop_ident()?;
            self.init_func(id, params)
        } else {
            let ptr = self.pop_ptr()?;
            let id = self.pop_ident()?;
            self.func_decl(id, ptr)
        }
    }

    /// The instructions that read a variable or a constant.
    pub fn op_read(&mut self, op: u8) -> (r: Result<(), RuntimeError>)
        requires
            op == Inst::IDENT || op == Inst::CONST || op == Inst::INSTANCE_VAR || op
                == Inst::CLASS_VAR,
        ensures
            ok_state(old(self)@.op_read(op), r, final(self)@),
            old(self).wf() ==> final(self).wf(),
    {
        reveal(Machine::op_read);
        let u = self.operand()?;
        let id = to_word(to_signed(u));
        if op == Inst::IDENT {
            if self.scope_stack.len() == 0 {
                return fail(ErrorTag::Unreachable, "no scope");
            }
            match self.get_local(id) {
                Some(val) => self.push_value(val),
                None => fail(ErrorTag::Name, "undefined local variable."),
            }
        } else if op == Inst::CONST {
            match self.const_table.get(id) {
                Some(val) => self.push_value(val),
                None => fail(ErrorTag::Name, "uninitialized constant."),
            }
        } else if op == Inst::INSTANCE_VAR {
            let val = self.instance_var(id)?;
            self.push_value(val)
        } else {
            let val = self.class_var(id)?;
            self.push_value(val)
        }
    }

    /// The assignments: the identifier and then the value are taken off
    /// the operand stack, the variable is set, and the value is pushed
    /// back.
    pub fn op_assign(&mut self, op: u8) -> (r: Result<(), RuntimeError>)
        requires
            old(self).stack.stack_poses@.len() > 0,
            old(self)@.pos() < usize::MAX,
            op == Inst::IDENT_ASSIGN || op == Inst::INSTANCE_VAR_ASSIGN || op
                == Inst::CLASS_VAR_ASSIGN,
        ensures
            ok_state(old(self)@.op_assign(op), r, final(self)@),
            old(self).wf() ==> final(self).wf(),
    {
        reveal(Machine::op_assign);
        self.plus_stack_pos(1);
        let id = self.pop_ident()?;
        let rhs = self.pop_checked()?;
        let copy = clone_value(&rhs);
        if op == Inst::IDENT_ASSIGN {
            self.set_local(id, copy)?;
        } else if op == Inst::INSTANCE_VAR_ASSIGN {
            self.set_instance_var(id, copy)?;
        } else {
            self.set_class_var(id, copy)?;
        }
        self.push_value(rhs)
    }

    /// The instructions that neither end a buffer nor evaluate another.
    pub fn simple_op(&mut self, op: u8) -> (r: Result<(), RuntimeError>)
        requires
            old(self).stack.stack_poses@.len() > 0,
            old(self)@.pos() < usize::MAX,
        ensures
            ok_state(old(self)@.simple_op(op), r, final(self)@),
            old(self).wf() ==> final(self).wf(),
    {
        if op == Inst::NIL || op == Inst::SELF_VALUE || op == Inst::FIXNUM || op
            == Inst::TABLE_IDENT || op == Inst::DECIMALNUM || op == Inst::STRING {
            self.op_push(op)
        } else if op >= Inst::ADD && op <= Inst::LOR {
            self.op_binary(op)
        } else if op == Inst::ARRAY || op == Inst::ARRAY_INDEX {
            self.op_array(op)
        } else if op == Inst::INIT_FUNC || op == Inst::FUNC_DECL {
            self.op_def(op)
        } else if op == Inst::IDENT || op == Inst::CONST || op == Inst::INSTANCE_VAR || op
            == Inst::CLASS_VAR {
            self.op_read(op)
        } else if op == Inst::IDENT_ASSIGN || op == Inst::INSTANCE_VAR_ASSIGN || op
            == Inst::CLASS_VAR_ASSIGN {
            self.op_assign(op)
        } else {
            fail(ErrorTag::Unimplemented, "no such instruction")
        }
    }

    /// `END`: a buffer that produced no value yields nil.
    pub fn op_end(&mut self) -> (r: Result<(), RuntimeError>)
        requires
            old(self).stack.stack_poses@.len() > 0,
            old(self)@.pos() < usize::MAX,
        ensures
            ok_state(old(self)@.op_end(), r, final(self)@),
            old(self).wf() ==> final(self).wf(),
    {
        let n: usize = self.stack.exec_stack.len();
        if n == 0 {
            return fail(ErrorTag::Unreachable, "no operand stack");
        }
        proof {
            crate::value::lemma_values_view(self.stack.exec_stack@.last()@);
        }
        let empty: bool = self.stack.exec_stack[n - 1].len() == 0;
        self.plus_stack_pos(1);
        if empty {
            self.push_value(Value::Nil)
        } else {
            Ok(())
        }
    }

    /// Leaves the current buffer with the value on top of its operand
    /// stack, and restores the frame and the operand stack from before.
    pub fn leave(&mut self) -> (r: EvalResult)
        ensures
            ok_value(old(self)@.leave(), r, final(self)@),
            old(self).wf() ==> final(self).wf(),
    {
        if self.stack.stack_poses.len() == 0 || self.stack.iseq_poses.len() == 0 {
            return fail(ErrorTag::Unreachable, "no frame");
        }
        match self.stack.exec_stack.pop() {
            None => fail(ErrorTag::Unreachable, "no operand stack"),
            Some(mut top) => {
                proof {
                    crate::value::lemma_values_view(top@);
                }
                match top.pop() {
                    None => fail(ErrorTag::Unreachable, "the buffer left no value"),
                    Some(v) => {
                        self.stack.stack_poses.pop();
                        self.stack.iseq_poses.pop();
                        assert(self@.exec_stack =~= old(self)@.exec_stack.drop_last());
                        Ok(v)
                    },
                }
            },
        }
    }

    /// Evaluates the buffer `key` and returns its result.
    pub fn evaluate(&mut self, key: usize, fuel: u64) -> (r: EvalResult)
        requires
            old(self).wf(),
        ensures
            ok_value(old(self)@.evaluate(key, fuel as nat), r, final(self)@),
            final(self).wf(),
        decreases fuel, 0nat, 0nat,
    {
        proof {
            crate::machine::lemma_evaluate(old(self)@, key, fuel as nat);
        }
        if fuel == 0 {
            return fail(ErrorTag::Unreachable, "the evaluation is nested too deeply");
        }
        self.stack.stack_poses.push(0);
        self.stack.iseq_poses.push(key);
        let fresh: Vec<Value> = Vec::new();
        proof {
            crate::value::lemma_values_view(fresh@);
            assert(values_view(fresh@) =~= Seq::<ValueView>::empty());
        }
        self.stack.exec_stack.push(fresh);
        proof {
            assert(self@.exec_stack =~= old(self)@.enter(key).exec_stack);
        }
        self.eval_seq_within(fuel - 1)?;
        self.leave()
    }

    /// Evaluates the body `ptr`; no body evaluates to nil.
    pub fn eval_body_with(&mut self, ptr: usize, fuel: u64) -> (r: EvalResult)
        requires
            old(self).wf(),
        ensures
            ok_value(old(self)@.eval_body(ptr, fuel as nat), r, final(self)@),
            final(self).wf(),
        decreases fuel, 1nat, 0nat,
    {
        proof {
            crate::machine::lemma_eval_body(old(self)@, ptr, fuel as nat);
        }
        if ptr == 0 {
            Ok(Value::Nil)
        } else {
            self.evaluate(ptr, fuel)
        }
    }

    /// One round of a block: in a scope of its own, with the block's
    /// parameter bound to `item`, the block's body is evaluated.
    pub fn block_round(&mut self, args: &Args, item: Value, fuel: u64) -> (r: Result<
        (),
        RuntimeError,
    >)
        requires
            old(self).wf(),
        ensures
            ok_state(
                old(self)@.block_round(args_view(args), item@, fuel as nat),
                r,
                final(self)@,
            ),
            final(self).wf(),
        decreases fuel, 2nat, 0nat,
    {
        proof {
            crate::machine::lemma_block_round(old(self)@, args_view(args), item@, fuel as nat);
        }
        let bound = match args.table {
            Some(id) => Some((id.0, item)),
            None => None,
        };
        self.enter_scope(bound)?;
        self.eval_body_with(args.body, fuel)?;
        self.leave_scope()
    }

    /// `times` within a budget.
    #[verifier::loop_isolation(false)]
    pub fn times_within(&mut self, receiver: Value, args: Args, fuel: u64) -> (r: EvalResult)
        requires
            old(self).wf(),
        ensures
            ok_value(
                old(self)@.call_builtin(Builtin::Times, receiver@, args_view(&args), fuel as nat),
                r,
                final(self)@,
            ),
            final(self).wf(),
        decreases fuel, 3nat, 0nat,
    {
        proof {
            crate::machine::lemma_call_builtin(
                old(self)@,
                Builtin::Times,
                receiver@,
                args_view(&args),
                fuel as nat,
            );
        }
        match receiver {
            Value::FixNum(n) => {
                let ghost m0 = self@;
                let ghost av = args_view(&args);
                let mut i: i64 = 0;
                while i < n
                    invariant
                        0 <= i,
                        i <= n || n < 0,
                        self.wf(),
                        av == args_view(&args),
                        m0.times_from(av, 0, n as int, fuel as nat) == self@.times_from(
                            av,
                            i as int,
                            n as int,
                            fuel as nat,
                        ),
                    decreases n - i,
                {
                    proof {
                        crate::machine::lemma_times_from(self@, av, i as int, n as int, fuel as nat);
                    }
                    self.block_round(&args, Value::FixNum(i), fuel)?;
                    i += 1;
                }
                proof {
                    crate::machine::lemma_times_from(self@, av, i as int, n as int, fuel as nat);
                }
                Ok(Value::Nil)
            },
            _ => fail(ErrorTag::Unreachable, "times must have an integer receiver"),
        }
    }

    /// `each` within a budget.
    #[verifier::loop_isolation(false)]
    pub fn each_within(&mut self, receiver: Value, args: Args, fuel: u64) -> (r: EvalResult)
        requires
            old(self).wf(),
        ensures
            ok_value(
                old(self)@.call_builtin(Builtin::Each, receiver@, args_view(&args), fuel as nat),
                r,
                final(self)@,
            ),
            final(self).wf(),
        decreases fuel, 3nat, 0nat,
    {
        proof {
            crate::machine::lemma_call_builtin(
                old(self)@,
                Builtin::Each,
                receiver@,
                args_view(&args),
                fuel as nat,
            );
        }
        match receiver {
            Value::Array(contents) => {
                let ghost m0 = self@;
                let ghost av = args_view(&args);
                let ghost items = values_view(contents@);
                proof {
                    crate::value::lemma_values_view(contents@);
                }
                let mut i: usize = 0;
                while i < contents.len()
                    invariant
                        i <= contents.len(),
                        self.wf(),
                        av == args_view(&args),
                        items == values_view(contents@),
                        items.len() == contents@.len(),
                        forall|j: int| 0 <= j < items.len() ==> #[trigger] items[j] == contents@[j]@,
                        m0.each_from(av, items, 0, fuel as nat) == self@.each_from(
                            av,
                            items,
                            i as nat,
                            fuel as nat,
                        ),
                    decreases contents.len() - i,
                {
                    proof {
                        crate::machine::lemma_each_from(self@, av, items, i as nat, fuel as nat);
                    }
                    self.block_round(&args, clone_value(&contents[i]), fuel)?;
                    i += 1;
                }
                proof {
                    crate::machine::lemma_each_from(self@, av, items, i as nat, fuel as nat);
                }
                Ok(Value::Nil)
            },
            _ => fail(ErrorTag::Unreachable, "each must have an array receiver"),
        }
    }

    /// Calls a builtin function.
    pub fn call_builtin(&mut self, func: Builtin, receiver: Value, args: Args, fuel: u64) -> (r: EvalResult)
        requires
            old(self).wf(),
        ensures
            ok_value(
                old(self)@.call_builtin(func, receiver@, args_view(&args), fuel as nat),
                r,
                final(self)@,
            ),
            final(self).wf(),
        decreases fuel, 4nat, 0nat,
    {
        proof {
            crate::machine::lemma_call_builtin(
                old(self)@,
                func,
                receiver@,
                args_view(&args),
                fuel as nat,
            );
            crate::machine::lemma_call_builtin(old(self)@, func, receiver@, args_view(&args), 0);
        }
        match func {
            Builtin::Puts => self.builtin_puts(receiver, args),
            Builtin::New => self.builtin_new(receiver, args),
            Builtin::ToI => self.builtin_to_i(receiver, args),
            Builtin::ToS => self.builtin_to_s(receiver, args),
            Builtin::Assert => {
                proof {
                    crate::value::lemma_values_view(args.args@);
                }
                if args.args.len() != 2 {
                    fail(ErrorTag::Unimplemented, "assert takes two arguments")
                } else if !value_eq(&args.args[0], &args.args[1]) {
                    fail(ErrorTag::Unreachable, "assertion fail!")
                } else {
                    self.builtin_assert(receiver, args)
                }
            },
            Builtin::Class => self.builtin_class(receiver, args),
            Builtin::Times => self.times_within(receiver, args, fuel),
            Builtin::Len => self.builtin_len(receiver, args),
            Builtin::Each => self.each_within(receiver, args, fuel),
            Builtin::InstanceVariables => self.builtin_instance_variables(receiver, args),
        }
    }

    /// Calls the method `info` on `receiver`.
    pub fn call(&mut self, info: MethodInfo, receiver: Value, args: Args, pushed: bool, fuel: u64) -> (r: EvalResult)
        requires
            old(self).wf(),
        ensures
            ok_value(
                old(self)@.call(info@, receiver@, args_view(&args), pushed, fuel as nat),
                r,
                final(self)@,
            ),
            final(self).wf(),
        decreases fuel, 5nat, 0nat,
    {
        proof {
            crate::machine::lemma_call(
                old(self)@,
                info@,
                receiver@,
                args_view(&args),
                pushed,
                fuel as nat,
            );
        }
        match info {
            MethodInfo::RubyFunc { params, ptr, local_scope } => {
                let n: usize = self.scope_stack.len();
                if n == 0 {
                    return fail(ErrorTag::Unreachable, "no scope");
                }
                if ptr == 0 {
                    return fail(ErrorTag::Unimplemented, "the method has no body");
                }
                let mut lvar_table = local_scope.lvar_table;
                lvar_table.overlay(&self.scope_stack[n - 1].lvar_table);
                bind_args(&mut lvar_table, &params, &args.args);
                let scope = LocalScope {
                    lvar_table,
                    propagated_table: self.scope_stack[n - 1].lvar_table.clone(),
                };
                self.scope_stack.push(scope);
                assert(self@.scopes =~= old(self)@.scopes.push(scope@));
                let val = self.evaluate(ptr, fuel)?;
                self.leave_scope()?;
                self.pop_env_if_true(pushed)?;
                Ok(val)
            },
            MethodInfo::BuiltinFunc { name: _, func } => {
                self.pop_env_if_true(pushed)?;
                self.call_builtin(func, receiver, args, fuel)
            },
        }
    }

    /// `SEND`: takes the arguments, the block's body, the block's
    /// parameter, the method's name and the receiver off the operand
    /// stack, resolves the method with the receiver as `self`, calls it and
    /// pushes what it returns.
    pub fn op_send(&mut self, fuel: u64) -> (r: Result<(), RuntimeError>)
        requires
            old(self).wf(),
        ensures
            ok_state(old(self)@.op_send(fuel as nat), r, final(self)@),
            final(self).wf(),
        decreases fuel, 6nat, 0nat,
    {
        proof {
            crate::machine::lemma_op_send(old(self)@, fuel as nat);
        }
        let args = self.pop_array()?;
        let body = self.pop_ptr()?;
        let t = self.pop_checked()?;
        let table = option_ident_of(&t)?;
        let id = self.pop_ident()?;
        let receiver = self.pop_checked()?;
        let pushed = self.push_env(&receiver);
        let info = self.find_method(IdentId(id))?;
        let val = self.call(info, receiver, Args { body, args, table }, pushed, fuel)?;
        self.push_value(val)
    }

    /// `IF`: evaluates the condition and then the branch that it selects;
    /// the key of the other branch is dropped.
    pub fn op_if(&mut self, fuel: u64) -> (r: Result<(), RuntimeError>)
        requires
            old(self).wf(),
        ensures
            ok_state(old(self)@.op_if(fuel as nat), r, final(self)@),
            final(self).wf(),
        decreases fuel, 6nat, 0nat,
    {
        proof {
            crate::machine::lemma_op_if(old(self)@, fuel as nat);
        }
        let cond_ptr = self.pop_ptr()?;
        let cond = self.eval_body_with(cond_ptr, fuel)?;
        let truth: bool = match cond {
            Value::Nil => false,
            Value::Bool(b) => b,
            Value::FixNum(n) => n > 0,
            Value::String(_) => true,
            _ => {
                return fail(ErrorTag::Unimplemented, "the condition is neither true nor false");
            },
        };
        if truth {
            let then_ptr = self.pop_ptr()?;
            let val = self.eval_body_with(then_ptr, fuel)?;
            self.pop_checked()?;
            self.push_value(val)
        } else {
            self.pop_checked()?;
            let else_ptr = self.pop_ptr()?;
            let val = self.eval_body_with(else_ptr, fuel)?;
            self.push_value(val)
        }
    }

    /// `CLASS_DECL`: creates the class and evaluates its body with the
    /// class as `self`, in a scope of its own.
    pub fn op_class_decl(&mut self, fuel: u64) -> (r: Result<(), RuntimeError>)
        requires
            old(self).wf(),
        ensures
            ok_state(old(self)@.op_class_decl(fuel as nat), r, final(self)@),
            final(self).wf(),
        decreases fuel, 6nat, 0nat,
    {
        proof {
            crate::machine::lemma_op_class_decl(old(self)@, fuel as nat);
        }
        let p = self.pop_checked()?;
        let parent = option_ident_of(&p)?;
        let ptr = self.pop_ptr()?;
        let id = self.pop_ident()?;
        let class = self.declare_class(IdentId(id), ptr, parent)?;
        self.enter_scope(None)?;
        self.class_stack.push(class);
        self.env.push(Env::ClassRef(class));
        proof {
            let m5 = old(self)@.pop()->Ok_0.0.pop_ptr()->Ok_0.0.pop_ident()->Ok_0.0.declare_class(
                id,
                ptr,
                match parent {
                    Some(p) => Some(p.0),
                    None => None,
                },
            )->Ok_0.0.enter_scope(None)->Ok_0;
            assert(self@.class_stack =~= m5.class_stack.push(class.0));
        }
        self.eval_body_with(ptr, fuel)?;
        if self.env.len() == 0 || self.class_stack.len() == 0 {
            return fail(ErrorTag::Unreachable, "no self");
        }
        let ghost before = self@;
        self.env.pop();
        self.class_stack.pop();
        assert(self@.class_stack =~= before.class_stack.drop_last());
        self.leave_scope()
    }

    /// Carries out the instruction under the cursor; says whether it
    /// ended the buffer.
    pub fn step(&mut self, fuel: u64) -> (r: Result<bool, RuntimeError>)
        requires
            old(self).wf(),
        ensures
            ok_flag(old(self)@.step(fuel as nat), r, final(self)@),
            final(self).wf(),
        decreases fuel, 7nat, 0nat,
    {
        proof {
            crate::machine::lemma_step(old(self)@, fuel as nat);
        }
        let op = self.fetch()?;
        if op == Inst::END {
            self.op_end()?;
            Ok(true)
        } else if op == Inst::SEND {
            self.plus_stack_pos(1);
            self.op_send(fuel)?;
            Ok(false)
        } else if op == Inst::IF {
            self.plus_stack_pos(1);
            self.op_if(fuel)?;
            Ok(false)
        } else if op == Inst::CLASS_DECL {
            self.plus_stack_pos(1);
            self.op_class_decl(fuel)?;
            Ok(false)
        } else {
            self.simple_op(op)?;
            Ok(false)
        }
    }

    /// Carries out the instructions of the current buffer from the cursor
    /// on, up to and including the one that ends it, within a budget.
    #[verifier::loop_isolation(false)]
    pub fn eval_seq_within(&mut self, fuel: u64) -> (r: Result<(), RuntimeError>)
        requires
            old(self).wf(),
        ensures
            ok_state(old(self)@.run(fuel as nat), r, final(self)@),
            final(self).wf(),
        decreases fuel, 8nat, 0nat,
    {
        let ghost m0 = self@;
        let mut left: u64 = fuel;
        loop
            invariant
                left <= fuel,
                self.wf(),
                m0.run(fuel as nat) == self@.run(left as nat),
            decreases left,
        {
            proof {
                crate::machine::lemma_run(self@, left as nat);
            }
            if left == 0 {
                return fail(ErrorTag::Unreachable, "the evaluation took too many steps");
            }
            left -= 1;
            let done = self.step(left)?;
            if done {
                return Ok(());
            }
        }
    }

    /// Carries out the instructions of the current buffer from the cursor
    /// on, up to and including the one that ends it.
    pub fn eval_seq(&mut self) -> (r: Result<(), RuntimeError>)
        requires
            old(self).wf(),
        ensures
            ok_state(old(self)@.run(u64::MAX as nat), r, final(self)@),
            final(self).wf(),
    {
        self.eval_seq_within(u64::MAX)
    }

    /// Runs the current buffer to its end and takes its result off the
    /// operand stack.
    pub fn eval(&mut self) -> (r: EvalResult)
        requires
            old(self).wf(),
        ensures
            ok_value(
                match old(self)@.run(u64::MAX as nat) {
                    Ok(m) => m.pop(),
                    Err(e) => Err(e),
                },
                r,
                final(self)@,
            ),
            final(self).wf(),
    {
        self.eval_seq()?;
        self.pop_checked()
    }

    /// Evaluates the compiled unit `entry` and returns its result.
    pub fn run(&mut self, entry: usize) -> (r: EvalResult)
        requires
            old(self).wf(),
        ensures
            ok_value(old(self)@.evaluate(entry, u64::MAX as nat), r, final(self)@),
            final(self).wf(),
    {
        self.evaluate(entry, u64::MAX)
    }

    /// `times`: evaluates the block once for each number from 0 up to,
    /// but not including, the receiver.
    pub fn builtin_times(&mut self, receiver: Value, args: Args) -> (r: EvalResult)
        requires
            old(self).wf(),
            receiver is FixNum,
        ensures
            ok_value(
                old(self)@.call_builtin(
                    Builtin::Times,
                    receiver@,
                    args_view(&args),
                    u64::MAX as nat,
                ),
                r,
                final(self)@,
            ),
            final(self).wf(),
    {
        self.times_within(receiver, args, u64::MAX)
    }

    /// `each`: evaluates the block once for each element of the receiver.
    pub fn builtin_each(&mut self, receiver: Value, args: Args) -> (r: EvalResult)
        requires
            old(self).wf(),
            receiver is Array,
        ensures
            ok_value(
                old(self)@.call_builtin(
                    Builtin::Each,
                    receiver@,
                    args_view(&args),
                    u64::MAX as nat,
                ),
                r,
                final(self)@,
            ),
            final(self).wf(),
    {
        self.each_within(receiver, args, u64::MAX)
    }
}

} // verus!
