use taiko::annot::{Annot, Loc};
use taiko::class::{Class, ClassRef};
use taiko::instance::InstanceRef;
use taiko::machine::ErrorTag;
use taiko::node::{BinOp, Node, NodeKind, ParsedArgs};
use taiko::util::{IdentId, IdentifierTable, SourceInfo};
use taiko::value::Value;
use taiko::vm::{RuntimeError, VM};

fn loc() -> Loc {
    Loc(0, 0)
}

fn num(n: i64) -> Node {
    Node::new_number(n, loc())
}

fn text(s: &str) -> Node {
    Node::new_string(s.to_string(), loc())
}

fn var(id: IdentId) -> Node {
    Node::new_identifier(id, loc())
}

fn op(o: BinOp, lhs: Node, rhs: Node) -> Node {
    Node::new_binop(o, lhs, rhs)
}

fn assign(id: IdentId, rhs: Node) -> Node {
    Node::new_assign(var(id), rhs)
}

fn comp(nodes: Vec<Node>) -> Node {
    Annot::new(NodeKind::CompStmt(nodes), loc())
}

fn if_(cond: Node, then_: Node, else_: Node) -> Node {
    Annot::new(NodeKind::If(Box::new(cond), Box::new(then_), Box::new(else_)), loc())
}

fn this() -> Node {
    Annot::new(NodeKind::SelfValue, loc())
}

fn send(receiver: Node, method: IdentId, args: Vec<Node>) -> Node {
    let mut parsed = ParsedArgs::new();
    parsed.args = args;
    Node::new_send(receiver, var(method), parsed, loc())
}

fn call(method: IdentId, args: Vec<Node>) -> Node {
    send(this(), method, args)
}

fn send_block(receiver: Node, method: IdentId, param: Option<IdentId>, body: Vec<Node>) -> Node {
    let mut parsed = ParsedArgs::new();
    parsed.node = Node::new_block_decl(comp(body));
    if let Some(p) = param {
        parsed.table = Node::new_table_identifier(p, loc());
    }
    Node::new_send(receiver, var(method), parsed, loc())
}

fn def(name: IdentId, params: Vec<IdentId>, body: Vec<Node>) -> Node {
    let params = params.into_iter().map(|p| Node::new_table_identifier(p, loc())).collect();
    Node::new_method_decl(name, params, comp(body))
}

fn class(name: IdentId, parent: Option<IdentId>, body: Vec<Node>) -> Node {
    Node::new_class_decl(name, comp(body), parent)
}

fn run(idents: IdentifierTable, program: Node) -> Result<Value, RuntimeError> {
    let mut vm = VM::new();
    vm.init(SourceInfo::new(), idents, &program)?;
    vm.eval()
}

fn eval_script(idents: IdentifierTable, program: Node, expected: Value) {
    match run(idents, program) {
        Ok(val) => {
            if val != expected {
                panic!("Expected:{:?} Got:{:?}", expected, val);
            }
        }
        Err(err) => panic!("Got runtime error: {:?}", err),
    }
}

fn fails_with(idents: IdentifierTable, program: Node, tag: ErrorTag) {
    match run(idents, program) {
        Ok(val) => panic!("Expected a failure, got {:?}", val),
        Err(err) => assert_eq!(err.kind.kind_tag(), tag),
    }
}

// assert(1, 1)
#[test]
fn tree_of_assert1() {
    let mut idents = IdentifierTable::new();
    let assert = idents.get_ident_id("assert");
    let program = comp(vec![call(assert, vec![num(1), num(1)])]);
    eval_script(idents, program, Value::Nil);
}

// if 5*4==16 +4 then 7; end
#[test]
fn tree_of_if1() {
    let idents = IdentifierTable::new();
    let cond = op(BinOp::Eq, op(BinOp::Mul, num(5), num(4)), op(BinOp::Add, num(16), num(4)));
    let program = comp(vec![if_(cond, comp(vec![num(7)]), Node::new_comp_stmt())]);
    eval_script(idents, program, Value::FixNum(7));
}

// if
// 5*4==16 +4
// 7 end
#[test]
fn tree_of_if2() {
    let idents = IdentifierTable::new();
    let cond = op(BinOp::Eq, op(BinOp::Mul, num(5), num(4)), op(BinOp::Add, num(16), num(4)));
    let program = comp(vec![if_(cond, comp(vec![num(7)]), Node::new_comp_stmt())]);
    eval_script(idents, program, Value::FixNum(7));
}

// if 5*9==16 +4
// 7 elsif 4==4+9 then 8 elsif 3==1+2 then 10
// else 12 end
#[test]
fn tree_of_if3() {
    let idents = IdentifierTable::new();
    let third = if_(
        op(BinOp::Eq, num(3), op(BinOp::Add, num(1), num(2))),
        comp(vec![num(10)]),
        comp(vec![num(12)]),
    );
    let second = if_(op(BinOp::Eq, num(4), op(BinOp::Add, num(4), num(9))), comp(vec![num(8)]), third);
    let first = if_(
        op(BinOp::Eq, op(BinOp::Mul, num(5), num(9)), op(BinOp::Add, num(16), num(4))),
        comp(vec![num(7)]),
        second,
    );
    eval_script(idents, comp(vec![first]), Value::FixNum(10));
}

// a = 6;
// b = 2;c = 1;
// a/b-c;
#[test]
fn tree_of_local_var1() {
    let mut idents = IdentifierTable::new();
    let a = idents.get_ident_id("a");
    let b = idents.get_ident_id("b");
    let c = idents.get_ident_id("c");
    let program = comp(vec![
        assign(a, num(6)),
        assign(b, num(2)),
        assign(c, num(1)),
        op(BinOp::Sub, op(BinOp::Div, var(a), var(b)), var(c)),
    ]);
    eval_script(idents, program, Value::FixNum(2));
}

// '34'.to_i
#[test]
fn tree_of_to_i1() {
    let mut idents = IdentifierTable::new();
    let to_i = idents.get_ident_id("to_i");
    let program = comp(vec![send(text("34"), to_i, vec![])]);
    eval_script(idents, program, Value::FixNum(34));
}

// 34.to_s
#[test]
fn tree_of_to_s1() {
    let mut idents = IdentifierTable::new();
    let to_s = idents.get_ident_id("to_s");
    let program = comp(vec![send(num(34), to_s, vec![])]);
    eval_script(idents, program, Value::String("34".to_string()));
}

// 3.times do
//   puts('hello')
// end
#[test]
fn tree_of_times1() {
    let mut idents = IdentifierTable::new();
    let times = idents.get_ident_id("times");
    let puts = idents.get_ident_id("puts");
    let program = comp(vec![send_block(num(3), times, None, vec![call(puts, vec![text("hello")])])]);
    eval_script(idents, program, Value::Nil);
}

// 3.times do |n|
//   puts(n)
// end
#[test]
fn tree_of_times2() {
    let mut idents = IdentifierTable::new();
    let times = idents.get_ident_id("times");
    let n = idents.get_ident_id("n");
    let puts = idents.get_ident_id("puts");
    let program = comp(vec![send_block(num(3), times, Some(n), vec![call(puts, vec![var(n)])])]);
    eval_script(idents, program, Value::Nil);
}

// a = 0
// 255.times do |n|
//   a = a + n
// end
// a
#[test]
fn tree_of_times3() {
    let mut idents = IdentifierTable::new();
    let a = idents.get_ident_id("a");
    let times = idents.get_ident_id("times");
    let n = idents.get_ident_id("n");
    let program = comp(vec![
        assign(a, num(0)),
        send_block(num(255), times, Some(n), vec![assign(a, op(BinOp::Add, var(a), var(n)))]),
        var(a),
    ]);
    eval_script(idents, program, Value::FixNum(32385));
}

// a = 0
// b = 0
// 24.times do |n|
//   b = b + n + a
//   a = b
// end
//
// a
#[test]
fn tree_of_times4() {
    let mut idents = IdentifierTable::new();
    let a = idents.get_ident_id("a");
    let b = idents.get_ident_id("b");
    let times = idents.get_ident_id("times");
    let n = idents.get_ident_id("n");
    let program = comp(vec![
        assign(a, num(0)),
        assign(b, num(0)),
        send_block(
            num(24),
            times,
            Some(n),
            vec![
                assign(b, op(BinOp::Add, var(b), op(BinOp::Add, var(n), var(a)))),
                assign(a, var(b)),
            ],
        ),
        var(a),
    ]);
    eval_script(idents, program, Value::FixNum(16777191));
}

// [1, 'string', 3, 4].len
#[test]
fn tree_of_len() {
    let mut idents = IdentifierTable::new();
    let len = idents.get_ident_id("len");
    let array = Node::new_vec(vec![num(1), text("string"), num(3), num(4)], loc());
    eval_script(idents, comp(vec![send(array, len, vec![])]), Value::FixNum(4));
}

// [1, 'string', 3, 4][1]
#[test]
fn tree_of_array_index() {
    let idents = IdentifierTable::new();
    let array = Node::new_vec(vec![num(1), text("string"), num(3), num(4)], loc());
    let program = comp(vec![Node::new_array_index(array, 1, loc())]);
    eval_script(idents, program, Value::String("string".to_string()));
}

#[test]
fn integer_operators_match_native_arithmetic() {
    let cases: Vec<(i64, i64)> = vec![(7, 3), (-7, 3), (7, -3), (-7, -3), (0, 5), (12, 12)];
    for (a, b) in cases {
        let check = |o: BinOp, expected: Value| {
            eval_script(IdentifierTable::new(), comp(vec![op(o, num(a), num(b))]), expected);
        };
        check(BinOp::Add, Value::FixNum(a + b));
        check(BinOp::Sub, Value::FixNum(a - b));
        check(BinOp::Mul, Value::FixNum(a * b));
        check(BinOp::Div, Value::FixNum(a / b));
        check(BinOp::Eq, Value::Bool(a == b));
        check(BinOp::Ne, Value::Bool(a != b));
        check(BinOp::GT, Value::Bool(a > b));
        check(BinOp::GE, Value::Bool(a >= b));
        check(BinOp::LT, Value::Bool(a < b));
        check(BinOp::LE, Value::Bool(a <= b));
    }
}

#[test]
fn large_and_negative_literals_survive_the_encoding() {
    for n in [i64::MIN, -1, 0, 1, 255, 256, 0x0102_0304_0506_0708, i64::MAX] {
        eval_script(IdentifierTable::new(), comp(vec![num(n)]), Value::FixNum(n));
    }
}

#[test]
fn overflow_and_division_by_zero_fail() {
    fails_with(
        IdentifierTable::new(),
        comp(vec![op(BinOp::Add, num(i64::MAX), num(1))]),
        ErrorTag::Unreachable,
    );
    fails_with(
        IdentifierTable::new(),
        comp(vec![op(BinOp::Mul, num(i64::MIN), num(-1))]),
        ErrorTag::Unreachable,
    );
    fails_with(IdentifierTable::new(), comp(vec![op(BinOp::Div, num(1), num(0))]), ErrorTag::Unreachable);
    fails_with(
        IdentifierTable::new(),
        comp(vec![op(BinOp::Div, num(i64::MIN), num(-1))]),
        ErrorTag::Unreachable,
    );
}

#[test]
fn logical_operators_on_booleans() {
    let t = || op(BinOp::Eq, num(1), num(1));
    let f = || op(BinOp::Eq, num(1), num(2));
    eval_script(IdentifierTable::new(), comp(vec![op(BinOp::LAnd, t(), f())]), Value::Bool(false));
    eval_script(IdentifierTable::new(), comp(vec![op(BinOp::LAnd, t(), t())]), Value::Bool(true));
    eval_script(IdentifierTable::new(), comp(vec![op(BinOp::LOr, f(), t())]), Value::Bool(true));
    eval_script(IdentifierTable::new(), comp(vec![op(BinOp::LOr, f(), f())]), Value::Bool(false));
}

#[test]
fn mismatched_operands_are_unimplemented() {
    fails_with(
        IdentifierTable::new(),
        comp(vec![op(BinOp::Add, num(1), text("a"))]),
        ErrorTag::Unimplemented,
    );
}

#[test]
fn decimal_arithmetic_is_unimplemented() {
    let half = Node::new_decimal_number(0x3fe0_0000_0000_0000, loc());
    eval_script(
        IdentifierTable::new(),
        comp(vec![Node::new_decimal_number(0x3fe0_0000_0000_0000, loc())]),
        Value::FixDecimalNum(0x3fe0_0000_0000_0000),
    );
    fails_with(IdentifierTable::new(), comp(vec![op(BinOp::Add, half, num(1))]), ErrorTag::Unimplemented);
}

#[test]
fn undefined_local_is_a_name_error() {
    let mut idents = IdentifierTable::new();
    let a = idents.get_ident_id("a");
    fails_with(idents, comp(vec![var(a)]), ErrorTag::Name);
}

#[test]
fn undefined_constant_is_a_name_error() {
    let mut idents = IdentifierTable::new();
    let foo = idents.get_ident_id("Foo");
    fails_with(idents, comp(vec![Node::new_const(foo, loc())]), ErrorTag::Name);
}

#[test]
fn undefined_method_is_fatal() {
    let mut idents = IdentifierTable::new();
    let nope = idents.get_ident_id("nope");
    fails_with(idents, comp(vec![call(nope, vec![])]), ErrorTag::NoMethod);
}

#[test]
fn failed_assertion_is_fatal() {
    let mut idents = IdentifierTable::new();
    let assert = idents.get_ident_id("assert");
    fails_with(idents, comp(vec![call(assert, vec![num(1), num(2)])]), ErrorTag::Unreachable);
}

#[test]
fn assert_with_one_argument_is_unimplemented() {
    let mut idents = IdentifierTable::new();
    let assert = idents.get_ident_id("assert");
    fails_with(idents, comp(vec![call(assert, vec![num(1)])]), ErrorTag::Unimplemented);
}

#[test]
fn global_identifier_is_unimplemented() {
    let mut idents = IdentifierTable::new();
    let g = idents.get_ident_id("g");
    fails_with(idents, comp(vec![Node::new_global_identifier(g, loc())]), ErrorTag::Unimplemented);
}

#[test]
fn empty_program_yields_nil() {
    eval_script(IdentifierTable::new(), Node::new_comp_stmt(), Value::Nil);
}

#[test]
fn puts_collects_lines() {
    let mut idents = IdentifierTable::new();
    let puts = idents.get_ident_id("puts");
    let program = comp(vec![call(
        puts,
        vec![num(-12), text("hello"), op(BinOp::Eq, num(1), num(1)), Annot::new(NodeKind::Nil, loc())],
    )]);
    let mut vm = VM::new();
    vm.init(SourceInfo::new(), idents, &program).unwrap();
    assert_eq!(vm.eval().unwrap(), Value::Nil);
    assert_eq!(
        vm.take_output(),
        vec!["-12".to_string(), "hello".to_string(), "true".to_string(), "".to_string()]
    );
    assert!(vm.take_output().is_empty());
}

#[test]
fn puts_of_an_array_uses_the_debug_text() {
    let mut idents = IdentifierTable::new();
    let to_s = idents.get_ident_id("to_s");
    let array = Node::new_vec(vec![num(1), text("s")], loc());
    eval_script(
        idents,
        comp(vec![send(array, to_s, vec![])]),
        Value::String("[FixNum(1), String(\"s\")]".to_string()),
    );
}

// def fact(a)
//   if a == 1
//     1
//   else
//     a * fact(a-1)
//   end
// end
// fact(5)
#[test]
fn recursive_method() {
    let mut idents = IdentifierTable::new();
    let fact = idents.get_ident_id("fact");
    let a = idents.get_ident_id("a");
    let body = if_(
        op(BinOp::Eq, var(a), num(1)),
        comp(vec![num(1)]),
        comp(vec![op(BinOp::Mul, var(a), call(fact, vec![op(BinOp::Sub, var(a), num(1))]))]),
    );
    let program = comp(vec![def(fact, vec![a], vec![body]), call(fact, vec![num(5)])]);
    eval_script(idents, program, Value::FixNum(120));
}

// a = 1
// def foo
//   a
// end
// foo()
#[test]
fn method_sees_locals_of_its_definition() {
    let mut idents = IdentifierTable::new();
    let a = idents.get_ident_id("a");
    let foo = idents.get_ident_id("foo");
    let program = comp(vec![assign(a, num(1)), def(foo, vec![], vec![var(a)]), call(foo, vec![])]);
    eval_script(idents, program, Value::FixNum(1));
}

// a = 1
// def foo
//   a = 2
//   b = 3
// end
// foo()
// a
#[test]
fn method_assignment_is_copied_back_for_shared_names_only() {
    let mut idents = IdentifierTable::new();
    let a = idents.get_ident_id("a");
    let b = idents.get_ident_id("b");
    let foo = idents.get_ident_id("foo");
    let program = |last: Node| {
        comp(vec![
            assign(a, num(1)),
            def(foo, vec![], vec![assign(a, num(2)), assign(b, num(3))]),
            call(foo, vec![]),
            last,
        ])
    };
    eval_script(idents.clone(), program(var(a)), Value::FixNum(2));
    fails_with(idents, program(var(b)), ErrorTag::Name);
}

#[test]
fn missing_arguments_are_nil() {
    let mut idents = IdentifierTable::new();
    let foo = idents.get_ident_id("foo");
    let x = idents.get_ident_id("x");
    let class = idents.get_ident_id("class");
    let program = comp(vec![
        def(foo, vec![x], vec![send(var(x), class, vec![])]),
        call(foo, vec![]),
    ]);
    eval_script(idents, program, Value::SelfClass(Class::Nil));
}

// v = ['one', 2, 'three', 4]
// n = 0
// v.each do |c|
//   n = n + 1
//   last = c
// end
// n
#[test]
fn each_visits_every_element_and_copies_back() {
    let mut idents = IdentifierTable::new();
    let v = idents.get_ident_id("v");
    let n = idents.get_ident_id("n");
    let c = idents.get_ident_id("c");
    let last = idents.get_ident_id("last");
    let each = idents.get_ident_id("each");
    let program = |result: Node| {
        comp(vec![
            assign(v, Node::new_vec(vec![text("one"), num(2), text("three"), num(4)], loc())),
            assign(n, num(0)),
            send_block(
                var(v),
                each,
                Some(c),
                vec![assign(n, op(BinOp::Add, var(n), num(1))), assign(last, var(c))],
            ),
            result,
        ])
    };
    eval_script(idents.clone(), program(var(n)), Value::FixNum(4));
    fails_with(idents.clone(), program(var(last)), ErrorTag::Name);
    fails_with(idents, program(var(c)), ErrorTag::Name);
}

#[test]
fn times_with_a_negative_receiver_does_nothing() {
    let mut idents = IdentifierTable::new();
    let a = idents.get_ident_id("a");
    let times = idents.get_ident_id("times");
    let program = comp(vec![
        assign(a, num(5)),
        send_block(num(-3), times, None, vec![assign(a, num(9))]),
        var(a),
    ]);
    eval_script(idents, program, Value::FixNum(5));
}

#[test]
fn times_on_a_string_is_fatal() {
    let mut idents = IdentifierTable::new();
    let times = idents.get_ident_id("times");
    fails_with(
        idents,
        comp(vec![send_block(text("x"), times, None, vec![])]),
        ErrorTag::Unreachable,
    );
}

// class Foo
// end
// Foo.new
// Foo.new
// Foo.new
#[test]
fn each_new_yields_a_distinct_instance() {
    let mut idents = IdentifierTable::new();
    let foo = idents.get_ident_id("Foo");
    let new = idents.get_ident_id("new");
    let make = || send(Node::new_const(foo, loc()), new, vec![]);
    let program = comp(vec![class(foo, None, vec![]), make(), make(), make()]);
    eval_script(idents, program, Value::Instance(InstanceRef(2)));
}

// class Car
//   @wheels = 4
//   def setName(str)
//     @name = str
//   end
//   def getName
//     @name
//   end
//   def wheels
//     @wheels
//   end
// end
// car1 = Car.new
// car1.setName('Legacy')
// car2 = Car.new
// car2.setName('XV')
// assert(car2.getName, 'XV')
// assert(car1.getName, 'Legacy')
// assert(car1.wheels, 4)
// car2.instance_variables
#[test]
fn instance_variables_default_from_the_class_and_are_independent() {
    let mut idents = IdentifierTable::new();
    let car = idents.get_ident_id("Car");
    let wheels = idents.get_ident_id("wheels");
    let set_name = idents.get_ident_id("setName");
    let str_ = idents.get_ident_id("str");
    let name = idents.get_ident_id("name");
    let get_name = idents.get_ident_id("getName");
    let car1 = idents.get_ident_id("car1");
    let car2 = idents.get_ident_id("car2");
    let new = idents.get_ident_id("new");
    let assert = idents.get_ident_id("assert");
    let ivars = idents.get_ident_id("instance_variables");
    let ivar = |id: IdentId| Node::new_instance_var(id, loc());
    let program = comp(vec![
        class(
            car,
            None,
            vec![
                Node::new_assign(ivar(wheels), num(4)),
                def(set_name, vec![str_], vec![Node::new_assign(ivar(name), var(str_))]),
                def(get_name, vec![], vec![ivar(name)]),
                def(wheels, vec![], vec![ivar(wheels)]),
            ],
        ),
        assign(car1, send(Node::new_const(car, loc()), new, vec![])),
        send(var(car1), set_name, vec![text("Legacy")]),
        assign(car2, send(Node::new_const(car, loc()), new, vec![])),
        send(var(car2), set_name, vec![text("XV")]),
        call(assert, vec![send(var(car2), get_name, vec![]), text("XV")]),
        call(assert, vec![send(var(car1), get_name, vec![]), text("Legacy")]),
        call(assert, vec![send(var(car1), wheels, vec![]), num(4)]),
        send(var(car2), ivars, vec![]),
    ]);
    eval_script(
        idents,
        program,
        Value::Array(vec![Value::String("@wheels".to_string()), Value::String("@name".to_string())]),
    );
}

// class Car
//   @@count = 2
//   def set(i)
//     @@count = i
//   end
//   def get
//     @@count
//   end
// end
// car1 = Car.new
// car1.set(22222)
// Car.new.get
#[test]
fn class_variables_are_shared_by_the_instances() {
    let mut idents = IdentifierTable::new();
    let car = idents.get_ident_id("Car");
    let count = idents.get_ident_id("count");
    let set = idents.get_ident_id("set");
    let i = idents.get_ident_id("i");
    let get = idents.get_ident_id("get");
    let car1 = idents.get_ident_id("car1");
    let new = idents.get_ident_id("new");
    let cvar = |id: IdentId| Node::new_class_var(id, loc());
    let program = comp(vec![
        class(
            car,
            None,
            vec![
                Node::new_assign(cvar(count), num(2)),
                def(set, vec![i], vec![Node::new_assign(cvar(count), var(i))]),
                def(get, vec![], vec![cvar(count)]),
            ],
        ),
        assign(car1, send(Node::new_const(car, loc()), new, vec![])),
        send(var(car1), set, vec![num(22222)]),
        send(send(Node::new_const(car, loc()), new, vec![]), get, vec![]),
    ]);
    eval_script(idents, program, Value::FixNum(22222));
}

// def foo
//   1
// end
// class A
//   def foo
//     2
//   end
// end
// class B < A
// end
// B.new.foo
#[test]
fn method_of_the_parent_class_is_found_before_the_outer_context() {
    let mut idents = IdentifierTable::new();
    let a = idents.get_ident_id("A");
    let b = idents.get_ident_id("B");
    let foo = idents.get_ident_id("foo");
    let new = idents.get_ident_id("new");
    let program = comp(vec![
        def(foo, vec![], vec![num(1)]),
        class(a, None, vec![def(foo, vec![], vec![num(2)])]),
        class(b, Some(a), vec![]),
        send(send(Node::new_const(b, loc()), new, vec![]), foo, vec![]),
    ]);
    eval_script(idents, program, Value::FixNum(2));
}

// class A
// end
// A.new.foo
#[test]
fn method_lookup_falls_through_to_the_outer_context() {
    let mut idents = IdentifierTable::new();
    let a = idents.get_ident_id("A");
    let foo = idents.get_ident_id("foo");
    let new = idents.get_ident_id("new");
    let program = comp(vec![
        def(foo, vec![], vec![num(1)]),
        class(a, None, vec![]),
        send(send(Node::new_const(a, loc()), new, vec![]), foo, vec![]),
    ]);
    eval_script(idents, program, Value::FixNum(1));
}

// a = 1
// class Foo
//   a = 2
//   b = 3
// end
// a
#[test]
fn class_body_runs_in_a_scope_of_its_own() {
    let mut idents = IdentifierTable::new();
    let a = idents.get_ident_id("a");
    let b = idents.get_ident_id("b");
    let foo = idents.get_ident_id("Foo");
    let program = |last: Node| {
        comp(vec![
            assign(a, num(1)),
            class(foo, None, vec![assign(a, num(2)), assign(b, num(3))]),
            last,
        ])
    };
    eval_script(idents.clone(), program(var(a)), Value::FixNum(2));
    fails_with(idents, program(var(b)), ErrorTag::Name);
}

#[test]
fn class_and_instance_texts() {
    let mut idents = IdentifierTable::new();
    let foo = idents.get_ident_id("Foo");
    let new = idents.get_ident_id("new");
    let to_s = idents.get_ident_id("to_s");
    let class_ = idents.get_ident_id("class");
    let decl = || class(foo, None, vec![]);
    eval_script(
        idents.clone(),
        comp(vec![decl(), send(Node::new_const(foo, loc()), to_s, vec![])]),
        Value::String("#<Foo:ClassRef(1)>".to_string()),
    );
    eval_script(
        idents.clone(),
        comp(vec![decl(), send(send(Node::new_const(foo, loc()), new, vec![]), to_s, vec![])]),
        Value::String("#<Foo:InstanceRef(0)>".to_string()),
    );
    eval_script(
        idents.clone(),
        comp(vec![decl(), send(Node::new_const(foo, loc()), class_, vec![])]),
        Value::SelfClass(Class::Class),
    );
    eval_script(
        idents.clone(),
        comp(vec![send(send(num(1), class_, vec![]), to_s, vec![])]),
        Value::String("FixNum".to_string()),
    );
    eval_script(idents, comp(vec![decl(), this()]), Value::Class(ClassRef(0)));
}

#[test]
fn to_i_of_a_string_that_spells_no_number_is_unimplemented() {
    let mut idents = IdentifierTable::new();
    let to_i = idents.get_ident_id("to_i");
    fails_with(idents.clone(), comp(vec![send(text("3x"), to_i, vec![])]), ErrorTag::Unimplemented);
    eval_script(idents.clone(), comp(vec![send(text("-17"), to_i, vec![])]), Value::FixNum(-17));
    eval_script(idents, comp(vec![send(text("+8"), to_i, vec![])]), Value::FixNum(8));
}

#[test]
fn array_index_out_of_range_is_fatal() {
    let array = Node::new_vec(vec![num(1)], loc());
    fails_with(
        IdentifierTable::new(),
        comp(vec![Node::new_array_index(array, 1, loc())]),
        ErrorTag::Unreachable,
    );
}

#[test]
fn compiling_and_running_twice_gives_the_same_value() {
    let program = || comp(vec![op(BinOp::Add, op(BinOp::Mul, num(3), num(4)), num(5))]);
    let mut vm = VM::new();
    vm.repl_init_method(SourceInfo::new(), IdentifierTable::new()).unwrap();
    let first = vm.compile(&program()).unwrap();
    let second = vm.compile(&program()).unwrap();
    assert_ne!(first, second);
    let a = vm.run(first).unwrap();
    let b = vm.run(second).unwrap();
    let c = vm.run(first).unwrap();
    assert_eq!(a, Value::FixNum(17));
    assert_eq!(a, b);
    assert_eq!(a, c);
}

#[test]
fn string_literals_with_the_same_text_share_a_number() {
    let mut vm = VM::new();
    vm.repl_init_method(SourceInfo::new(), IdentifierTable::new()).unwrap();
    let entry = vm.compile(&comp(vec![text("a"), text("b"), text("a")])).unwrap();
    assert_eq!(vm.stack.ident_table.len(), 2);
    assert_eq!(vm.run(entry).unwrap(), Value::String("a".to_string()));
}

#[test]
fn the_machine_can_be_used_line_by_line() {
    let mut idents = IdentifierTable::new();
    let a = idents.get_ident_id("a");
    let mut vm = VM::new();
    vm.repl_init_method(SourceInfo::new(), idents).unwrap();
    vm.init_iseq(&comp(vec![assign(a, num(41))])).unwrap();
    assert_eq!(vm.eval().unwrap(), Value::FixNum(41));
    vm.init_iseq(&comp(vec![op(BinOp::Add, var(a), num(1))])).unwrap();
    assert_eq!(vm.eval().unwrap(), Value::FixNum(42));
}

// a = 1
// b = 2
// def foo
//   1
// end
// class A
//   def foo
//     2
//   end
// end
// class B < A
// end
// B.new.foo
#[test]
fn parent_that_is_not_the_first_identifier_is_found() {
    let mut idents = IdentifierTable::new();
    let x = idents.get_ident_id("a");
    let y = idents.get_ident_id("b");
    let foo = idents.get_ident_id("foo");
    let a = idents.get_ident_id("A");
    let b = idents.get_ident_id("B");
    let new = idents.get_ident_id("new");
    let program = comp(vec![
        assign(x, num(1)),
        assign(y, num(2)),
        def(foo, vec![], vec![num(1)]),
        class(a, None, vec![def(foo, vec![], vec![num(2)])]),
        class(b, Some(a), vec![]),
        send(send(Node::new_const(b, loc()), new, vec![]), foo, vec![]),
    ]);
    eval_script(idents, program, Value::FixNum(2));
}

// x = 1
// class A
// end
// class B < A
// end
#[test]
fn subclass_map_holds_the_handle_of_the_parent() {
    let mut idents = IdentifierTable::new();
    let x = idents.get_ident_id("x");
    let a = idents.get_ident_id("A");
    let b = idents.get_ident_id("B");
    let program = comp(vec![
        assign(x, num(1)),
        class(a, None, vec![]),
        class(b, Some(a), vec![]),
    ]);
    let mut vm = VM::new();
    vm.init(SourceInfo::new(), idents, &program).unwrap();
    vm.eval().unwrap();
    let parent = match vm.const_table.get(a.0) {
        Some(Value::Class(h)) => h,
        other => panic!("A is bound to {:?}", other),
    };
    let child = match vm.const_table.get(b.0) {
        Some(Value::Class(h)) => h,
        other => panic!("B is bound to {:?}", other),
    };
    assert_ne!(parent, child);
    assert!(vm.class_table.contains(parent));
    assert!(vm.class_table.contains(child));
    let info = vm.class_table.get(child);
    assert_eq!(info.subclass.len(), 1);
    assert_eq!(info.subclass.get(&a.0), Some(&parent));
    assert_eq!(vm.class_table.get(parent).subclass.len(), 0);
}

// class B < A
// end
#[test]
fn parent_that_was_not_declared_is_an_unknown_name() {
    let mut idents = IdentifierTable::new();
    let a = idents.get_ident_id("A");
    let b = idents.get_ident_id("B");
    let program = comp(vec![class(b, Some(a), vec![])]);
    fails_with(idents, program, ErrorTag::Name);
}

// A = 1
// class B < A
// end
#[test]
fn parent_that_is_no_class_is_refused() {
    let mut idents = IdentifierTable::new();
    let a = idents.get_ident_id("A");
    let b = idents.get_ident_id("B");
    let mut vm = VM::new();
    vm.init(SourceInfo::new(), idents, &comp(vec![])).unwrap();
    vm.const_table.insert(a.0, Value::FixNum(1));
    let err = vm.declare_class(b, 0, Some(a)).unwrap_err();
    assert_eq!(err.kind.kind_tag(), ErrorTag::Unreachable);
    assert_eq!(vm.parent_handle(a).unwrap_err().kind.kind_tag(), ErrorTag::Unreachable);
    assert_eq!(vm.parent_handle(b).unwrap_err().kind.kind_tag(), ErrorTag::Name);
}

#[test]
fn new_classes_and_instances_get_handles_that_were_free() {
    let mut idents = IdentifierTable::new();
    let a = idents.get_ident_id("A");
    let b = idents.get_ident_id("B");
    let mut vm = VM::new();
    vm.init(SourceInfo::new(), idents, &comp(vec![])).unwrap();
    let top = ClassRef(0);
    assert!(vm.class_table.contains(top));
    let c1 = ClassRef(vm.class_table.class_id);
    assert!(!vm.class_table.contains(c1));
    let r1 = vm.new_class(a, 0).unwrap();
    assert_eq!(r1, c1);
    let c2 = ClassRef(vm.class_table.class_id);
    assert!(!vm.class_table.contains(c2));
    let r2 = vm.new_class(b, 0).unwrap();
    assert_eq!(r2, c2);
    assert_ne!(r1, r2);
    assert_eq!(vm.class_table.get(r1).id, a);
    assert_eq!(vm.class_table.get(r1).name, "A");
    assert_eq!(vm.class_table.get(r2).id, b);
    assert!(vm.class_table.contains(top));

    let i1 = vm.new_instance(r1).unwrap();
    let i2 = vm.new_instance(r1).unwrap();
    let i3 = vm.new_instance(r2).unwrap();
    assert_eq!(i1, InstanceRef(0));
    assert_eq!(i2, InstanceRef(1));
    assert_eq!(i3, InstanceRef(2));
    assert_eq!(vm.instance_table.get(i1).class_id, r1);
    assert_eq!(vm.instance_table.get(i2).class_id, r1);
    assert_eq!(vm.instance_table.get(i3).class_id, r2);
    assert_eq!(vm.instance_table.instance_id, 3);
}

#[test]
fn compiled_bodies_get_keys_that_were_free() {
    let mut vm = VM::new();
    vm.init(SourceInfo::new(), IdentifierTable::new(), &comp(vec![])).unwrap();
    let k1 = vm.compile(&num(1)).unwrap();
    let k2 = vm.compile(&num(2)).unwrap();
    assert_ne!(k1, 0);
    assert_ne!(k2, 0);
    assert_ne!(k1, k2);
    assert_eq!(vm.run(k1).unwrap(), Value::FixNum(1));
    assert_eq!(vm.run(k2).unwrap(), Value::FixNum(2));
}

#[test]
fn method_that_nothing_offers_is_not_found() {
    let mut idents = IdentifierTable::new();
    let puts = idents.get_ident_id("puts");
    let nothing = idents.get_ident_id("nothing");
    let mut vm = VM::new();
    vm.init(SourceInfo::new(), idents, &comp(vec![])).unwrap();
    let err = vm.find_method(nothing).unwrap_err();
    assert_eq!(err.kind.kind_tag(), ErrorTag::NoMethod);
    assert!(vm.find_method(puts).is_ok());
    let found = vm.get_method_info(puts);
    assert_eq!(format!("{:?}", found), format!("{:?}", vm.find_method(puts).unwrap()));
}

#[test]
fn assert_on_equal_arguments_is_nil() {
    let mut vm = VM::new();
    vm.init(SourceInfo::new(), IdentifierTable::new(), &comp(vec![])).unwrap();
    let mut args = taiko::vm::Args::new();
    args.args = vec![Value::FixNum(3), Value::FixNum(3)];
    assert_eq!(vm.builtin_assert(Value::Nil, args).unwrap(), Value::Nil);
}

#[test]
fn failure_carries_its_message() {
    let err = taiko::vm::fail::<()>(ErrorTag::Name, "no such name").unwrap_err();
    assert_eq!(err.kind.kind_tag(), ErrorTag::Name);
    assert_eq!(err.kind.message(), "no such name");
    assert_eq!(err.loc, Loc(0, 0));
}

// if 1 == 1 then 2 else 3 end
#[test]
fn compiling_only_appends_to_the_buffers() {
    let mut vm = VM::new();
    let first = if_(op(BinOp::Eq, num(1), num(1)), num(2), num(3));
    vm.init(SourceInfo::new(), IdentifierTable::new(), &first).unwrap();
    let before: Vec<(usize, Vec<u8>)> =
        vm.stack.iseqs.iter().map(|(k, v)| (*k, v.clone())).collect();
    let next = vm.next_key;
    assert!(before.iter().all(|(k, _)| *k < next));
    let key = vm.compile(&text("more")).unwrap();
    assert_eq!(key, next);
    assert!(before.iter().all(|(k, _)| *k != key));
    for (k, code) in before.iter() {
        let now = vm.stack.iseqs.get(k).unwrap();
        assert!(now.len() >= code.len());
        assert_eq!(&now[..code.len()], &code[..]);
    }
    assert!(vm.next_key > next);
}

// a = 0
// 4.times { |n| a = a + n }
// [5, 7].each { |n| a = a + n }
#[test]
fn block_builtins_called_directly() {
    let mut idents = IdentifierTable::new();
    let a = idents.get_ident_id("a");
    let n = idents.get_ident_id("n");
    let mut vm = VM::new();
    vm.init(SourceInfo::new(), idents, &comp(vec![assign(a, num(0))])).unwrap();
    vm.eval().unwrap();
    let body = vm.compile(&comp(vec![assign(a, op(BinOp::Add, var(a), var(n)))])).unwrap();

    let mut args = taiko::vm::Args::new();
    args.body = body;
    args.table = Some(n);
    assert_eq!(vm.builtin_times(Value::FixNum(4), args).unwrap(), Value::Nil);
    assert_eq!(vm.scope_stack.last().unwrap().lvar_table.get(a.0), Some(Value::FixNum(6)));

    let mut args = taiko::vm::Args::new();
    args.body = body;
    args.table = Some(n);
    let items = Value::Array(vec![Value::FixNum(5), Value::FixNum(7)]);
    assert_eq!(vm.builtin_each(items, args).unwrap(), Value::Nil);
    assert_eq!(vm.scope_stack.last().unwrap().lvar_table.get(a.0), Some(Value::FixNum(18)));
}
