use taiko::annot::Loc;
use taiko::class::Class;
use taiko::grammar::ParseErrorKind;
use taiko::instance::InstanceRef;
use taiko::machine::ErrorTag;
use taiko::node::{BinOp, NodeKind};
use taiko::parser::{ParseError, Parser};
use taiko::value::Value;
use taiko::vm::{RuntimeError, VM};

fn run(script: &str) -> Result<Value, RuntimeError> {
    let mut parser = Parser::new();
    let node = parser.parse_program(script).unwrap();
    let mut vm = VM::new();
    vm.init(parser.lexer.source_info, parser.ident_table, &node)?;
    vm.eval()
}

fn eval_script(script: &str, expected: Value) {
    match run(script) {
        Ok(val) => {
            if val != expected {
                panic!("Expected:{:?} Got:{:?}", expected, val);
            }
        }
        Err(err) => panic!("Got runtime error: {:?}", err),
    }
}

fn fails_with(script: &str, tag: ErrorTag) {
    match run(script) {
        Ok(val) => panic!("Expected a failure, got {:?}", val),
        Err(err) => assert_eq!(err.kind.kind_tag(), tag),
    }
}

fn parse_expected_error(script: &str, expected: ParseError) {
    let mut parser = Parser::new();
    let res = parser.parse_program(script).unwrap_err();
    if res != expected {
        panic!("Expected:{:?} Got:{:?}", expected, res);
    }
}

#[test]
fn vm_test_assert1() {
    let program = "
        assert(1, 1)
        ";
    let expected = Value::Nil;
    eval_script(program, expected);
}

#[test]
fn vm_test_if1() {
    let program = "if 5*4==16 +4 then 7; end";
    let expected = Value::FixNum(7);
    eval_script(program, expected);
}

#[test]
fn vm_test_if2() {
    let program = "if
        5*4==16 +4
        7 end";
    let expected = Value::FixNum(7);
    eval_script(program, expected);
}

#[test]
fn vm_test_if3() {
    let program = "if 5*9==16 +4
        7 elsif 4==4+9 then 8 elsif 3==1+2 then 10
        else 12 end";
    let expected = Value::FixNum(10);
    eval_script(program, expected);
}

#[test]
fn vm_test_local_var1() {
    let program = "
            a = 6;
            b = 2;c = 1;
            a/b-c;
        ";
    let expected = Value::FixNum(2);
    eval_script(program, expected);
}

#[test]
fn vm_test_to_i1() {
    let program = "
            '34'.to_i
        ";
    let expected = Value::FixNum(34);
    eval_script(program, expected);
}

#[test]
fn vm_test_to_s1() {
    let program = "
            34.to_s
        ";
    let expected = Value::String("34".to_string());
    eval_script(program, expected);
}

#[test]
fn vm_test_times1() {
    let program = "
            3.times do
              puts('hello')
            end
        ";
    let expected = Value::Nil;
    eval_script(program, expected);
}

#[test]
fn vm_test_times2() {
    let program = "
            3.times do |n|
              puts(n)
            end
        ";
    let expected = Value::Nil;
    eval_script(program, expected);
}

#[test]
fn vm_test_times3() {
    let program = "
            a = 0
            255.times do |n|
              a = a + n
            end
            a
        ";
    let expected = Value::FixNum(32385);
    eval_script(program, expected);
}

#[test]
fn vm_test_times4() {
    let program = "
            a = 0
            b = 0
            24.times do |n|
              b = b + n + a
              a = b
            end

            a
        ";
    let expected = Value::FixNum(16777191);
    eval_script(program, expected);
}

#[test]
fn vm_test_len() {
    let program = "
            [1, 'string', 3, 4].len
        ";
    let expected = Value::FixNum(4);
    eval_script(program, expected);
}

#[test]
fn vm_test_array_index() {
    let program = "
            [1, 'string', 3, 4][1]
        ";
    let expected = Value::String("string".to_string());
    eval_script(program, expected);
}

#[test]
fn literal_before_definition_error() {
    let program = "
            3 class Foo
            end
        ";
    let expected = ParseError::new(ParseErrorKind::LiteralBeforeDefinition, Loc(13, 13));
    parse_expected_error(program, expected);
}

#[test]
fn inner_class_definition_in_method_definion_error() {
    let program = "
            def foo
              class bar
              end
            end
        ";
    let expected =
        ParseError::new(ParseErrorKind::InnerClassDefinitionInMethodDefinition, Loc(13, 15));
    parse_expected_error(program, expected);
}

#[test]
fn scenarios_of_strings_and_arrays() {
    eval_script("34.to_s", Value::String("34".to_string()));
    eval_script("'34'.to_i", Value::FixNum(34));
    eval_script("[1,'s',3,4].len", Value::FixNum(4));
    eval_script("[1,'s',3,4][1]", Value::String("s".to_string()));
    eval_script(
        "if 5*9==16+4\n7 elsif 4==4+9 then 8 elsif 3==1+2 then 10\nelse 12 end",
        Value::FixNum(10),
    );
}

#[test]
fn scope_propagation_through_times() {
    eval_script("a=0; 255.times do |n| a=a+n end; a", Value::FixNum(32385));
}

#[test]
fn program_with_a_recursive_method() {
    let program = "
            def fact(a)
                puts(a)
                if a == 1
                    1
                else
                    a * fact(a-1)
                end
            end

            fact(5)
        ";
    eval_script(program, Value::FixNum(120));
}

#[test]
fn program_with_a_method_that_reads_an_outer_local() {
    let program = "
        a = 1
        def foo
            a
        end
        foo()
        ";
    eval_script(program, Value::FixNum(1));
}

#[test]
fn program_with_three_instances() {
    let program = "
        class Foo
        end
        Foo.new
        Foo.new
        Foo.new
        ";
    eval_script(program, Value::Instance(InstanceRef(2)));
}

#[test]
fn program_with_methods_of_a_class() {
    let program = "
            a = 1
            class Foo
              a = 2
              def bar(b)
                b*2
              end

              def bar2
                a
              end
            end

            assert(Foo.new.bar(5), 10)
            Foo.new.bar2
            ";
    eval_script(program, Value::FixNum(2));
}

#[test]
fn program_with_instance_variables() {
    let program = "
            class Car
              def setName(str)
                @name = str
              end

              def getName
                @name
              end
            end

            car1 = Car.new
            car1.setName('Legacy')

            car2 = Car.new
            car2.setName('XV')
            assert(car2.getName, 'XV')
            assert(car1.getName, 'Legacy')
            car1.instance_variables
        ";
    eval_script(program, Value::Array(vec![Value::String("@name".to_string())]));
}

#[test]
fn program_with_a_class_variable() {
    let program = "
            class Car
              @@class_var = 2

              def set_class_var(i)
                @@class_var = i
              end

              def get_class_var
                @@class_var
              end
            end

            car1 = Car.new
            car1.set_class_var(22222)
            car1.get_class_var
        ";
    eval_script(program, Value::FixNum(22222));
}

#[test]
fn program_with_inheritance() {
    let program = "
          class A
            def twice(x)
              x*2
            end
          end

          class B < A
          end
          B.new.twice(21)
        ";
    eval_script(program, Value::FixNum(42));
}

#[test]
fn program_with_each() {
    let program = "
            v = ['one', 2, 'three', 4]
            n = 0
            v.each do |c|
              puts(c)
              n = n + 1
            end
            n
        ";
    eval_script(program, Value::FixNum(4));
}

#[test]
fn program_with_the_class_of_a_class() {
    let program = "
            class Bar
            end
            Bar.class
        ";
    eval_script(program, Value::SelfClass(Class::Class));
}

#[test]
fn programs_that_fail() {
    fails_with("a", ErrorTag::Name);
    fails_with("Foo", ErrorTag::Name);
    fails_with("foo()", ErrorTag::NoMethod);
    fails_with("1.foo", ErrorTag::NoMethod);
    fails_with("1 + 'a'", ErrorTag::Unimplemented);
    fails_with("1 / 0", ErrorTag::Unreachable);
    fails_with("assert(1, 2)", ErrorTag::Unreachable);
    fails_with("9223372036854775807 + 1", ErrorTag::Unreachable);
}

#[test]
fn negative_numbers_and_parentheses() {
    eval_script("-3", Value::FixNum(-3));
    eval_script("(1 + 2) * 3", Value::FixNum(9));
    eval_script("1 + 2 * 3", Value::FixNum(7));
    eval_script("7 - 2 - 1", Value::FixNum(6));
    eval_script("2 < 3", Value::Bool(true));
    eval_script("3 <= 2", Value::Bool(false));
    eval_script("1 == 1 && 2 == 3", Value::Bool(false));
    eval_script("nil", Value::Nil);
    eval_script("self.class", Value::SelfClass(Class::Class));
    eval_script("\"a\\tb\"", Value::String("a\tb".to_string()));
}

#[test]
fn parse_errors() {
    let kind_of = |script: &str| Parser::new().parse_program(script).unwrap_err().kind;
    assert_eq!(kind_of("1 +"), ParseErrorKind::EOF);
    assert_eq!(kind_of("(1"), ParseErrorKind::UnexpectedToken);
    assert_eq!(kind_of("foo(1"), ParseErrorKind::UnexpectedToken);
    assert_eq!(kind_of("end"), ParseErrorKind::UnexpectedToken);
    assert_eq!(kind_of(";"), ParseErrorKind::UnexpectedToken);
    assert_eq!(kind_of("1.5"), ParseErrorKind::UnexpectedToken);
    assert_eq!(kind_of("'abc"), ParseErrorKind::EOF);
    assert_eq!(kind_of("a = {"), ParseErrorKind::UnexpectedToken);
    assert_eq!(kind_of("x = [1]; [2]"), ParseErrorKind::UnexpectedToken);
    assert_eq!(kind_of("def 1"), ParseErrorKind::UnexpectedToken);
    assert_eq!(kind_of("class foo\nend"), ParseErrorKind::UnexpectedToken);
    assert_eq!(kind_of("if 1 then 2"), ParseErrorKind::UnexpectedToken);
}

#[test]
fn the_tree_of_an_expression() {
    let mut parser = Parser::new();
    let node = parser.parse_program("a = 1 + 2 * 3").unwrap();
    let statements = match node.kind {
        NodeKind::CompStmt(nodes) => nodes,
        other => panic!("{:?}", other),
    };
    assert_eq!(statements.len(), 1);
    assert_eq!(statements[0].loc, Loc(0, 12));
    match &statements[0].kind {
        NodeKind::Assign(lhs, rhs) => {
            assert!(matches!(lhs.kind, NodeKind::Ident(id) if id.0 == 0));
            match &rhs.kind {
                NodeKind::BinOp(BinOp::Add, one, product) => {
                    assert!(matches!(one.kind, NodeKind::Number(1)));
                    assert_eq!(one.loc, Loc(4, 4));
                    assert!(matches!(product.kind, NodeKind::BinOp(BinOp::Mul, _, _)));
                    assert_eq!(product.loc, Loc(8, 12));
                }
                other => panic!("{:?}", other),
            }
        }
        other => panic!("{:?}", other),
    }
    assert_eq!(parser.ident_table.len(), 1);
}

#[test]
fn the_machine_shows_where_a_node_stands() {
    let mut parser = Parser::new();
    let node = parser.parse_program("a = 1\nb = a + 41\n").unwrap();
    let mut vm = VM::new();
    vm.init(parser.lexer.source_info, parser.ident_table, &node).unwrap();
    let second = match &node.kind {
        NodeKind::CompStmt(nodes) => &nodes[1],
        other => panic!("{:?}", other),
    };
    assert_eq!(vm.show_source(second), vec!["b = a + 41".to_string(), "^^^^^^^^^^".to_string()]);
    assert_eq!(vm.eval().unwrap(), Value::FixNum(42));
}

#[test]
fn a_failed_parse_can_be_undone_with_a_copy() {
    let mut parser = Parser::new();
    parser.parse_program("a = 1\n").unwrap();
    let before = parser.clone();
    assert!(parser.parse_program("b = (\n").is_err());
    parser = before;
    let node = parser.parse_program("a + 1\n").unwrap();
    assert!(matches!(node.kind, NodeKind::CompStmt(ref nodes) if nodes.len() == 1));
    assert_eq!(parser.ident_table.len(), 1);
    assert_eq!(parser.lexer.source_info.code.len(), 12);
}

#[test]
fn a_method_starts_with_the_variables_of_its_caller() {
    eval_script("a = 1\ndef foo\n0\nend\na = 2\nfoo()\na", Value::FixNum(2));
    eval_script("def foo\nb\nend\nb = 5\nfoo()", Value::FixNum(5));
    eval_script("a = 1\ndef foo(a)\na = a + 1\nend\nfoo(10)\na", Value::FixNum(11));
    eval_script("def foo(x)\nx\nend\nfoo(3)", Value::FixNum(3));
    fails_with("def foo(x)\nx\nend\nfoo(3)\nx", ErrorTag::Name);
}

#[test]
fn program_with_inheritance_after_other_names() {
    let program = "
          x = 1
          y = 2
          def twice(v)
            0
          end

          class A
            def twice(v)
              v*2
            end
          end

          class B < A
          end
          B.new.twice(21)
        ";
    eval_script(program, Value::FixNum(42));
}

#[test]
fn program_with_undeclared_parent() {
    let program = "
          class B < A
          end
        ";
    fails_with(program, ErrorTag::Name);
}
