use taiko::annot::{Annot, Loc};
use taiko::class::{ClassInfo, ClassRef, GlobalClassTable};
use taiko::inst::{push_be_bytes, read_be_bytes, to_bits, to_signed, Inst};
use taiko::instance::{GlobalInstanceTable, InstanceRef};
use taiko::table::{Builtin, LocalScope, MethodInfo, MethodTable, ValueTable};
use taiko::text::{i64_to_string, parse_i64};
use taiko::token::{Punct, Reserved, Token, TokenKind};
use taiko::util::{IdentId, IdentifierTable, SourceInfo};
use taiko::value::{debug_list, debug_value, Value};

#[test]
fn loc_merge_covers_both_spans() {
    assert_eq!(Loc(3, 5).merge(Loc(1, 4)), Loc(1, 5));
    assert_eq!(Loc(1, 4).merge(Loc(3, 5)), Loc(1, 5));
    assert_eq!(Loc(2, 2).merge(Loc(2, 2)), Loc(2, 2));
    assert_eq!(Loc::new(7, 9), Loc(7, 9));
    let a = Annot::new(5u8, Loc(1, 2));
    assert_eq!(a.loc(), Loc(1, 2));
    assert_eq!(a.kind, 5);
}

#[test]
fn token_constructors_and_predicates() {
    let l = Loc(0, 1);
    assert_eq!(Token::new_ident("a".to_string(), l).kind, TokenKind::Ident("a".to_string()));
    assert_eq!(Token::new_const("A".to_string(), l).kind, TokenKind::Const("A".to_string()));
    assert_eq!(Token::new_reserved(Reserved::If, l).kind, TokenKind::Reserved(Reserved::If));
    assert_eq!(Token::new_numlit(3, l).kind, TokenKind::NumLit(3));
    assert_eq!(Token::new_stringlit("s".to_string(), l).kind, TokenKind::StringLit("s".to_string()));
    assert_eq!(Token::new_punct(Punct::Plus, l).kind, TokenKind::Punct(Punct::Plus));
    assert_eq!(Token::new_string(l).kind, TokenKind::String);
    assert!(Token::new_space(l).is_space());
    assert!(!Token::new_line(l).is_space());
    assert!(Token::new_line(l).is_line_term());
    assert!(Token::new_comment(l).is_comment());
    assert!(!Token::new_punct(Punct::Semi, l).is_comment());
    assert!(Token::new_eof(l).is_eof());
    assert!(Token::new_eof(l).is_term());
    assert!(Token::new_line(l).is_term());
    assert!(Token::new_punct(Punct::Semi, l).is_term());
    assert!(!Token::new_punct(Punct::Comma, l).is_term());
    assert!(!Token::new_space(l).is_term());
    assert_eq!(Token::new_eof(l).loc(), l);
}

#[test]
fn identifiers_are_numbered_in_order_of_first_appearance() {
    let mut t = IdentifierTable::new();
    assert_eq!(t.get_ident_id("a"), IdentId(0));
    assert_eq!(t.get_ident_id("b"), IdentId(1));
    assert_eq!(t.get_ident_id("a"), IdentId(0));
    assert_eq!(t.get_ident_id(""), IdentId(2));
    assert_eq!(t.len(), 3);
    assert_eq!(t.get_name(IdentId(1)), "b");
    assert!(t.has_id(IdentId(2)));
    assert!(!t.has_id(IdentId(3)));
    let mut copy = t.clone();
    assert_eq!(copy.get_ident_id("b"), IdentId(1));
    assert_eq!(copy.get_ident_id("c"), IdentId(3));
    assert_eq!(t.len(), 3);
    assert_eq!(IdentifierTable::default().len(), 0);
}

#[test]
fn a_span_is_shown_below_its_line() {
    let mut info = SourceInfo::new();
    info.code = "a = 1\nbb = cc\n".chars().collect();
    info.coordinates = vec![(0, 5, 0), (6, 13, 1), (14, 14, 2)];
    assert_eq!(info.show_loc(&Loc(11, 12)), vec!["bb = cc".to_string(), "     ^^".to_string()]);
    assert_eq!(
        info.show_loc(&Loc(4, 7)),
        vec!["a = 1".to_string(), "    ^^".to_string(), "bb = cc".to_string(), "^^".to_string()]
    );
    assert_eq!(info.show_loc(&Loc(0, 0)), vec!["a = 1".to_string(), "^".to_string()]);
    assert!(info.show_loc(&Loc(20, 30)).is_empty());
    assert!(info.show_loc(&Loc(3, 2)).is_empty());
    info.coordinates = vec![(0, 50, 0)];
    assert!(info.show_loc(&Loc(0, 1)).is_empty());
}

#[test]
fn source_info_starts_empty() {
    let s = SourceInfo::new();
    assert!(s.code.is_empty());
    assert!(s.coordinates.is_empty());
}

#[test]
fn numbers_are_encoded_most_significant_byte_first() {
    let mut buf = vec![9u8];
    push_be_bytes(&mut buf, 0x0102_0304_0506_0708);
    assert_eq!(buf, vec![9, 1, 2, 3, 4, 5, 6, 7, 8]);
    assert_eq!(read_be_bytes(&buf, 1), 0x0102_0304_0506_0708);
    assert_eq!(to_bits(-1), u64::MAX);
    assert_eq!(to_bits(i64::MIN), 0x8000_0000_0000_0000);
    assert_eq!(to_bits(5), 5);
    assert_eq!(to_signed(u64::MAX), -1);
    assert_eq!(to_signed(0x8000_0000_0000_0000), i64::MIN);
    assert_eq!(to_signed(0x7fff_ffff_ffff_ffff), i64::MAX);
    assert_eq!(Inst::END, 255);
    assert_eq!(Inst::SEND, 10);
}

#[test]
fn decimal_text_of_integers() {
    assert_eq!(i64_to_string(0), "0");
    assert_eq!(i64_to_string(34), "34");
    assert_eq!(i64_to_string(-120), "-120");
    assert_eq!(i64_to_string(i64::MAX), "9223372036854775807");
    assert_eq!(i64_to_string(i64::MIN), "-9223372036854775808");
    for n in [0i64, 7, -7, 1000, i64::MIN, i64::MAX] {
        assert_eq!(i64_to_string(n), n.to_string());
        assert_eq!(parse_i64(&n.to_string()), Some(n));
    }
}

#[test]
fn reading_integers_agrees_with_the_standard_library() {
    for s in [
        "", "+", "-", "0", "-0", "+0", "007", "12a", "a12", " 1", "1 ", "--1", "+-1", "1_000",
        "9223372036854775807", "9223372036854775808", "-9223372036854775808",
        "-9223372036854775809", "99999999999999999999", "٣",
    ] {
        assert_eq!(parse_i64(s), s.parse::<i64>().ok(), "{:?}", s);
    }
}

#[test]
fn value_conversions() {
    assert_eq!(Value::FixNum(5).value(), 5);
    assert_eq!(Value::Nil.value(), 0);
    assert_eq!(Value::FixNum(5).ident(), IdentId(5));
    assert_eq!(Value::FixNum(5).option_ident(), Some(IdentId(5)));
    assert_eq!(Value::Nil.option_ident(), None);
    assert_eq!(Value::FixNum(5).usize(), 5);
    assert_eq!(Value::Nil.usize(), 0);
    assert_eq!(Value::FixNum(-1).usize(), usize::MAX);
    assert!(Value::Bool(true).bool());
    assert!(!Value::Nil.to_b());
    assert!(Value::FixNum(1).to_b());
    assert!(!Value::FixNum(0).to_b());
    assert!(!Value::FixNum(-1).to_b());
    assert!(Value::String(String::new()).to_b());
    assert_eq!(Value::String("34".to_string()).to_i(), 34);
    assert_eq!(Value::Class(ClassRef(1)).to_class(), taiko::class::Class::Class);
    assert_eq!(Value::Instance(InstanceRef(1)).to_class(), taiko::class::Class::Instance);
    assert_eq!(Value::FixDecimalNum(0).to_class(), taiko::class::Class::FixDecimalNum);
    let range = Value::Range(Box::new(Value::FixNum(9)), Box::new(Value::FixNum(2)));
    assert_eq!(range.range(), (2, 9));
    assert_eq!(ClassRef(3).to_val(), Value::Class(ClassRef(3)));
}

#[test]
fn values_are_equal_when_they_stand_for_the_same() {
    let a = Value::Array(vec![Value::FixNum(1), Value::String("s".to_string())]);
    let b = a.clone();
    assert_eq!(a, b);
    assert_ne!(a, Value::Array(vec![Value::FixNum(1)]));
    assert_ne!(a, Value::Array(vec![Value::FixNum(1), Value::String("t".to_string())]));
    assert_ne!(Value::Nil, Value::Bool(false));
    assert_ne!(Value::Class(ClassRef(1)), Value::Instance(InstanceRef(1)));
    assert_eq!(
        Value::Range(Box::new(Value::FixNum(1)), Box::new(Value::Nil)),
        Value::Range(Box::new(Value::FixNum(1)), Box::new(Value::Nil))
    );
}

#[test]
fn tables_keep_what_was_put_in() {
    let mut t = ValueTable::new();
    assert_eq!(t.get(1), None);
    assert!(!t.contains_key(1));
    t.insert(1, Value::FixNum(10));
    t.insert(2, Value::FixNum(20));
    t.insert(1, Value::FixNum(11));
    assert_eq!(t.get(1), Some(Value::FixNum(11)));
    assert_eq!(t.get(2), Some(Value::FixNum(20)));
    let mut keys = t.keys();
    keys.sort();
    assert_eq!(keys, vec![1, 2]);
    let mut copy = t.clone();
    copy.insert(3, Value::Nil);
    assert!(!t.contains_key(3));
    assert_eq!(copy.get(1), Some(Value::FixNum(11)));
}

#[test]
fn copy_back_changes_shared_names_only() {
    let mut outer = ValueTable::new();
    outer.insert(1, Value::FixNum(1));
    outer.insert(2, Value::FixNum(2));
    let mut inner = ValueTable::new();
    inner.insert(2, Value::FixNum(22));
    inner.insert(3, Value::FixNum(33));
    outer.copy_back_from(&inner);
    assert_eq!(outer.get(1), Some(Value::FixNum(1)));
    assert_eq!(outer.get(2), Some(Value::FixNum(22)));
    assert_eq!(outer.get(3), None);
}

#[test]
fn overlay_takes_every_binding_of_the_other_table() {
    let mut base = ValueTable::new();
    base.insert(1, Value::FixNum(1));
    base.insert(2, Value::FixNum(2));
    let mut top = ValueTable::new();
    top.insert(2, Value::FixNum(22));
    top.insert(3, Value::FixNum(33));
    base.overlay(&top);
    assert_eq!(base.get(1), Some(Value::FixNum(1)));
    assert_eq!(base.get(2), Some(Value::FixNum(22)));
    assert_eq!(base.get(3), Some(Value::FixNum(33)));
}

#[test]
fn a_propagated_scope_starts_with_the_outer_variables() {
    let mut outer = LocalScope::new();
    outer.lvar_table.insert(1, Value::FixNum(1));
    let mut inner = outer.propagate();
    assert_eq!(inner.lvar_table.get(1), Some(Value::FixNum(1)));
    assert_eq!(inner.propagated_table.get(1), Some(Value::FixNum(1)));
    inner.lvar_table.insert(1, Value::FixNum(2));
    assert_eq!(outer.lvar_table.get(1), Some(Value::FixNum(1)));
    assert_eq!(inner.propagated_table.get(1), Some(Value::FixNum(1)));
}

#[test]
fn method_tables_and_class_records() {
    let mut m = MethodTable::new();
    assert!(m.get(1).is_none());
    let builtin = || MethodInfo::BuiltinFunc { name: "len".to_string(), func: Builtin::Len };
    assert!(m.insert(1, builtin()).is_none());
    assert!(m.insert(1, builtin()).is_some());
    assert!(m.contains_key(1));
    let mut classes = GlobalClassTable::new();
    let a = classes.new_class(IdentId(7), "A".to_string(), 3);
    let b = classes.new_class(IdentId(8), "B".to_string(), 4);
    assert_eq!(a, ClassRef(0));
    assert_eq!(b, ClassRef(1));
    assert!(classes.contains(b));
    assert!(!classes.contains(ClassRef(2)));
    assert_eq!(classes.get(b).name, "B");
    assert_eq!(classes.get(b).ptr, 4);
    classes.get_mut(a).add_parent(IdentId(1), ClassRef(2));
    assert!(classes.get_mut(a).add_class_method(IdentId(5), builtin()).is_none());
    assert!(classes.get(a).class_method_table.contains_key(5));
    assert!(!classes.get(b).class_method_table.contains_key(5));
    assert_eq!(classes.get(a).subclass.get(&1), Some(&ClassRef(2)));
    let info = ClassInfo::new(IdentId(1), "C".to_string(), 0);
    assert_eq!(info.id, IdentId(1));
    let mut instances = GlobalInstanceTable::new();
    let mut vars = ValueTable::new();
    vars.insert(1, Value::FixNum(1));
    let i = instances.new_instance(a, "A".to_string(), vars);
    let j = instances.new_instance(a, "A".to_string(), ValueTable::new());
    assert_eq!(i, InstanceRef(0));
    assert_eq!(j, InstanceRef(1));
    instances.get_mut(j).instance_var.insert(2, Value::Nil);
    assert_eq!(instances.get(i).instance_var.get(1), Some(Value::FixNum(1)));
    assert_eq!(instances.get(i).instance_var.get(2), None);
    assert_eq!(instances.get(j).class_id, a);
    assert!(!instances.contains(InstanceRef(2)));
}

#[test]
fn debug_text_is_that_of_the_formatter() {
    let values = vec![
        Value::Nil,
        Value::Bool(true),
        Value::Bool(false),
        Value::FixNum(-3),
        Value::FixNum(i64::MIN),
        Value::FixDecimalNum(7),
        Value::String("a\"b\n\t\\ \u{e9}\u{0}".to_string()),
        Value::Class(ClassRef(2)),
        Value::Instance(InstanceRef(3)),
        Value::SelfClass(taiko::class::Class::FixDecimalNum),
        Value::Array(vec![Value::FixNum(1), Value::Array(vec![]), Value::String("s".to_string())]),
        Value::Range(Box::new(Value::FixNum(1)), Box::new(Value::Nil)),
    ];
    for v in &values {
        assert_eq!(debug_value(v), format!("{:?}", v));
    }
    assert_eq!(debug_list(&values), format!("{:?}", values));
    assert_eq!(debug_list(&vec![]), "[]");
}
