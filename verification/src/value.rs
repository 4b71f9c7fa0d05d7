//! The values that programs compute with.

use crate::class::{Class, ClassRef};
use crate::instance::InstanceRef;
use crate::text::{i64_to_string, int_text, parse_i64, parse_i64_spec, u64_to_string};
use crate::util::IdentId;
use vstd::prelude::*;

verus! {

/// A value of the language. A decimal number is held as the bit pattern of
/// its 64-bit IEEE 754 representation.
#[derive(Debug)]
pub enum Value {
    Nil,
    Bool(bool),
    FixNum(i64),
    FixDecimalNum(u64),
    String(String),
    Class(ClassRef),
    Instance(InstanceRef),
    SelfClass(Class),
    Array(Vec<Value>),
    Range(Box<Value>, Box<Value>),
}

/// What a [`Value`] stands for: strings by their characters, arrays by
/// their elements.
pub enum ValueView {
    Nil,
    Bool(bool),
    FixNum(i64),
    FixDecimalNum(u64),
    String(Seq<char>),
    Class(usize),
    Instance(usize),
    SelfClass(Class),
    Array(Seq<ValueView>),
    Range(Box<ValueView>, Box<ValueView>),
}

/// What a value stands for.
pub open spec fn value_view(v: Value) -> ValueView
    decreases v,
{
    match v {
        Value::Nil => ValueView::Nil,
        Value::Bool(b) => ValueView::Bool(b),
        Value::FixNum(n) => ValueView::FixNum(n),
        Value::FixDecimalNum(bits) => ValueView::FixDecimalNum(bits),
        Value::String(s) => ValueView::String(s@),
        Value::Class(c) => ValueView::Class(c.0),
        Value::Instance(i) => ValueView::Instance(i.0),
        Value::SelfClass(c) => ValueView::SelfClass(c),
        Value::Array(items) => ValueView::Array(values_view(items@)),
        Value::Range(a, b) => ValueView::Range(Box::new(value_view(*a)), Box::new(value_view(*b))),
    }
}

/// What each value of a sequence stands for.
pub open spec fn values_view(s: Seq<Value>) -> Seq<ValueView>
    decreases s,
{
    Seq::new(
        s.len(),
        |i: int|
            if 0 <= i < s.len() {
                value_view(s[i])
            } else {
                ValueView::Nil
            },
    )
}

impl View for Value {
    type V = ValueView;

    open spec fn view(&self) -> ValueView {
        value_view(*self)
    }
}

/// A sequence of values stands for what its members stand for.
pub proof fn lemma_values_view(s: Seq<Value>)
    ensures
        values_view(s).len() == s.len(),
        forall|i: int| 0 <= i < s.len() ==> #[trigger] values_view(s)[i] == s[i]@,
{
}

pub proof fn lemma_values_view_push(s: Seq<Value>, v: Value)
    ensures
        values_view(s.push(v)) == values_view(s).push(v@),
{
    lemma_values_view(s);
    lemma_values_view(s.push(v));
    assert(values_view(s.push(v)) =~= values_view(s).push(v@));
}

pub proof fn lemma_values_view_drop_last(s: Seq<Value>)
    requires
        s.len() > 0,
    ensures
        values_view(s.drop_last()) == values_view(s).drop_last(),
{
    lemma_values_view(s);
    lemma_values_view(s.drop_last());
    assert(values_view(s.drop_last()) =~= values_view(s).drop_last());
}

/// The text that the formatter writes for a string with `{:?}`: the
/// string between double quotes, with escapes.
pub uninterp spec fn str_debug_text(s: Seq<char>) -> Seq<char>;

/// `format!("{:?}", s)` for a string: its debug text, which depends on its
/// characters alone.
#[verifier::external_body]
pub(crate) fn debug_str(s: &String) -> (r: String)
    ensures
        r@ == str_debug_text(s@),
{
    format!("{:?}", s)
}

/// The name of a kind of value.
pub open spec fn class_text(c: Class) -> Seq<char> {
    match c {
        Class::Nil => "Nil"@,
        Class::Bool => "Bool"@,
        Class::FixNum => "FixNum"@,
        Class::FixDecimalNum => "FixDecimalNum"@,
        Class::String => "String"@,
        Class::Class => "Class"@,
        Class::Instance => "Instance"@,
    }
}

/// The name of a kind of value.
pub fn class_name(c: Class) -> (r: String)
    ensures
        r@ == class_text(c),
{
    match c {
        Class::Nil => "Nil".to_owned(),
        Class::Bool => "Bool".to_owned(),
        Class::FixNum => "FixNum".to_owned(),
        Class::FixDecimalNum => "FixDecimalNum".to_owned(),
        Class::String => "String".to_owned(),
        Class::Class => "Class".to_owned(),
        Class::Instance => "Instance".to_owned(),
    }
}

/// The debug text of a value: the name of its variant and, in
/// parentheses, what it holds.
pub open spec fn debug_text(v: ValueView) -> Seq<char>
    decreases v,
{
    match v {
        ValueView::Nil => "Nil"@,
        ValueView::Bool(b) => "Bool("@ + (if b { "true"@ } else { "false"@ }) + ")"@,
        ValueView::FixNum(n) => "FixNum("@ + int_text(n as int) + ")"@,
        ValueView::FixDecimalNum(bits) => "FixDecimalNum("@ + int_text(bits as int) + ")"@,
        ValueView::String(s) => "String("@ + str_debug_text(s) + ")"@,
        ValueView::Class(c) => "Class(ClassRef("@ + int_text(c as int) + "))"@,
        ValueView::Instance(i) => "Instance(InstanceRef("@ + int_text(i as int) + "))"@,
        ValueView::SelfClass(c) => "SelfClass("@ + class_text(c) + ")"@,
        ValueView::Array(items) => "Array("@ + list_debug_text(items) + ")"@,
        ValueView::Range(a, b) => "Range("@ + debug_text(*a) + ", "@ + debug_text(*b) + ")"@,
    }
}

/// The debug texts of the first `n` of `items`, separated by `, `.
pub open spec fn joined_debug_text(items: Seq<ValueView>, n: nat) -> Seq<char>
    decreases items, n,
{
    if n == 0 || n > items.len() {
        Seq::empty()
    } else if n == 1 {
        debug_text(items[0])
    } else {
        joined_debug_text(items, (n - 1) as nat) + ", "@ + debug_text(items[n - 1])
    }
}

/// The debug text of a list of values: the debug texts of the values
/// between brackets, separated by `, `.
pub open spec fn list_debug_text(items: Seq<ValueView>) -> Seq<char>
    decreases items, items.len() + 1,
{
    "["@ + joined_debug_text(items, items.len()) + "]"@
}

/// The debug text of a value.
#[verifier::loop_isolation(false)]
pub fn debug_value(v: &Value) -> (r: String)
    ensures
        r@ == debug_text(v@),
    decreases v,
{
    match v {
        Value::Nil => "Nil".to_owned(),
        Value::Bool(b) => {
            let mut s: String = "Bool(".to_owned();
            if *b {
                s.append("true");
            } else {
                s.append("false");
            }
            s.append(")");
            s
        },
        Value::FixNum(n) => {
            let mut s: String = "FixNum(".to_owned();
            s.append(i64_to_string(*n).as_str());
            s.append(")");
            s
        },
        Value::FixDecimalNum(bits) => {
            let mut s: String = "FixDecimalNum(".to_owned();
            s.append(u64_to_string(*bits).as_str());
            s.append(")");
            s
        },
        Value::String(text) => {
            let mut s: String = "String(".to_owned();
            s.append(debug_str(text).as_str());
            s.append(")");
            s
        },
        Value::Class(c) => {
            let mut s: String = "Class(ClassRef(".to_owned();
            s.append(u64_to_string(c.0 as u64).as_str());
            s.append("))");
            s
        },
        Value::Instance(i) => {
            let mut s: String = "Instance(InstanceRef(".to_owned();
            s.append(u64_to_string(i.0 as u64).as_str());
            s.append("))");
            s
        },
        Value::SelfClass(c) => {
            let mut s: String = "SelfClass(".to_owned();
            s.append(class_name(*c).as_str());
            s.append(")");
            s
        },
        Value::Array(items) => {
            let mut s: String = "Array(".to_owned();
            s.append(debug_list(items).as_str());
            s.append(")");
            s
        },
        Value::Range(a, b) => {
            let mut s: String = "Range(".to_owned();
            s.append(debug_value(a).as_str());
            s.append(", ");
            s.append(debug_value(b).as_str());
            s.append(")");
            s
        },
    }
}

/// The debug text of a list of values.
#[verifier::loop_isolation(false)]
pub fn debug_list(items: &Vec<Value>) -> (r: String)
    ensures
        r@ == list_debug_text(values_view(items@)),
    decreases items,
{
    let ghost views = values_view(items@);
    proof {
        lemma_values_view(items@);
    }
    let mut s: String = "[".to_owned();
    let ghost open = s@;
    let mut i: usize = 0;
    assert(s@ =~= open + joined_debug_text(views, 0));
    while i < items.len()
        invariant
            i <= items.len(),
            s@ == open + joined_debug_text(views, i as nat),
        decreases items.len() - i,
    {
        proof {
            vstd::std_specs::vec::axiom_vec_index_decreases(*items, i as int);
        }
        if i > 0 {
            s.append(", ");
        }
        s.append(debug_value(&items[i]).as_str());
        assert(s@ =~= open + joined_debug_text(views, (i + 1) as nat));
        i += 1;
    }
    s.append("]");
    assert(s@ =~= list_debug_text(views));
    s
}

/// Whether a value counts as true in a condition, for the values that can
/// stand in one.
pub open spec fn truthy(v: ValueView) -> Option<bool> {
    match v {
        ValueView::Nil => Some(false),
        ValueView::Bool(b) => Some(b),
        ValueView::FixNum(n) => Some(n > 0),
        ValueView::String(_) => Some(true),
        _ => None,
    }
}

/// The kind of a value, for the values that the builtin `class` knows.
pub open spec fn class_of(v: ValueView) -> Option<Class> {
    match v {
        ValueView::Nil => Some(Class::Nil),
        ValueView::Bool(_) => Some(Class::Bool),
        ValueView::FixNum(_) => Some(Class::FixNum),
        ValueView::FixDecimalNum(_) => Some(Class::FixDecimalNum),
        ValueView::String(_) => Some(Class::String),
        ValueView::Class(_) => Some(Class::Class),
        ValueView::Instance(_) => Some(Class::Instance),
        _ => None,
    }
}

/// The machine word that a 64-bit number is read as where a handle, an
/// identifier or a length is expected: the number itself where it fits, and
/// its bit pattern cut to the width of a word otherwise.
pub open spec fn word_of(n: i64) -> usize {
    let bits = crate::inst::bits_of(n);
    if bits <= usize::MAX {
        bits as usize
    } else {
        (bits as int % (usize::MAX as int + 1)) as usize
    }
}

/// The word that a stack slot holds: a number's word, or 0 for nil.
pub open spec fn slot_word(v: ValueView) -> Option<usize> {
    match v {
        ValueView::FixNum(n) => Some(word_of(n)),
        ValueView::Nil => Some(0),
        _ => None,
    }
}

pub fn to_word(n: i64) -> (r: usize)
    ensures
        r == word_of(n),
{
    let bits: u64 = crate::inst::to_bits(n);
    if bits <= usize::MAX as u64 {
        bits as usize
    } else {
        (bits % (usize::MAX as u64 + 1)) as usize
    }
}

/// A deep copy.
#[verifier::loop_isolation(false)]
pub fn clone_value(v: &Value) -> (r: Value)
    ensures
        r@ == v@,
    decreases v,
{
    match v {
        Value::Nil => Value::Nil,
        Value::Bool(b) => Value::Bool(*b),
        Value::FixNum(n) => Value::FixNum(*n),
        Value::FixDecimalNum(bits) => Value::FixDecimalNum(*bits),
        Value::String(s) => Value::String(s.clone()),
        Value::Class(c) => Value::Class(*c),
        Value::Instance(i) => Value::Instance(*i),
        Value::SelfClass(c) => Value::SelfClass(*c),
        Value::Array(items) => {
            let mut out: Vec<Value> = Vec::new();
            let mut i: usize = 0;
            while i < items.len()
                invariant
                    i <= items.len(),
                    out.len() == i,
                    forall|j: int| 0 <= j < i ==> out@[j]@ == items@[j]@,
                decreases items.len() - i,
            {
                proof {
                    vstd::std_specs::vec::axiom_vec_index_decreases(*items, i as int);
                }
                out.push(clone_value(&items[i]));
                i += 1;
            }
            let r = Value::Array(out);
            proof {
                lemma_values_view(out@);
                lemma_values_view(items@);
            }
            assert(values_view(out@) =~= values_view(items@));
            r
        },
        Value::Range(a, b) => Value::Range(Box::new(clone_value(a)), Box::new(clone_value(b))),
    }
}

/// A copy of each value, in order.
pub fn clone_values(items: &Vec<Value>) -> (r: Vec<Value>)
    ensures
        values_view(r@) == values_view(items@),
{
    let mut out: Vec<Value> = Vec::new();
    let mut i: usize = 0;
    while i < items.len()
        invariant
            i <= items.len(),
            out.len() == i,
            forall|j: int| 0 <= j < i ==> out@[j]@ == items@[j]@,
        decreases items.len() - i,
    {
        out.push(clone_value(&items[i]));
        i += 1;
    }
    proof {
        lemma_values_view(out@);
        lemma_values_view(items@);
    }
    assert(values_view(out@) =~= values_view(items@));
    out
}

/// Whether two values stand for the same thing. Decimal numbers are equal
/// when their bit patterns are.
#[verifier::loop_isolation(false)]
pub fn value_eq(a: &Value, b: &Value) -> (r: bool)
    ensures
        r == (a@ == b@),
    decreases a,
{
    match a {
        Value::Nil => match b {
            Value::Nil => true,
            _ => false,
        },
        Value::Bool(x) => match b {
            Value::Bool(y) => *x == *y,
            _ => false,
        },
        Value::FixNum(x) => match b {
            Value::FixNum(y) => *x == *y,
            _ => false,
        },
        Value::FixDecimalNum(x) => match b {
            Value::FixDecimalNum(y) => *x == *y,
            _ => false,
        },
        Value::String(x) => match b {
            Value::String(y) => *x == *y,
            _ => false,
        },
        Value::Class(x) => match b {
            Value::Class(y) => x.0 == y.0,
            _ => false,
        },
        Value::Instance(x) => match b {
            Value::Instance(y) => x.0 == y.0,
            _ => false,
        },
        Value::SelfClass(x) => match b {
            Value::SelfClass(y) => *x == *y,
            _ => false,
        },
        Value::Array(x) => match b {
            Value::Array(y) => {
                proof {
                    lemma_values_view(x@);
                    lemma_values_view(y@);
                }
                if x.len() != y.len() {
                    return false;
                }
                let mut i: usize = 0;
                while i < x.len()
                    invariant
                        i <= x.len(),
                        x.len() == y.len(),
                        forall|j: int| 0 <= j < i ==> x@[j]@ == y@[j]@,
                    decreases x.len() - i,
                {
                    proof {
                        vstd::std_specs::vec::axiom_vec_index_decreases(*x, i as int);
                    }
                    if !value_eq(&x[i], &y[i]) {
                        assert(values_view(x@)[i as int] != values_view(y@)[i as int]);
                        return false;
                    }
                    i += 1;
                }
                assert(values_view(x@) =~= values_view(y@));
                true
            },
            _ => false,
        },
        Value::Range(x0, x1) => match b {
            Value::Range(y0, y1) => value_eq(x0, y0) && value_eq(x1, y1),
            _ => false,
        },
    }
}

impl Clone for Value {
    fn clone(&self) -> (r: Self)
        ensures
            r@ == self@,
    {
        clone_value(self)
    }
}

impl PartialEq for Value {
    fn eq(&self, other: &Self) -> (r: bool) {
        value_eq(self, other)
    }
}

impl vstd::std_specs::cmp::PartialEqSpecImpl for Value {
    open spec fn obeys_eq_spec() -> bool {
        true
    }

    open spec fn eq_spec(&self, other: &Self) -> bool {
        self@ == other@
    }
}

impl Value {
    /// The number in a stack slot; nil counts as 0.
    pub fn value(&self) -> (r: i64)
        requires
            self is FixNum || self is Nil,
        ensures
            r == (if self is FixNum { self->FixNum_0 } else { 0 }),
    {
        match self {
            Value::FixNum(num) => *num,
            _ => 0,
        }
    }

    /// The identifier in a stack slot, or none for nil.
    pub fn option_ident(&self) -> (r: Option<IdentId>)
        requires
            self is FixNum || self is Nil,
        ensures
            r == (if self is FixNum { Some(IdentId(word_of(self->FixNum_0))) } else { None }),
    {
        match self {
            Value::FixNum(num) => Some(IdentId(to_word(*num))),
            _ => None,
        }
    }

    /// The identifier in a stack slot.
    pub fn ident(&self) -> (r: IdentId)
        requires
            self is FixNum,
        ensures
            r == IdentId(word_of(self->FixNum_0)),
    {
        match self {
            Value::FixNum(num) => IdentId(to_word(*num)),
            _ => IdentId(0),
        }
    }

    /// The word in a stack slot; nil counts as 0.
    pub fn usize(&self) -> (r: usize)
        requires
            self is FixNum || self is Nil,
        ensures
            Some(r) == slot_word(self@),
    {
        match self {
            Value::FixNum(num) => to_word(*num),
            _ => 0,
        }
    }

    pub fn bool(&self) -> (r: bool)
        requires
            self is Bool,
        ensures
            r == self->Bool_0,
    {
        match self {
            Value::Bool(b) => *b,
            _ => false,
        }
    }

    /// The two ends of a range of numbers, the second one first.
    pub fn range(&self) -> (r: (i64, i64))
        requires
            self is Range,
            *(self->Range_0) is FixNum,
            *(self->Range_1) is FixNum,
        ensures
            r == ((*(self->Range_1))->FixNum_0, (*(self->Range_0))->FixNum_0),
    {
        match self {
            Value::Range(e, s) => {
                let first: i64 = e.value();
                let second: i64 = s.value();
                (second, first)
            },
            _ => (0, 0),
        }
    }

    /// Whether the value counts as true in a condition.
    pub fn to_b(&self) -> (r: bool)
        requires
            truthy(self@) is Some,
        ensures
            Some(r) == truthy(self@),
    {
        match self {
            Value::Nil => false,
            Value::Bool(b) => *b,
            Value::FixNum(n) => *n > 0,
            _ => true,
        }
    }

    /// The number that a string spells.
    pub fn to_i(&self) -> (r: i64)
        requires
            self is String,
            parse_i64_spec(self->String_0@) is Some,
        ensures
            Some(r) == parse_i64_spec(self->String_0@),
    {
        match self {
            Value::String(s) => match parse_i64(s.as_str()) {
                Some(i) => i,
                None => 0,
            },
            _ => 0,
        }
    }

    /// The kind of the value.
    pub fn to_class(&self) -> (r: Class)
        requires
            class_of(self@) is Some,
        ensures
            Some(r) == class_of(self@),
    {
        match self {
            Value::Nil => Class::Nil,
            Value::Bool(_) => Class::Bool,
            Value::FixNum(_) => Class::FixNum,
            Value::FixDecimalNum(_) => Class::FixDecimalNum,
            Value::String(_) => Class::String,
            Value::Class(_) => Class::Class,
            _ => Class::Instance,
        }
    }
}

} // verus!
