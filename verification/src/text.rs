//! Decimal text of integers, both ways.

use vstd::prelude::*;

verus! {

/// `String::from_iter` over the characters of `v`: the string that holds
/// exactly those characters, in order.
#[verifier::external_body]
pub(crate) fn string_from_chars(v: &Vec<char>) -> (r: String)
    ensures
        r@ == v@,
{
    v.iter().collect()
}

/// The character of a decimal digit.
pub open spec fn digit_char(d: int) -> char {
    if d == 0 {
        '0'
    } else if d == 1 {
        '1'
    } else if d == 2 {
        '2'
    } else if d == 3 {
        '3'
    } else if d == 4 {
        '4'
    } else if d == 5 {
        '5'
    } else if d == 6 {
        '6'
    } else if d == 7 {
        '7'
    } else if d == 8 {
        '8'
    } else {
        '9'
    }
}

/// The value of a decimal digit, if `c` is one.
pub open spec fn digit_value(c: char) -> Option<int> {
    if c == '0' {
        Some(0)
    } else if c == '1' {
        Some(1)
    } else if c == '2' {
        Some(2)
    } else if c == '3' {
        Some(3)
    } else if c == '4' {
        Some(4)
    } else if c == '5' {
        Some(5)
    } else if c == '6' {
        Some(6)
    } else if c == '7' {
        Some(7)
    } else if c == '8' {
        Some(8)
    } else if c == '9' {
        Some(9)
    } else {
        None
    }
}

/// The decimal digits of `n`, without leading zeros; `"0"` for zero.
pub open spec fn digits(n: nat) -> Seq<char>
    decreases n,
{
    if n < 10 {
        seq![digit_char(n as int)]
    } else {
        digits(n / 10).push(digit_char((n % 10) as int))
    }
}

/// The decimal text of `n`, with `-` in front of a negative number.
pub open spec fn int_text(n: int) -> Seq<char> {
    if n < 0 {
        seq!['-'] + digits((-n) as nat)
    } else {
        digits(n as nat)
    }
}

/// The number that the digits `s` spell, if all of `s` are digits.
/// The empty text spells zero.
pub open spec fn digits_value(s: Seq<char>) -> Option<nat>
    decreases s.len(),
{
    if s.len() == 0 {
        Some(0)
    } else {
        match (digits_value(s.drop_last()), digit_value(s.last())) {
            (Some(v), Some(d)) => Some((v * 10 + d) as nat),
            _ => None,
        }
    }
}

/// The integer that `s` spells: an optional sign, then at least one digit.
pub open spec fn parse_int(s: Seq<char>) -> Option<int> {
    if s.len() == 0 {
        None
    } else if s[0] == '-' || s[0] == '+' {
        if s.len() == 1 {
            None
        } else {
            match digits_value(s.subrange(1, s.len() as int)) {
                Some(v) => Some(if s[0] == '-' { -(v as int) } else { v as int }),
                None => None,
            }
        }
    } else {
        match digits_value(s) {
            Some(v) => Some(v as int),
            None => None,
        }
    }
}

/// The 64-bit integer that `s` spells, if it spells one that fits.
pub open spec fn parse_i64_spec(s: Seq<char>) -> Option<i64> {
    match parse_int(s) {
        Some(v) => if i64::MIN <= v <= i64::MAX { Some(v as i64) } else { None },
        None => None,
    }
}

fn digit_of(d: u64) -> (r: char)
    requires
        d < 10,
    ensures
        r == digit_char(d as int),
{
    if d == 0 {
        '0'
    } else if d == 1 {
        '1'
    } else if d == 2 {
        '2'
    } else if d == 3 {
        '3'
    } else if d == 4 {
        '4'
    } else if d == 5 {
        '5'
    } else if d == 6 {
        '6'
    } else if d == 7 {
        '7'
    } else if d == 8 {
        '8'
    } else {
        '9'
    }
}

fn value_of_digit(c: char) -> (r: Option<u64>)
    ensures
        match r {
            Some(d) => digit_value(c) == Some(d as int) && d < 10,
            None => digit_value(c) is None,
        },
{
    if c == '0' {
        Some(0)
    } else if c == '1' {
        Some(1)
    } else if c == '2' {
        Some(2)
    } else if c == '3' {
        Some(3)
    } else if c == '4' {
        Some(4)
    } else if c == '5' {
        Some(5)
    } else if c == '6' {
        Some(6)
    } else if c == '7' {
        Some(7)
    } else if c == '8' {
        Some(8)
    } else if c == '9' {
        Some(9)
    } else {
        None
    }
}

/// Appends the decimal digits of `n` to `out`.
fn push_digits(out: &mut Vec<char>, n: u64)
    ensures
        final(out)@ == old(out)@ + digits(n as nat),
    decreases n,
{
    if n < 10 {
        out.push(digit_of(n));
        assert(out@ =~= old(out)@ + digits(n as nat));
    } else {
        push_digits(out, n / 10);
        out.push(digit_of(n % 10));
        assert(out@ =~= old(out)@ + digits(n as nat));
    }
}

/// The decimal characters of `n`.
pub fn i64_to_chars(n: i64) -> (r: Vec<char>)
    ensures
        r@ == int_text(n as int),
{
    let mut out: Vec<char> = Vec::new();
    if n < 0 {
        out.push('-');
        let mag: u64 = ((-(n + 1)) as u64) + 1;
        push_digits(&mut out, mag);
        assert(out@ =~= int_text(n as int));
    } else {
        push_digits(&mut out, n as u64);
        assert(out@ =~= int_text(n as int));
    }
    out
}

/// The decimal text of `n`.
pub fn i64_to_string(n: i64) -> (r: String)
    ensures
        r@ == int_text(n as int),
{
    let chars = i64_to_chars(n);
    string_from_chars(&chars)
}

/// The decimal text of `n`.
pub fn u64_to_string(n: u64) -> (r: String)
    ensures
        r@ == int_text(n as int),
{
    let mut out: Vec<char> = Vec::new();
    push_digits(&mut out, n);
    assert(out@ =~= int_text(n as int));
    string_from_chars(&out)
}

/// The decimal characters of `n`.
pub fn usize_to_chars(n: usize) -> (r: Vec<char>)
    ensures
        r@ == int_text(n as int),
{
    let mut out: Vec<char> = Vec::new();
    push_digits(&mut out, n as u64);
    assert(out@ =~= int_text(n as int));
    out
}

/// If every character of `s` from `from` on is a digit, the number they
/// spell; `None` where one is no digit or the number exceeds `limit`.
fn parse_digits(s: &str, from: usize, limit: u64) -> (r: Option<u64>)
    requires
        from <= s@.len(),
        limit >= 9,
    ensures
        match r {
            Some(v) => digits_value(s@.subrange(from as int, s@.len() as int)) == Some(v as nat)
                && v <= limit,
            None => match digits_value(s@.subrange(from as int, s@.len() as int)) {
                Some(v) => v > limit,
                None => true,
            },
        },
{
    let n: usize = s.unicode_len();
    let ghost tail = s@.subrange(from as int, n as int);
    let mut acc: u64 = 0;
    let mut i: usize = from;
    assert(tail.subrange(0, 0) =~= Seq::<char>::empty());
    while i < n
        invariant
            from <= i <= n,
            n == s@.len(),
            tail == s@.subrange(from as int, n as int),
            digits_value(tail.subrange(0, i - from)) == Some(acc as nat),
            acc <= limit,
            limit >= 9,
        decreases n - i,
    {
        let c = s.get_char(i);
        let ghost next = tail.subrange(0, i - from + 1);
        assert(next.drop_last() =~= tail.subrange(0, i - from));
        assert(next.last() == c);
        match value_of_digit(c) {
            Some(d) => {
                if acc > (limit - d) / 10 {
                    proof {
                        lemma_digits_value_grows(tail, i - from + 1);
                    }
                    return None;
                }
                acc = acc * 10 + d;
            },
            None => {
                proof {
                    lemma_digits_value_none(tail, i - from + 1);
                }
                return None;
            },
        }
        i += 1;
    }
    assert(tail.subrange(0, n - from) =~= tail);
    Some(acc)
}

/// Where a prefix of `s` is no number, `s` is none.
pub proof fn lemma_digits_value_none(s: Seq<char>, k: int)
    requires
        0 <= k <= s.len(),
        digits_value(s.subrange(0, k)) is None,
    ensures
        digits_value(s) is None,
    decreases s.len() - k,
{
    if k < s.len() {
        assert(s.subrange(0, k + 1).drop_last() =~= s.subrange(0, k));
        lemma_digits_value_none(s, k + 1);
    } else {
        assert(s.subrange(0, k) =~= s);
    }
}

/// A number is at least what any prefix of its digits spells.
pub proof fn lemma_digits_value_grows(s: Seq<char>, k: int)
    requires
        0 <= k <= s.len(),
    ensures
        match (digits_value(s), digits_value(s.subrange(0, k))) {
            (Some(v), Some(p)) => v >= p,
            (Some(v), None) => false,
            _ => true,
        },
    decreases s.len() - k,
{
    if k < s.len() {
        assert(s.subrange(0, k + 1).drop_last() =~= s.subrange(0, k));
        lemma_digits_value_grows(s, k + 1);
    } else {
        assert(s.subrange(0, k) =~= s);
    }
}

/// Reads a 64-bit integer: an optional sign, then at least one digit.
pub fn parse_i64(s: &str) -> (r: Option<i64>)
    ensures
        r == parse_i64_spec(s@),
{
    let n: usize = s.unicode_len();
    if n == 0 {
        return None;
    }
    let first = s.get_char(0);
    if first == '-' {
        if n == 1 {
            return None;
        }
        match parse_digits(s, 1, 0x8000_0000_0000_0000) {
            Some(v) => {
                if v == 0x8000_0000_0000_0000 {
                    Some(i64::MIN)
                } else {
                    Some(-(v as i64))
                }
            },
            None => None,
        }
    } else if first == '+' {
        if n == 1 {
            return None;
        }
        match parse_digits(s, 1, 0x7fff_ffff_ffff_ffff) {
            Some(v) => Some(v as i64),
            None => None,
        }
    } else {
        assert(s@.subrange(0, n as int) =~= s@);
        match parse_digits(s, 0, 0x7fff_ffff_ffff_ffff) {
            Some(v) => Some(v as i64),
            None => None,
        }
    }
}

/// The digits of a number spell that number.
pub proof fn lemma_digits_round_trip(n: nat)
    ensures
        digits(n).len() > 0,
        digits_value(digits(n)) == Some(n),
        digit_value(digits(n)[0]) is Some,
    decreases n,
{
    if n < 10 {
        assert(digits(n).drop_last() =~= Seq::<char>::empty());
        assert(digits_value(Seq::<char>::empty()) == Some(0nat));
    } else {
        lemma_digits_round_trip(n / 10);
        assert(digits(n).drop_last() =~= digits(n / 10));
        assert(digits(n)[0] == digits(n / 10)[0]);
    }
}

/// Reading the decimal text of an integer gives the integer back.
pub proof fn lemma_int_text_round_trip(n: int)
    ensures
        parse_int(int_text(n)) == Some(n),
        i64::MIN <= n <= i64::MAX ==> parse_i64_spec(int_text(n)) == Some(n as i64),
{
    if n < 0 {
        lemma_digits_round_trip((-n) as nat);
        let s = int_text(n);
        assert(s.subrange(1, s.len() as int) =~= digits((-n) as nat));
    } else {
        lemma_digits_round_trip(n as nat);
    }
}

} // verus!
