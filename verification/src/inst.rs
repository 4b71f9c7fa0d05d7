//! The instruction set: one byte per opcode. An integer operand follows its
//! opcode as eight bytes, most significant first.

use vstd::prelude::*;

verus! {

#[derive(Debug, Clone)]
pub struct Inst;

impl Inst {
    pub const NIL: u8 = 1;
    pub const SELF_VALUE: u8 = 2;
    pub const IDENT_ASSIGN: u8 = 3;
    pub const FIXNUM: u8 = 4;
    pub const DECIMALNUM: u8 = 5;
    pub const BOOL: u8 = 6;
    pub const STRING: u8 = 7;
    pub const ARRAY: u8 = 8;
    pub const ARRAY_INDEX: u8 = 9;
    pub const SEND: u8 = 10;
    pub const IDENT: u8 = 11;
    pub const TABLE_IDENT: u8 = 12;
    pub const IF: u8 = 13;
    pub const INIT_FUNC: u8 = 14;
    pub const FUNC_DECL: u8 = 15;
    pub const CLASS_DECL: u8 = 16;
    pub const CONST: u8 = 17;
    pub const INSTANCE_VAR: u8 = 18;
    pub const INSTANCE_VAR_ASSIGN: u8 = 19;
    pub const CLASS_VAR: u8 = 20;
    pub const CLASS_VAR_ASSIGN: u8 = 21;
    pub const ADD: u8 = 40;
    pub const SUB: u8 = 41;
    pub const MUL: u8 = 42;
    pub const DIV: u8 = 43;
    pub const EQ: u8 = 44;
    pub const NE: u8 = 45;
    pub const GT: u8 = 46;
    pub const GE: u8 = 47;
    pub const LT: u8 = 48;
    pub const LE: u8 = 49;
    pub const LAND: u8 = 50;
    pub const LOR: u8 = 51;
    pub const END: u8 = 255;
}

/// The eight bytes of `u`, most significant first.
pub open spec fn be_bytes(u: u64) -> Seq<u8> {
    let q1 = u / 256;
    let q2 = q1 / 256;
    let q3 = q2 / 256;
    let q4 = q3 / 256;
    let q5 = q4 / 256;
    let q6 = q5 / 256;
    let q7 = q6 / 256;
    seq![
        q7 as u8,
        (q6 % 256) as u8,
        (q5 % 256) as u8,
        (q4 % 256) as u8,
        (q3 % 256) as u8,
        (q2 % 256) as u8,
        (q1 % 256) as u8,
        (u % 256) as u8,
    ]
}

/// The number whose eight bytes, most significant first, start at `at`.
pub open spec fn from_be_bytes(b: Seq<u8>, at: int) -> int {
    ((((((b[at] * 256 + b[at + 1]) * 256 + b[at + 2]) * 256 + b[at + 3]) * 256 + b[at + 4]) * 256
        + b[at + 5]) * 256 + b[at + 6]) * 256 + b[at + 7]
}

/// The two's complement bit pattern of `n`.
pub open spec fn bits_of(n: i64) -> u64 {
    if n >= 0 {
        n as u64
    } else {
        (n + 0x1_0000_0000_0000_0000) as u64
    }
}

/// The signed number with the two's complement bit pattern `u`.
pub open spec fn signed_of(u: u64) -> i64 {
    if u < 0x8000_0000_0000_0000 {
        u as i64
    } else {
        (u - 0x1_0000_0000_0000_0000) as i64
    }
}

/// Reading back the bytes of a number gives the number.
pub proof fn lemma_be_bytes_round_trip(u: u64)
    ensures
        be_bytes(u).len() == 8,
        from_be_bytes(be_bytes(u), 0) == u,
{
}

/// Eight bytes encode a number of 64 bits.
pub proof fn lemma_from_be_bytes_range(b: Seq<u8>, at: int)
    requires
        0 <= at,
        at + 8 <= b.len(),
    ensures
        0 <= from_be_bytes(b, at) <= u64::MAX,
{
}

/// A signed number and its bit pattern determine each other.
pub proof fn lemma_signed_round_trip(n: i64, u: u64)
    ensures
        signed_of(bits_of(n)) == n,
        bits_of(signed_of(u)) == u,
{
}

pub fn to_bits(n: i64) -> (r: u64)
    ensures
        r == bits_of(n),
{
    if n >= 0 {
        n as u64
    } else {
        let low: i64 = (n + i64::MAX) + 1;
        (low as u64) + 0x8000_0000_0000_0000
    }
}

pub fn to_signed(u: u64) -> (r: i64)
    ensures
        r == signed_of(u),
{
    if u < 0x8000_0000_0000_0000 {
        u as i64
    } else {
        let low: u64 = u - 0x8000_0000_0000_0000;
        ((low as i64) - i64::MAX) - 1
    }
}

/// Appends the eight bytes of `u` to `buf`.
pub fn push_be_bytes(buf: &mut Vec<u8>, u: u64)
    ensures
        final(buf)@ == old(buf)@ + be_bytes(u),
{
    let q1: u64 = u / 256;
    let q2: u64 = q1 / 256;
    let q3: u64 = q2 / 256;
    let q4: u64 = q3 / 256;
    let q5: u64 = q4 / 256;
    let q6: u64 = q5 / 256;
    let q7: u64 = q6 / 256;
    buf.push(q7 as u8);
    buf.push((q6 % 256) as u8);
    buf.push((q5 % 256) as u8);
    buf.push((q4 % 256) as u8);
    buf.push((q3 % 256) as u8);
    buf.push((q2 % 256) as u8);
    buf.push((q1 % 256) as u8);
    buf.push((u % 256) as u8);
    assert(buf@ =~= old(buf)@ + be_bytes(u));
}

/// Reads the number whose eight bytes start at `at`.
pub fn read_be_bytes(buf: &Vec<u8>, at: usize) -> (r: u64)
    requires
        at + 8 <= buf@.len(),
    ensures
        r == from_be_bytes(buf@, at as int),
{
    let n: usize = buf.len();
    let mut acc: u64 = buf[at] as u64;
    acc = acc * 256 + buf[at + 1] as u64;
    acc = acc * 256 + buf[at + 2] as u64;
    acc = acc * 256 + buf[at + 3] as u64;
    acc = acc * 256 + buf[at + 4] as u64;
    acc = acc * 256 + buf[at + 5] as u64;
    acc = acc * 256 + buf[at + 6] as u64;
    acc = acc * 256 + buf[at + 7] as u64;
    acc
}

} // verus!
