//! Packet fields taken off the front of a byte sequence, as readers take
//! them, and what taking gives back of what a writer wrote.

use vstd::prelude::*;
use vstd::utf8::*;
use crate::protocol::wire::{
    be_bytes, be_value, lemma_be_signed, lemma_pow128_values, lemma_pow256_values, lemma_string_roundtrip,
    lemma_varint_roundtrip, string_dec, string_enc, varint_dec, varint_enc, wrap16, wrap32, wrap64,
};

verus! {

/// A VarInt of at most five bytes, and what follows it.
pub open spec fn take_varint(s: Seq<u8>) -> Option<(i32, Seq<u8>)> {
    match varint_dec(s, 5) {
        Some((v, n)) => Some((wrap32(v as int), s.skip(n as int))),
        None => None,
    }
}

/// A length-prefixed UTF-8 string, and what follows it.
pub open spec fn take_string(s: Seq<u8>) -> Option<(Seq<char>, Seq<u8>)> {
    match string_dec(s) {
        Some((c, n)) => Some((c, s.skip(n as int))),
        None => None,
    }
}

/// One byte, and what follows it.
pub open spec fn take_byte(s: Seq<u8>) -> Option<(u8, Seq<u8>)> {
    if s.len() >= 1 {
        Some((s[0], s.skip(1)))
    } else {
        None
    }
}

/// A boolean byte, 0 or 1, and what follows it.
pub open spec fn take_bool(s: Seq<u8>) -> Option<(bool, Seq<u8>)> {
    if s.len() >= 1 && s[0] <= 1 {
        Some((s[0] == 1, s.skip(1)))
    } else {
        None
    }
}

/// A big-endian unsigned 16-bit number, and what follows it.
pub open spec fn take_u16(s: Seq<u8>) -> Option<(u16, Seq<u8>)> {
    if s.len() >= 2 {
        Some((be_value(s.take(2)) as u16, s.skip(2)))
    } else {
        None
    }
}

/// A big-endian two's complement 16-bit number, and what follows it.
pub open spec fn take_i16(s: Seq<u8>) -> Option<(i16, Seq<u8>)> {
    if s.len() >= 2 {
        Some((wrap16(be_value(s.take(2)) as int), s.skip(2)))
    } else {
        None
    }
}

/// A big-endian two's complement 32-bit number, and what follows it.
pub open spec fn take_i32(s: Seq<u8>) -> Option<(i32, Seq<u8>)> {
    if s.len() >= 4 {
        Some((wrap32(be_value(s.take(4)) as int), s.skip(4)))
    } else {
        None
    }
}

/// A big-endian two's complement 64-bit number, and what follows it.
pub open spec fn take_i64(s: Seq<u8>) -> Option<(i64, Seq<u8>)> {
    if s.len() >= 8 {
        Some((wrap64(be_value(s.take(8)) as int), s.skip(8)))
    } else {
        None
    }
}

/// `n` bytes, and what follows them.
pub open spec fn take_bytes(s: Seq<u8>, n: int) -> Option<(Seq<u8>, Seq<u8>)> {
    if 0 <= n <= s.len() {
        Some((s.take(n), s.skip(n)))
    } else {
        None
    }
}

/// Reading a VarInt field gives back a non-negative value written, and the rest.
pub proof fn lemma_take_varint(v: i32, rest: Seq<u8>)
    requires
        v >= 0,
    ensures
        take_varint(varint_enc(v as nat) + rest) == Some((v, rest)),
{
    lemma_pow128_values();
    lemma_varint_roundtrip(v as nat, 5, rest);
    assert((varint_enc(v as nat) + rest).skip(varint_enc(v as nat).len() as int) =~= rest);
}

/// Reading a string field gives back a string written, and the rest.
pub proof fn lemma_take_string(c: Seq<char>, rest: Seq<u8>)
    requires
        encode_utf8(c).len() <= 32767,
    ensures
        take_string(string_enc(c) + rest) == Some((c, rest)),
{
    lemma_string_roundtrip(c, rest);
    assert((string_enc(c) + rest).skip(string_enc(c).len() as int) =~= rest);
}

/// Reading a byte field gives back a byte written, and the rest.
pub proof fn lemma_take_byte(b: u8, rest: Seq<u8>)
    ensures
        take_byte(seq![b] + rest) == Some((b, rest)),
        (seq![b] + rest).skip(1) == rest,
{
    assert((seq![b] + rest).skip(1) =~= rest);
}

/// Reading a boolean field gives back a boolean written, and the rest.
pub proof fn lemma_take_bool(b: bool, rest: Seq<u8>)
    ensures
        take_bool(seq![if b { 1u8 } else { 0u8 }] + rest) == Some((b, rest)),
{
    assert((seq![if b { 1u8 } else { 0u8 }] + rest).skip(1) =~= rest);
}

/// A fixed-width big-endian field is the first bytes of what follows it.
pub proof fn lemma_take_fixed(v: int, n: nat, rest: Seq<u8>)
    requires
        1 <= n <= 8,
    ensures
        (be_bytes(v, n) + rest).take(n as int) == be_bytes(v, n),
        (be_bytes(v, n) + rest).skip(n as int) == rest,
{
    crate::protocol::wire::lemma_be_bytes_len(v, n);
    assert((be_bytes(v, n) + rest).take(n as int) =~= be_bytes(v, n));
    assert((be_bytes(v, n) + rest).skip(n as int) =~= rest);
}

/// Reading an unsigned short field gives back the value written, and the rest.
pub proof fn lemma_take_u16(v: u16, rest: Seq<u8>)
    ensures
        take_u16(be_bytes(v as int, 2) + rest) == Some((v, rest)),
{
    lemma_pow256_values();
    lemma_be_signed(v as int, 2);
    lemma_take_fixed(v as int, 2, rest);
}

/// Reading a short field gives back the value written, and the rest.
pub proof fn lemma_take_i16(v: i16, rest: Seq<u8>)
    ensures
        take_i16(be_bytes(v as int, 2) + rest) == Some((v, rest)),
{
    lemma_pow256_values();
    lemma_be_signed(v as int, 2);
    lemma_take_fixed(v as int, 2, rest);
}

/// Reading an int field gives back the value written, and the rest.
pub proof fn lemma_take_i32(v: i32, rest: Seq<u8>)
    ensures
        take_i32(be_bytes(v as int, 4) + rest) == Some((v, rest)),
{
    lemma_pow256_values();
    lemma_be_signed(v as int, 4);
    lemma_take_fixed(v as int, 4, rest);
}

/// Reading a long field gives back the value written, and the rest.
pub proof fn lemma_take_i64(v: i64, rest: Seq<u8>)
    ensures
        take_i64(be_bytes(v as int, 8) + rest) == Some((v, rest)),
{
    lemma_pow256_values();
    lemma_be_signed(v as int, 8);
    lemma_take_fixed(v as int, 8, rest);
}

/// Reading a run of raw bytes gives back those written, and the rest.
pub proof fn lemma_take_bytes(b: Seq<u8>, rest: Seq<u8>)
    ensures
        take_bytes(b + rest, b.len() as int) == Some((b, rest)),
{
    assert((b + rest).take(b.len() as int) =~= b);
    assert((b + rest).skip(b.len() as int) =~= rest);
}

} // verus!
