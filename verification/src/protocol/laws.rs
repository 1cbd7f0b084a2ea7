//! What a reader gives back of what a writer wrote.

use vstd::prelude::*;
use vstd::utf8::*;
use crate::protocol::wire::{
    be_bytes, be_value, lemma_be_signed, lemma_pow128_values, lemma_pow256_values,
    lemma_string_roundtrip, lemma_varint_enc_len, lemma_varint_roundtrip, pow256, string_dec, string_enc, varint_dec, varint_enc,
    wrap16, wrap32, wrap64,
};

verus! {

/// A VarInt written by `Writer::write_varint` is read back by
/// `Reader::read_varint` as the same number, taking exactly the bytes written,
/// whatever follows.
pub proof fn law_varint_roundtrip(value: i32, rest: Seq<u8>)
    requires
        value >= 0,
    ensures
        varint_dec(varint_enc(value as nat) + rest, 5) == Some((value as nat, varint_enc(value as nat).len())),
        wrap32(value as int) == value,
{
    lemma_pow128_values();
    lemma_varint_roundtrip(value as nat, 5, rest);
}

/// A VarLong written by `Writer::write_varlong` is read back by
/// `Reader::read_varlong` as the same number, from at most ten bytes.
pub proof fn law_varlong_roundtrip(value: i64, rest: Seq<u8>)
    requires
        value >= 0,
    ensures
        varint_dec(varint_enc(value as nat) + rest, 10) == Some((value as nat, varint_enc(value as nat).len())),
        varint_enc(value as nat).len() <= 10,
        wrap64(value as int) == value,
{
    lemma_pow128_values();
    lemma_varint_enc_len(value as nat, 10);
    lemma_varint_roundtrip(value as nat, 10, rest);
}

/// A negative number sent as the VarLong of its 64 two's complement bits,
/// as other implementations write it, takes at most ten bytes and is read
/// back by `Reader::read_varlong` as the same number.
pub proof fn law_varlong_negative(value: i64, rest: Seq<u8>)
    requires
        value < 0,
    ensures
        ({
            let bits = (value + 0x1_0000_0000_0000_0000) as nat;
            &&& varint_dec(varint_enc(bits) + rest, 10) == Some((bits, varint_enc(bits).len()))
            &&& varint_enc(bits).len() <= 10
            &&& wrap64(bits as int) == value
        }),
{
    let bits = (value + 0x1_0000_0000_0000_0000) as nat;
    lemma_pow128_values();
    lemma_varint_enc_len(bits, 10);
    lemma_varint_roundtrip(bits, 10, rest);
}

/// `Writer::write_u16` and `Reader::read_u16` agree.
pub proof fn law_u16_roundtrip(value: u16, rest: Seq<u8>)
    ensures
        be_value((be_bytes(value as int, 2) + rest).subrange(0, 2)) == value,
{
    lemma_pow256_values();
    lemma_be_signed(value as int, 2);
    assert((be_bytes(value as int, 2) + rest).subrange(0, 2) =~= be_bytes(value as int, 2));
}

/// `Writer::write_i16` and `Reader::read_i16` agree.
pub proof fn law_i16_roundtrip(value: i16, rest: Seq<u8>)
    ensures
        wrap16(be_value((be_bytes(value as int, 2) + rest).subrange(0, 2)) as int) == value,
{
    lemma_pow256_values();
    lemma_be_signed(value as int, 2);
    assert((be_bytes(value as int, 2) + rest).subrange(0, 2) =~= be_bytes(value as int, 2));
}

/// `Writer::write_i32` and `Reader::read_i32` agree.
pub proof fn law_i32_roundtrip(value: i32, rest: Seq<u8>)
    ensures
        wrap32(be_value((be_bytes(value as int, 4) + rest).subrange(0, 4)) as int) == value,
{
    lemma_pow256_values();
    lemma_be_signed(value as int, 4);
    assert((be_bytes(value as int, 4) + rest).subrange(0, 4) =~= be_bytes(value as int, 4));
}

/// `Writer::write_long` and `Reader::read_long` agree.
pub proof fn law_long_roundtrip(value: i64, rest: Seq<u8>)
    ensures
        wrap64(be_value((be_bytes(value as int, 8) + rest).subrange(0, 8)) as int) == value,
{
    lemma_pow256_values();
    lemma_be_signed(value as int, 8);
    assert((be_bytes(value as int, 8) + rest).subrange(0, 8) =~= be_bytes(value as int, 8));
}

/// A string written by `Writer::write_string` is read back by
/// `Reader::read_string` unchanged.
pub proof fn law_string_roundtrip(s: Seq<char>, rest: Seq<u8>)
    requires
        encode_utf8(s).len() <= 32767,
    ensures
        string_dec(string_enc(s) + rest) == Some((s, string_enc(s).len())),
{
    lemma_string_roundtrip(s, rest);
}

} // verus!
