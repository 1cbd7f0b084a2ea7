//! Whether received bytes hold the fields a packet is read from, checked
//! before the packet is read.

use vstd::prelude::*;
use vstd::utf8::*;
use crate::protocol::fields::{take_i64, take_string, take_u16, take_varint};
use crate::protocol::frame::id_readable;
use crate::protocol::packets::handshake::handshake_fields;
use crate::protocol::packets::login::encryption_response_fields;
use crate::protocol::packets::reader_for;
use crate::protocol::reader::str_from_utf8;
use crate::protocol::wire::{lemma_varint_dec_bounds, string_dec, varint_dec, wrap32};

verus! {

/// The length of the VarInt at the front of `s`.
fn varint_len(s: &[u8]) -> (r: Option<usize>)
    ensures
        match varint_dec(s@, 5) {
            Some((_, n)) => r == Some(n as usize) && n <= s@.len(),
            None => r is None,
        },
{
    if !id_readable(s) {
        return None;
    }
    let mut reader = reader_for(s);
    proof {
        lemma_varint_dec_bounds(s@, 5);
    }
    let _ = reader.read_varint();
    Some(reader.position)
}

/// The length of the string at the front of `s`: its VarInt length, then
/// that many bytes of UTF-8.
fn string_len(s: &[u8]) -> (r: Option<usize>)
    ensures
        match string_dec(s@) {
            Some((_, n)) => r == Some(n as usize) && n <= s@.len(),
            None => r is None,
        },
{
    let n = match varint_len(s) {
        Some(n) => n,
        None => return None,
    };
    let mut reader = reader_for(s);
    proof {
        lemma_varint_dec_bounds(s@, 5);
    }
    let len = reader.read_varint();
    if len < 0 {
        return None;
    }
    if len as usize > s.len() - n {
        return None;
    }
    let bytes = vstd::slice::slice_subrange(s, n, n + len as usize);
    assert(bytes@ =~= s@.subrange(n as int, n + len));
    match str_from_utf8(bytes) {
        Some(_) => Some(n + len as usize),
        None => None,
    }
}

/// Whether the bytes begin with a string.
pub fn string_field_readable(s: &[u8]) -> (r: bool)
    ensures
        r == take_string(s@) is Some,
{
    string_len(s).is_some()
}

/// Whether the bytes begin with eight bytes of a long.
pub fn i64_field_readable(s: &[u8]) -> (r: bool)
    ensures
        r == take_i64(s@) is Some,
{
    s.len() >= 8
}

/// Whether the bytes hold the four fields of a handshake.
pub fn handshake_readable(s: &[u8]) -> (r: bool)
    ensures
        r == handshake_fields(s@) is Some,
{
    let a = match varint_len(s) {
        Some(a) => a,
        None => return false,
    };
    let s1 = vstd::slice::slice_subrange(s, a, s.len());
    assert(s1@ =~= s@.skip(a as int));
    let b = match string_len(s1) {
        Some(b) => b,
        None => return false,
    };
    if s1.len() - b < 2 {
        return false;
    }
    let s3 = vstd::slice::slice_subrange(s1, b + 2, s1.len());
    assert(s3@ =~= s1@.skip(b as int).skip(2));
    varint_len(s3).is_some()
}

/// The VarInt at the front of `s`, and how many bytes it takes.
fn varint_field(s: &[u8]) -> (r: Option<(i32, usize)>)
    ensures
        match take_varint(s@) {
            Some((v, rest)) => r matches Some((rv, n)) && rv == v && n <= s@.len() && rest == s@.skip(
                n as int,
            ),
            None => r is None,
        },
{
    if !id_readable(s) {
        return None;
    }
    let mut reader = reader_for(s);
    proof {
        lemma_varint_dec_bounds(s@, 5);
    }
    let v = reader.read_varint();
    Some((v, reader.position))
}

/// Whether the bytes hold the two length-prefixed arrays of an encryption
/// response.
pub fn encryption_response_readable(s: &[u8]) -> (r: bool)
    ensures
        r == encryption_response_fields(s@) is Some,
{
    let (n1, a) = match varint_field(s) {
        Some(p) => p,
        None => return false,
    };
    if n1 < 0 || n1 as usize > s.len() - a {
        return false;
    }
    let b = a + n1 as usize;
    let s2 = vstd::slice::slice_subrange(s, b, s.len());
    assert(s2@ =~= s@.skip(a as int).skip(n1 as int));
    let (n2, c) = match varint_field(s2) {
        Some(p) => p,
        None => return false,
    };
    n2 >= 0 && n2 as usize <= s2.len() - c
}

} // verus!
