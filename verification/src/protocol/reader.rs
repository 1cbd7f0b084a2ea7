//! Reads protocol values from the front of a byte buffer.

use vstd::prelude::*;
use vstd::utf8::*;
use crate::protocol::wire::{
    be_value, lemma_be_value_bound, lemma_pow128_values, lemma_pow256_values, lemma_varint_dec_bounds,
    pow128, pow256, string_dec, varint_dec, wrap16, wrap32, wrap64,
};

verus! {

/// Converts bytes to a string slice when they are UTF-8.
///
/// Calls `std::str::from_utf8`, which returns the string exactly when the
/// bytes are well-formed UTF-8; the contract claims that this agrees with
/// vstd's `valid_utf8` and that the characters are the decoded bytes.
#[verifier::external_body]
pub(crate) fn str_from_utf8(bytes: &[u8]) -> (r: Option<&str>)
    ensures
        r is Some <==> valid_utf8(bytes@),
        r matches Some(s) ==> s@ == decode_utf8(bytes@),
{
    std::str::from_utf8(bytes).ok()
}

/// Moving a cursor `k` bytes on leaves the rest after those `k` bytes, and
/// the `k` bytes passed are the front of the old rest.
pub proof fn lemma_advance(data: Seq<u8>, p: int, k: int)
    requires
        0 <= p,
        0 <= k,
        p + k <= data.len(),
    ensures
        data.skip(p + k) == data.skip(p).skip(k),
        data.subrange(p, p + k) == data.skip(p).take(k),
{
    assert(data.skip(p + k) =~= data.skip(p).skip(k));
    assert(data.subrange(p, p + k) =~= data.skip(p).take(k));
}

/// A cursor over a byte buffer.
pub struct Reader {
    pub data: Vec<u8>,
    pub position: usize,
}

impl Reader {
    /// The bytes not read yet.
    pub open spec fn rest(&self) -> Seq<u8> {
        self.data@.skip(self.position as int)
    }

    /// A reader at the start of `data`.
    pub fn new(data: Vec<u8>) -> (r: Self)
        ensures
            r.data@ == data@,
            r.position == 0,
    {
        Self { data, position: 0 }
    }

    /// Whether any byte is left.
    pub fn has_remaining(&self) -> (b: bool)
        ensures
            b == (self.position < self.data@.len()),
    {
        self.position < self.data.len()
    }

    /// How many bytes are left.
    pub fn remaining(&self) -> (n: usize)
        requires
            self.position <= self.data@.len(),
        ensures
            n == self.data@.len() - self.position,
    {
        self.data.len() - self.position
    }

    /// Reads one byte.
    pub fn read_byte(&mut self) -> (b: u8)
        requires
            old(self).position < old(self).data@.len(),
        ensures
            final(self).position <= final(self).data@.len(),
            b == old(self).data@[old(self).position as int],
            final(self).data == old(self).data,
            final(self).position == old(self).position + 1,
            final(self).rest() == old(self).rest().skip(1),
            b == old(self).rest()[0],
    {
        proof {
            lemma_advance(old(self).data@, old(self).position as int, 1);
        }
        let _len = self.data.len();
        let byte = self.data[self.position];
        self.position = self.position + 1;
        byte
    }

    /// Reads a variable-length number of at most `max` bytes.
    fn read_var(&mut self, max: usize) -> (v: u128)
        requires
            1 <= max <= 10,
            old(self).position <= old(self).data@.len(),
            varint_dec(old(self).rest(), max as nat) is Some,
        ensures
            v == varint_dec(old(self).rest(), max as nat).unwrap().0,
            final(self).position == old(self).position + varint_dec(old(self).rest(), max as nat).unwrap().1,
            final(self).data == old(self).data,
            v < pow128(varint_dec(old(self).rest(), max as nat).unwrap().1),
        decreases max,
    {
        proof {
            lemma_varint_dec_bounds(old(self).rest(), max as nat);
            lemma_pow128_values();
        }
        let byte = self.read_byte();
        if byte >= 128 {
            assert(self.rest() =~= old(self).rest().drop_first());
            proof {
                let (v1, n1) = varint_dec(self.rest(), (max - 1) as nat).unwrap();
                lemma_varint_dec_bounds(self.rest(), (max - 1) as nat);
                crate::protocol::wire::lemma_pow128_mono(n1, 9);
            }
            let rest = self.read_var(max - 1);
            (byte - 128) as u128 + 128 * rest
        } else {
            byte as u128
        }
    }

    /// Reads a VarInt of at most five bytes. The value is the low 32 bits of
    /// the seven-bit groups put together.
    pub fn read_varint(&mut self) -> (v: i32)
        requires
            old(self).position <= old(self).data@.len(),
            varint_dec(old(self).rest(), 5) is Some,
        ensures
            final(self).position <= final(self).data@.len(),
            v == wrap32(varint_dec(old(self).rest(), 5).unwrap().0 as int),
            final(self).position == old(self).position + varint_dec(old(self).rest(), 5).unwrap().1,
            final(self).data == old(self).data,
            final(self).rest() == old(self).rest().skip(varint_dec(old(self).rest(), 5).unwrap().1 as int),
    {
        proof {
            lemma_varint_dec_bounds(old(self).rest(), 5);
            lemma_advance(old(self).data@, old(self).position as int, varint_dec(old(self).rest(), 5).unwrap().1 as int);
        }
        proof {
            lemma_varint_dec_bounds(old(self).rest(), 5);
            lemma_pow128_values();
            crate::protocol::wire::lemma_pow128_mono(varint_dec(old(self).rest(), 5).unwrap().1, 5);
        }
        let raw = self.read_var(5);
        let low = (raw % 0x1_0000_0000) as u64;
        if low < 0x8000_0000 {
            low as i32
        } else {
            (low as i64 - 0x1_0000_0000) as i32
        }
    }

    /// Reads a VarLong of at most ten bytes. The value is the low 64 bits of
    /// the seven-bit groups put together.
    pub fn read_varlong(&mut self) -> (v: i64)
        requires
            old(self).position <= old(self).data@.len(),
            varint_dec(old(self).rest(), 10) is Some,
        ensures
            final(self).position <= final(self).data@.len(),
            v == wrap64(varint_dec(old(self).rest(), 10).unwrap().0 as int),
            final(self).position == old(self).position + varint_dec(old(self).rest(), 10).unwrap().1,
            final(self).data == old(self).data,
            final(self).rest() == old(self).rest().skip(varint_dec(old(self).rest(), 10).unwrap().1 as int),
    {
        proof {
            lemma_varint_dec_bounds(old(self).rest(), 10);
            lemma_advance(old(self).data@, old(self).position as int, varint_dec(old(self).rest(), 10).unwrap().1 as int);
        }
        proof {
            lemma_varint_dec_bounds(old(self).rest(), 10);
            lemma_pow128_values();
            crate::protocol::wire::lemma_pow128_mono(varint_dec(old(self).rest(), 10).unwrap().1, 10);
        }
        let raw = self.read_var(10);
        let low = raw % 0x1_0000_0000_0000_0000;
        if low < 0x8000_0000_0000_0000 {
            low as i64
        } else {
            (low as i128 - 0x1_0000_0000_0000_0000) as i64
        }
    }

    /// Reads a boolean byte: 0 is false, 1 is true; other bytes are refused.
    pub fn read_bool(&mut self) -> (b: bool)
        requires
            old(self).position < old(self).data@.len(),
            old(self).data@[old(self).position as int] <= 1,
        ensures
            final(self).position <= final(self).data@.len(),
            b == (old(self).data@[old(self).position as int] == 1),
            final(self).position == old(self).position + 1,
            final(self).data == old(self).data,
            final(self).rest() == old(self).rest().skip(1),
    {
        proof {
            lemma_advance(old(self).data@, old(self).position as int, 1);
        }
        let byte = self.read_byte();
        byte == 0x01
    }

    /// Reads `n` bytes as a big-endian unsigned number.
    fn read_be(&mut self, n: usize) -> (v: u64)
        requires
            n <= 8,
            old(self).position + n <= old(self).data@.len(),
        ensures
            v == be_value(old(self).data@.subrange(old(self).position as int, old(self).position + n)),
            final(self).position == old(self).position + n,
            final(self).data == old(self).data,
        decreases n,
    {
        if n == 0 {
            assert(old(self).data@.subrange(old(self).position as int, old(self).position as int) =~= Seq::<u8>::empty());
            0
        } else {
            let high = self.read_be(n - 1);
            let ghost s = old(self).data@.subrange(old(self).position as int, old(self).position + n);
            assert(s.drop_last() =~= old(self).data@.subrange(old(self).position as int, old(self).position + n - 1));
            proof {
                lemma_be_value_bound(s.drop_last());
                lemma_pow256_values();
                crate::protocol::wire::lemma_pow256_mono((n - 1) as nat, 7);
            }
            let low = self.read_byte();
            high * 256 + low as u64
        }
    }

    /// Reads a big-endian unsigned 16-bit number.
    pub fn read_u16(&mut self) -> (v: u16)
        requires
            old(self).position + 2 <= old(self).data@.len(),
        ensures
            final(self).position <= final(self).data@.len(),
            v == be_value(old(self).data@.subrange(old(self).position as int, old(self).position + 2)),
            final(self).position == old(self).position + 2,
            final(self).data == old(self).data,
            final(self).rest() == old(self).rest().skip(2),
            old(self).rest().take(2) == old(self).data@.subrange(old(self).position as int, old(self).position + 2),
    {
        proof {
            lemma_advance(old(self).data@, old(self).position as int, 2);
        }
        proof {
            lemma_be_value_bound(old(self).data@.subrange(old(self).position as int, old(self).position + 2));
            lemma_pow256_values();
        }
        self.read_be(2) as u16
    }

    /// Reads a big-endian two's complement 16-bit number.
    pub fn read_i16(&mut self) -> (v: i16)
        requires
            old(self).position + 2 <= old(self).data@.len(),
        ensures
            final(self).position <= final(self).data@.len(),
            v == wrap16(be_value(old(self).data@.subrange(old(self).position as int, old(self).position + 2)) as int),
            final(self).position == old(self).position + 2,
            final(self).data == old(self).data,
            final(self).rest() == old(self).rest().skip(2),
            old(self).rest().take(2) == old(self).data@.subrange(old(self).position as int, old(self).position + 2),
    {
        proof {
            lemma_advance(old(self).data@, old(self).position as int, 2);
        }
        proof {
            lemma_be_value_bound(old(self).data@.subrange(old(self).position as int, old(self).position + 2));
            lemma_pow256_values();
        }
        let raw = self.read_be(2);
        if raw < 0x8000 { raw as i16 } else { (raw as i32 - 0x1_0000) as i16 }
    }

    /// Reads a big-endian two's complement 32-bit number.
    pub fn read_i32(&mut self) -> (v: i32)
        requires
            old(self).position + 4 <= old(self).data@.len(),
        ensures
            final(self).position <= final(self).data@.len(),
            v == wrap32(be_value(old(self).data@.subrange(old(self).position as int, old(self).position + 4)) as int),
            final(self).position == old(self).position + 4,
            final(self).data == old(self).data,
            final(self).rest() == old(self).rest().skip(4),
            old(self).rest().take(4) == old(self).data@.subrange(old(self).position as int, old(self).position + 4),
    {
        proof {
            lemma_advance(old(self).data@, old(self).position as int, 4);
        }
        proof {
            lemma_be_value_bound(old(self).data@.subrange(old(self).position as int, old(self).position + 4));
            lemma_pow256_values();
        }
        let raw = self.read_be(4);
        if raw < 0x8000_0000 { raw as i32 } else { (raw as i64 - 0x1_0000_0000) as i32 }
    }

    /// Reads a big-endian two's complement 64-bit number.
    pub fn read_long(&mut self) -> (v: i64)
        requires
            old(self).position + 8 <= old(self).data@.len(),
        ensures
            final(self).position <= final(self).data@.len(),
            v == wrap64(be_value(old(self).data@.subrange(old(self).position as int, old(self).position + 8)) as int),
            final(self).position == old(self).position + 8,
            final(self).data == old(self).data,
            final(self).rest() == old(self).rest().skip(8),
            old(self).rest().take(8) == old(self).data@.subrange(old(self).position as int, old(self).position + 8),
    {
        proof {
            lemma_advance(old(self).data@, old(self).position as int, 8);
        }
        proof {
            lemma_be_value_bound(old(self).data@.subrange(old(self).position as int, old(self).position + 8));
            lemma_pow256_values();
        }
        let raw = self.read_be(8);
        if raw < 0x8000_0000_0000_0000 {
            raw as i64
        } else {
            (raw as i128 - 0x1_0000_0000_0000_0000) as i64
        }
    }

    /// Reads the next `n` bytes.
    pub fn read_bytes(&mut self, n: usize) -> (bytes: Vec<u8>)
        requires
            old(self).position + n <= old(self).data@.len(),
        ensures
            final(self).position <= final(self).data@.len(),
            bytes@ == old(self).data@.subrange(old(self).position as int, old(self).position + n),
            final(self).position == old(self).position + n,
            final(self).data == old(self).data,
            final(self).rest() == old(self).rest().skip(n as int),
            bytes@ == old(self).rest().take(n as int),
    {
        proof {
            lemma_advance(old(self).data@, old(self).position as int, n as int);
        }
        let mut out: Vec<u8> = Vec::new();
        let start = self.position;
        while out.len() < n
            invariant
                self.data == old(self).data,
                start == old(self).position,
                start + n <= self.data@.len(),
                self.position == start + out@.len(),
                out@.len() <= n,
                out@ == self.data@.subrange(start as int, self.position as int),
            decreases n - out@.len(),
        {
            let b = self.read_byte();
            out.push(b);
            assert(out@ =~= self.data@.subrange(start as int, self.position as int));
        }
        out
    }

    /// Reads a length-prefixed UTF-8 string.
    pub fn read_string(&mut self) -> (s: String)
        requires
            old(self).position <= old(self).data@.len(),
            string_dec(old(self).rest()) is Some,
        ensures
            final(self).position <= final(self).data@.len(),
            s@ == string_dec(old(self).rest()).unwrap().0,
            final(self).position == old(self).position + string_dec(old(self).rest()).unwrap().1,
            final(self).data == old(self).data,
            final(self).rest() == old(self).rest().skip(string_dec(old(self).rest()).unwrap().1 as int),
    {
        proof {
            lemma_advance(old(self).data@, old(self).position as int, string_dec(old(self).rest()).unwrap().1 as int);
        }
        let ghost rest = old(self).rest();
        let length = self.read_varint();
        let ghost n = varint_dec(rest, 5).unwrap().1;
        assert(self.rest() =~= rest.skip(n as int));
        let length = length as usize;
        let bytes = self.read_bytes(length);
        assert(bytes@ =~= rest.subrange(n as int, n + length));
        match str_from_utf8(bytes.as_slice()) {
            Some(text) => text.to_owned(),
            None => {
                assert(false);
                String::new()
            },
        }
    }
}

} // verus!
