//! Appends protocol values to a byte buffer.

use vstd::prelude::*;
use vstd::string::StringSliceAdditionalSpecFns;
use crate::protocol::wire::{be_bytes, lemma_be_bytes_low, lemma_be_bytes_shift, lemma_pow256_values, string_enc, varint_enc};

verus! {

/// Appends the low `n` bytes of `value`, most significant first.
pub fn push_be(out: &mut Vec<u8>, value: u64, n: usize)
    requires
        n <= 8,
    ensures
        final(out)@ == old(out)@ + be_bytes(value as int, n as nat),
    decreases n,
{
    if n > 0 {
        push_be(out, value / 256, n - 1);
        out.push((value % 256) as u8);
        assert(out@ =~= old(out)@ + be_bytes(value as int, n as nat));
    }
}

/// Appends the low `n` bytes of the two's complement of `value`, most
/// significant first.
pub fn push_be_signed(out: &mut Vec<u8>, value: i64, n: usize)
    requires
        1 <= n <= 8,
    ensures
        final(out)@ == old(out)@ + be_bytes(value as int, n as nat),
{
    let bits: u64 = if value >= 0 {
        value as u64
    } else {
        (value as i128 + 0x1_0000_0000_0000_0000) as u64
    };
    proof {
        lemma_pow256_values();
        lemma_be_bytes_shift(value as int, 8, 1);
        lemma_be_bytes_low(bits as int, n as nat, 8);
        lemma_be_bytes_low(value as int, n as nat, 8);
    }
    push_be(out, bits, n);
}

/// A growing buffer of encoded protocol values.
pub struct Writer {
    pub data: Vec<u8>,
}

impl Writer {
    /// An empty buffer.
    pub fn new() -> (w: Self)
        ensures
            w.data@ == Seq::<u8>::empty(),
    {
        Self { data: Vec::new() }
    }

    /// Appends one byte.
    pub fn write_byte(&mut self, byte: u8)
        ensures
            final(self).data@ == old(self).data@.push(byte),
    {
        self.data.push(byte);
    }

    /// Appends every byte of `bytes`, in order.
    pub fn write_bytes(&mut self, bytes: &[u8])
        ensures
            final(self).data@ == old(self).data@ + bytes@,
    {
        let mut i: usize = 0;
        while i < bytes.len()
            invariant
                i <= bytes.len(),
                self.data@ == old(self).data@ + bytes@.subrange(0, i as int),
            decreases bytes.len() - i,
        {
            self.data.push(bytes[i]);
            i = i + 1;
            assert(self.data@ =~= old(self).data@ + bytes@.subrange(0, i as int));
        }
        assert(bytes@.subrange(0, i as int) =~= bytes@);
    }

    /// Appends the variable-length encoding of a non-negative number.
    fn write_var(&mut self, value: u64)
        ensures
            final(self).data@ == old(self).data@ + varint_enc(value as nat),
    {
        let mut v = value;
        while v >= 128
            invariant
                self.data@ + varint_enc(v as nat) == old(self).data@ + varint_enc(value as nat),
            decreases v,
        {
            let byte = (v % 128) as u8 + 128;
            let ghost before = self.data@;
            self.data.push(byte);
            assert(varint_enc(v as nat) == seq![byte] + varint_enc((v / 128) as nat));
            assert(self.data@ + varint_enc((v / 128) as nat) =~= before + varint_enc(v as nat));
            v = v / 128;
        }
        let ghost before = self.data@;
        self.data.push(v as u8);
        assert(self.data@ =~= before + varint_enc(v as nat));
    }

    /// Appends a VarInt. The encoder only terminates on non-negative values.
    pub fn write_varint(&mut self, value: i32)
        requires
            value >= 0,
        ensures
            final(self).data@ == old(self).data@ + varint_enc(value as nat),
    {
        self.write_var(value as u64);
    }

    /// Appends a 16-bit value in the VarInt encoding.
    pub fn write_varshort(&mut self, value: i16)
        requires
            value >= 0,
        ensures
            final(self).data@ == old(self).data@ + varint_enc(value as nat),
    {
        self.write_var(value as u64);
    }

    /// Appends an 8-bit value in the VarInt encoding: one byte.
    pub fn write_varbyte(&mut self, value: i8)
        requires
            value >= 0,
        ensures
            final(self).data@ == old(self).data@ + varint_enc(value as nat),
            final(self).data@ == old(self).data@.push(value as u8),
    {
        self.write_var(value as u64);
    }

    /// Appends a VarLong.
    pub fn write_varlong(&mut self, value: i64)
        requires
            value >= 0,
        ensures
            final(self).data@ == old(self).data@ + varint_enc(value as nat),
    {
        self.write_var(value as u64);
    }

    /// Appends a boolean as the byte 1 or 0.
    pub fn write_bool(&mut self, value: bool)
        ensures
            final(self).data@ == old(self).data@.push(if value { 1u8 } else { 0u8 }),
    {
        self.write_byte(if value { 0x01 } else { 0x00 });
    }

    fn write_be(&mut self, value: u64, n: usize)
        requires
            n <= 8,
        ensures
            final(self).data@ == old(self).data@ + be_bytes(value as int, n as nat),
    {
        push_be(&mut self.data, value, n);
    }

    /// Appends an unsigned 16-bit number, high byte first.
    pub fn write_u16(&mut self, value: u16)
        ensures
            final(self).data@ == old(self).data@ + be_bytes(value as int, 2),
    {
        self.write_be(value as u64, 2);
    }

    /// Appends a signed 16-bit number, two's complement, high byte first.
    pub fn write_i16(&mut self, value: i16)
        ensures
            final(self).data@ == old(self).data@ + be_bytes(value as int, 2),
    {
        let bits: u64 = if value >= 0 { value as u64 } else { (value as i32 + 0x1_0000) as u64 };
        proof { lemma_pow256_values(); lemma_be_bytes_shift(value as int, 2, 1); }
        self.write_be(bits, 2);
    }

    /// Appends a signed 32-bit number, two's complement, high byte first.
    pub fn write_i32(&mut self, value: i32)
        ensures
            final(self).data@ == old(self).data@ + be_bytes(value as int, 4),
    {
        let bits: u64 = if value >= 0 { value as u64 } else { (value as i64 + 0x1_0000_0000) as u64 };
        proof { lemma_pow256_values(); lemma_be_bytes_shift(value as int, 4, 1); }
        self.write_be(bits, 4);
    }

    /// Appends a signed 64-bit number, two's complement, high byte first.
    pub fn write_long(&mut self, value: i64)
        ensures
            final(self).data@ == old(self).data@ + be_bytes(value as int, 8),
    {
        let bits: u64 = if value >= 0 {
            value as u64
        } else {
            (value as i128 + 0x1_0000_0000_0000_0000) as u64
        };
        proof { lemma_pow256_values(); lemma_be_bytes_shift(value as int, 8, 1); }
        self.write_be(bits, 8);
    }

    /// Appends a string: the VarInt byte length of its UTF-8 encoding, then
    /// the encoding. Strings longer than 32767 bytes are refused.
    pub fn write_string(&mut self, value: &str)
        requires
            value.spec_bytes().len() <= 32767,
        ensures
            final(self).data@ == old(self).data@ + string_enc(value@),
    {
        let bytes = value.as_bytes();
        self.write_varint(bytes.len() as i32);
        self.write_bytes(bytes);
        assert(self.data@ =~= old(self).data@ + string_enc(value@));
    }
}

} // verus!
