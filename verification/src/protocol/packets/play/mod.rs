//! Packets of the play state: the spawn position, plugin messages, and the
//! block position packing shared by block packets.

use vstd::prelude::*;
use vstd::utf8::*;
use crate::protocol::fields::{take_bool, take_string};
use crate::protocol::packets::{reader_for, PacketOut, ProtocolError};
use crate::protocol::wire::{be_bytes, string_enc, varint_enc, wrap64};
use crate::protocol::writer::Writer;

pub mod block;
pub mod chat;
pub mod entity;
pub mod inventory;
pub mod player_list;

verus! {

/// The two's complement bits of `p`, as an unsigned number.
pub open spec fn bits64(p: i64) -> int {
    p as int % 0x1_0000_0000_0000_0000
}

/// The signed value of 26 bits.
pub open spec fn signed26(v: int) -> int {
    if v >= 0x200_0000 {
        v - 0x400_0000
    } else {
        v
    }
}

/// A block position packed in 64 bits: x in the high 26 bits, then y in 12
/// bits, then z in the low 26 bits, each cut to its width.
pub open spec fn pack_position(x: i32, y: i32, z: i32) -> i64 {
    wrap64(
        (x as int % 0x400_0000) * 0x40_0000_0000 + (y as int % 0x1000) * 0x400_0000 + (z as int % 0x400_0000),
    )
}

/// The position in packed bits: x and z signed, y the low eight of its
/// twelve bits.
pub open spec fn unpack_position(p: i64) -> (i32, u8, i32) {
    (
        signed26(bits64(p) / 0x40_0000_0000) as i32,
        (bits64(p) / 0x400_0000 % 0x100) as u8,
        signed26(bits64(p) % 0x400_0000) as i32,
    )
}

/// The low `m` bits of an `i32`, `m` a power of two dividing 2^31.
fn low_bits(v: i32, m: u64) -> (r: u64)
    requires
        m == 0x1000 || m == 0x400_0000,
    ensures
        r == v as int % (m as int),
{
    proof {
        if m == 0x1000 {
            vstd::arithmetic::div_mod::lemma_mod_multiples_vanish(0x8_0000int, v as int, 0x1000int);
        } else {
            vstd::arithmetic::div_mod::lemma_mod_multiples_vanish(0x20int, v as int, 0x400_0000int);
        }
    }
    (v as i64 + 0x8000_0000) as u64 % m
}

/// Packs a block position as `pack_position` says.
pub fn pack_block_position(x: i32, y: i32, z: i32) -> (p: i64)
    ensures
        p == pack_position(x, y, z),
{
    let xl = low_bits(x, 0x400_0000);
    let yl = low_bits(y, 0x1000);
    let zl = low_bits(z, 0x400_0000);
    let u: u64 = xl * 0x40_0000_0000 + yl * 0x400_0000 + zl;
    if u < 0x8000_0000_0000_0000 {
        u as i64
    } else {
        (u as i128 - 0x1_0000_0000_0000_0000) as i64
    }
}

/// Unpacks a block position as `unpack_position` says.
pub fn unpack_block_position(p: i64) -> (r: (i32, u8, i32))
    ensures
        r == unpack_position(p),
{
    let u: u64 = if p >= 0 {
        p as u64
    } else {
        (p as i128 + 0x1_0000_0000_0000_0000) as u64
    };
    assert(u == bits64(p));
    let xr = u / 0x40_0000_0000;
    let x: i32 = if xr >= 0x200_0000 {
        (xr as i64 - 0x400_0000) as i32
    } else {
        xr as i32
    };
    let y = (u / 0x400_0000 % 0x100) as u8;
    let zr = u % 0x400_0000;
    let z: i32 = if zr >= 0x200_0000 {
        (zr as i64 - 0x400_0000) as i32
    } else {
        zr as i32
    };
    (x, y, z)
}

/// Unpacking a packed position gives x and z back, and the low eight bits
/// of y, for x and z within 26 signed bits.
pub proof fn law_position_roundtrip(x: i32, y: i32, z: i32)
    requires
        -0x200_0000 <= x < 0x200_0000,
        -0x200_0000 <= z < 0x200_0000,
    ensures
        unpack_position(pack_position(x, y, z)) == (x, (y as int % 0x100) as u8, z),
{
    let xl = x as int % 0x400_0000;
    let yl = y as int % 0x1000;
    let zl = z as int % 0x400_0000;
    let v = xl * 0x40_0000_0000 + yl * 0x400_0000 + zl;
    assert(0 <= v < 0x1_0000_0000_0000_0000);
    assert(bits64(pack_position(x, y, z)) == v);
    assert(v / 0x40_0000_0000 == xl) by (nonlinear_arith)
        requires
            v == xl * 0x40_0000_0000 + yl * 0x400_0000 + zl,
            0 <= yl < 0x1000,
            0 <= zl < 0x400_0000,
    ;
    assert(v / 0x400_0000 == xl * 0x1000 + yl) by (nonlinear_arith)
        requires
            v == xl * 0x40_0000_0000 + yl * 0x400_0000 + zl,
            0 <= zl < 0x400_0000,
    ;
    assert((xl * 0x1000 + yl) % 0x100 == y as int % 0x100) by (nonlinear_arith)
        requires
            yl == y as int % 0x1000,
            xl >= 0,
    ;
    assert(v % 0x400_0000 == zl) by (nonlinear_arith)
        requires
            v == xl * 0x40_0000_0000 + yl * 0x400_0000 + zl,
            0 <= zl < 0x400_0000,
            xl >= 0,
            yl >= 0,
    ;
}

/// The world spawn, for 1.8 clients: a packed position.
#[derive(Debug)]
pub struct SpawnPosition {
    pub x: i32,
    pub y: i32,
    pub z: i32,
}

impl PacketOut for SpawnPosition {
    open spec fn encodable(&self) -> bool {
        true
    }

    open spec fn wire(&self) -> Seq<u8> {
        varint_enc(5) + be_bytes(pack_position(self.x, self.y, self.z) as int, 8)
    }

    fn encode(&self, writer: &mut Writer) -> (r: std::io::Result<()>) {
        writer.write_varint(0x05);
        let packed = pack_block_position(self.x, self.y, self.z);
        writer.write_long(packed);
        assert(writer.data@ =~= old(writer).data@ + self.wire());
        Ok(())
    }
}

/// The world spawn, for 1.7 clients: three 32-bit numbers.
#[derive(Debug)]
pub struct SpawnPosition17 {
    pub x: i32,
    pub y: i32,
    pub z: i32,
}

impl PacketOut for SpawnPosition17 {
    open spec fn encodable(&self) -> bool {
        true
    }

    open spec fn wire(&self) -> Seq<u8> {
        varint_enc(5) + be_bytes(self.x as int, 4) + be_bytes(self.y as int, 4) + be_bytes(self.z as int, 4)
    }

    fn encode(&self, writer: &mut Writer) -> (r: std::io::Result<()>) {
        writer.write_varint(0x05);
        writer.write_i32(self.x);
        writer.write_i32(self.y);
        writer.write_i32(self.z);
        assert(writer.data@ =~= old(writer).data@ + self.wire());
        Ok(())
    }
}

/// A message on a named plugin channel.
#[derive(Debug)]
pub struct PluginMessage {
    pub channel: String,
    pub data: Vec<u8>,
}

impl PluginMessage {
    /// Reads the channel name; the rest of the bytes are the data.
    pub fn decode_raw(buf: &[u8]) -> (r: Result<Self, ProtocolError>)
        requires
            take_string(buf@) is Some,
        ensures
            r matches Ok(m) && m.channel@ == take_string(buf@).unwrap().0 && m.data@ == take_string(
                buf@,
            ).unwrap().1,
    {
        let mut reader = reader_for(buf);
        let channel = reader.read_string();
        let n = reader.remaining();
        let data = reader.read_bytes(n);
        assert(data@ =~= take_string(buf@).unwrap().1);
        Ok(PluginMessage { channel, data })
    }

    /// Reads a plugin message, as `decode_raw` does.
    pub fn decode(buf: &[u8]) -> (r: Result<Self, ProtocolError>)
        requires
            take_string(buf@) is Some,
        ensures
            r matches Ok(m) && m.channel@ == take_string(buf@).unwrap().0 && m.data@ == take_string(
                buf@,
            ).unwrap().1,
    {
        Self::decode_raw(buf)
    }

    /// The `MC|Brand` message naming the server software: the name as a
    /// length-prefixed string.
    pub fn brand(name: &str) -> (m: Self)
        requires
            encode_utf8(name@).len() <= i32::MAX,
        ensures
            m.channel@ == seq!['M', 'C', '|', 'B', 'r', 'a', 'n', 'd'],
            m.data@ == varint_enc(encode_utf8(name@).len()) + encode_utf8(name@),
    {
        let mut data = Writer::new();
        let bytes = name.as_bytes();
        data.write_varint(bytes.len() as i32);
        data.write_bytes(bytes);
        proof {
            reveal_strlit("MC|Brand");
        }
        let channel = "MC|Brand".to_owned();
        PluginMessage { channel, data: data.data }
    }
}

impl PacketOut for PluginMessage {
    open spec fn encodable(&self) -> bool {
        encode_utf8(self.channel@).len() <= 32767 && self.data@.len() <= i32::MAX
    }

    open spec fn wire(&self) -> Seq<u8> {
        varint_enc(0x3F) + string_enc(self.channel@) + varint_enc(self.data@.len()) + self.data@
    }

    fn encode(&self, writer: &mut Writer) -> (r: std::io::Result<()>) {
        writer.write_varint(0x3F);
        writer.write_string(self.channel.as_str());
        writer.write_varint(self.data.len() as i32);
        writer.write_bytes(self.data.as_slice());
        assert(writer.data@ =~= old(writer).data@ + self.wire());
        Ok(())
    }
}

/// Whether the player stands on the ground.
#[derive(Debug)]
pub struct PlayerOnGround {
    pub on_ground: bool,
}

impl PlayerOnGround {
    /// Reads the flag; a byte other than 0 or 1 is not read.
    pub fn decode(buf: &[u8]) -> (r: Result<Self, ProtocolError>)
        requires
            take_bool(buf@) is Some,
        ensures
            r matches Ok(p) && p.on_ground == take_bool(buf@).unwrap().0,
    {
        let mut reader = reader_for(buf);
        let on_ground = reader.read_bool();
        Ok(PlayerOnGround { on_ground })
    }
}

} // verus!
