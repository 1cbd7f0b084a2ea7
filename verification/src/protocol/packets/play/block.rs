//! Digging, placing, holding and changing blocks.

use vstd::prelude::*;
use crate::protocol::fields::{take_byte, take_i16, take_i64};
use crate::protocol::packets::play::{pack_block_position, pack_position, unpack_block_position, unpack_position};
use crate::protocol::packets::{reader_for, PacketOut, ProtocolError};
use crate::protocol::wire::{be_bytes, varint_enc};
use crate::protocol::writer::Writer;

verus! {

/// A player digging at a block.
#[derive(Debug)]
pub struct PlayerDig {
    pub status: u8,
    pub x: i32,
    pub y: u8,
    pub z: i32,
    pub face: u8,
}

/// The status, packed position and face of a dig.
pub open spec fn dig_fields(s: Seq<u8>) -> Option<(u8, i64, u8)> {
    match take_byte(s) {
        Some((status, s1)) => match take_i64(s1) {
            Some((position, s2)) => match take_byte(s2) {
                Some((face, _)) => Some((status, position, face)),
                None => None,
            },
            None => None,
        },
        None => None,
    }
}

impl PlayerDig {
    /// Reads a dig: status byte, packed position, face byte.
    pub fn decode(buf: &[u8]) -> (r: Result<Self, ProtocolError>)
        requires
            dig_fields(buf@) is Some,
        ensures
            r matches Ok(d) && ({
                let (status, position, face) = dig_fields(buf@).unwrap();
                &&& d.status == status
                &&& (d.x, d.y, d.z) == unpack_position(position)
                &&& d.face == face
            }),
    {
        let mut reader = reader_for(buf);
        let status = reader.read_byte();
        let position = reader.read_long();
        let (x, y, z) = unpack_block_position(position);
        let face = reader.read_byte();
        Ok(PlayerDig { status, x, y, z, face })
    }
}

/// A player placing a block or using the held item.
#[derive(Debug)]
pub struct PlayerBlockPlacement {
    pub x: i32,
    pub y: u8,
    pub z: i32,
    pub face: u8,
    pub held_item_id: i16,
    pub held_item_count: u8,
    pub held_item_damage: i16,
    pub cursor_x: u8,
    pub cursor_y: u8,
    pub cursor_z: u8,
}

/// The item fields of a placement: count, damage and the cursor, present
/// only when an item is held.
pub open spec fn held_item_fields(s: Seq<u8>) -> Option<(u8, i16, u8, u8, u8)> {
    match take_byte(s) {
        Some((count, s1)) => match take_i16(s1) {
            Some((damage, s2)) => match take_byte(s2) {
                Some((cx, s3)) => match take_byte(s3) {
                    Some((cy, s4)) => match take_byte(s4) {
                        Some((cz, _)) => Some((count, damage, cx, cy, cz)),
                        None => None,
                    },
                    None => None,
                },
                None => None,
            },
            None => None,
        },
        None => None,
    }
}

/// The fields of a placement: packed position, face, held item id, and the
/// item fields, zero when the held item id is -1.
pub open spec fn placement_fields(s: Seq<u8>) -> Option<(i64, u8, i16, (u8, i16, u8, u8, u8))> {
    match take_i64(s) {
        Some((position, s1)) => match take_byte(s1) {
            Some((face, s2)) => match take_i16(s2) {
                Some((item, s3)) => if item == -1 {
                    Some((position, face, item, (0u8, 0i16, 0u8, 0u8, 0u8)))
                } else {
                    match held_item_fields(s3) {
                        Some(f) => Some((position, face, item, f)),
                        None => None,
                    }
                },
                None => None,
            },
            None => None,
        },
        None => None,
    }
}

impl PlayerBlockPlacement {
    /// Reads a placement.
    pub fn decode(buf: &[u8]) -> (r: Result<Self, ProtocolError>)
        requires
            placement_fields(buf@) is Some,
        ensures
            r matches Ok(p) && ({
                let (position, face, item, f) = placement_fields(buf@).unwrap();
                &&& (p.x, p.y, p.z) == unpack_position(position)
                &&& p.face == face
                &&& p.held_item_id == item
                &&& (p.held_item_count, p.held_item_damage, p.cursor_x, p.cursor_y, p.cursor_z) == f
            }),
    {
        let mut reader = reader_for(buf);
        let position = reader.read_long();
        let (x, y, z) = unpack_block_position(position);
        let face = reader.read_byte();
        let held_item_id = reader.read_i16();
        let (held_item_count, held_item_damage, cursor_x, cursor_y, cursor_z) = if held_item_id != -1 {
            let count = reader.read_byte();
            let damage = reader.read_i16();
            let cx = reader.read_byte();
            let cy = reader.read_byte();
            let cz = reader.read_byte();
            (count, damage, cx, cy, cz)
        } else {
            (0u8, 0i16, 0u8, 0u8, 0u8)
        };
        Ok(PlayerBlockPlacement {
            x,
            y,
            z,
            face,
            held_item_id,
            held_item_count,
            held_item_damage,
            cursor_x,
            cursor_y,
            cursor_z,
        })
    }
}

/// The hotbar slot a player switched to.
#[derive(Debug)]
pub struct HeldItemChange {
    pub slot: i16,
}

impl HeldItemChange {
    /// Reads the slot.
    pub fn decode(buf: &[u8]) -> (r: Result<Self, ProtocolError>)
        requires
            take_i16(buf@) is Some,
        ensures
            r matches Ok(h) && h.slot == take_i16(buf@).unwrap().0,
    {
        let mut reader = reader_for(buf);
        let slot = reader.read_i16();
        Ok(HeldItemChange { slot })
    }
}

/// A block that changed, sent to clients.
#[derive(Debug)]
pub struct BlockChange {
    pub x: i32,
    pub y: i32,
    pub z: i32,
    pub block_id: i32,
    pub block_metadata: u8,
}

/// The block state sent for an id and metadata: the id shifted left by
/// four bits, or-ed with the metadata.
pub open spec fn block_state_id(block_id: i32, metadata: u8) -> i32 {
    (block_id << 4u32) | (metadata as i32)
}

impl PacketOut for BlockChange {
    open spec fn encodable(&self) -> bool {
        block_state_id(self.block_id, self.block_metadata) >= 0
    }

    open spec fn wire(&self) -> Seq<u8> {
        varint_enc(0x23) + be_bytes(pack_position(self.x, self.y, self.z) as int, 8) + varint_enc(
            block_state_id(self.block_id, self.block_metadata) as nat,
        )
    }

    fn encode(&self, writer: &mut Writer) -> (r: std::io::Result<()>) {
        writer.write_varint(0x23);
        let position = pack_block_position(self.x, self.y, self.z);
        writer.write_long(position);
        writer.write_varint(self.block_id << 4u32 | self.block_metadata as i32);
        assert(writer.data@ =~= old(writer).data@ + self.wire());
        Ok(())
    }
}

} // verus!
