//! Entity movement and removal sent to clients.

use vstd::prelude::*;
use crate::protocol::packets::PacketOut;
use crate::protocol::wire::varint_enc;
use crate::protocol::writer::Writer;

verus! {

/// An entity moved by less than four blocks.
#[derive(Debug)]
pub struct EntityRelativeMove {
    pub entity_id: i32,
    pub dx: i8,
    pub dy: i8,
    pub dz: i8,
    pub on_ground: bool,
}

/// The byte of a boolean.
pub open spec fn bool_byte(b: bool) -> u8 {
    if b {
        1
    } else {
        0
    }
}

impl PacketOut for EntityRelativeMove {
    open spec fn encodable(&self) -> bool {
        self.entity_id >= 0
    }

    open spec fn wire(&self) -> Seq<u8> {
        varint_enc(0x15) + varint_enc(self.entity_id as nat) + seq![
            self.dx as u8,
            self.dy as u8,
            self.dz as u8,
            bool_byte(self.on_ground),
        ]
    }

    fn encode(&self, writer: &mut Writer) -> (r: std::io::Result<()>) {
        writer.write_varint(0x15);
        writer.write_varint(self.entity_id);
        writer.write_byte(self.dx as u8);
        writer.write_byte(self.dy as u8);
        writer.write_byte(self.dz as u8);
        writer.write_bool(self.on_ground);
        assert(writer.data@ =~= old(writer).data@ + self.wire());
        Ok(())
    }
}

/// An entity moved and turned.
#[derive(Debug)]
pub struct EntityLookAndMove {
    pub entity_id: i32,
    pub dx: i8,
    pub dy: i8,
    pub dz: i8,
    pub yaw: u8,
    pub pitch: u8,
    pub on_ground: bool,
}

impl PacketOut for EntityLookAndMove {
    open spec fn encodable(&self) -> bool {
        self.entity_id >= 0
    }

    open spec fn wire(&self) -> Seq<u8> {
        varint_enc(0x17) + varint_enc(self.entity_id as nat) + seq![
            self.dx as u8,
            self.dy as u8,
            self.dz as u8,
            self.yaw,
            self.pitch,
            bool_byte(self.on_ground),
        ]
    }

    fn encode(&self, writer: &mut Writer) -> (r: std::io::Result<()>) {
        writer.write_varint(0x17);
        writer.write_varint(self.entity_id);
        writer.write_byte(self.dx as u8);
        writer.write_byte(self.dy as u8);
        writer.write_byte(self.dz as u8);
        writer.write_byte(self.yaw);
        writer.write_byte(self.pitch);
        writer.write_bool(self.on_ground);
        assert(writer.data@ =~= old(writer).data@ + self.wire());
        Ok(())
    }
}

/// An entity turned.
#[derive(Debug)]
pub struct EntityLook {
    pub entity_id: i32,
    pub yaw: u8,
    pub pitch: u8,
    pub on_ground: bool,
}

impl PacketOut for EntityLook {
    open spec fn encodable(&self) -> bool {
        self.entity_id >= 0
    }

    open spec fn wire(&self) -> Seq<u8> {
        varint_enc(0x16) + varint_enc(self.entity_id as nat) + seq![
            self.yaw,
            self.pitch,
            bool_byte(self.on_ground),
        ]
    }

    fn encode(&self, writer: &mut Writer) -> (r: std::io::Result<()>) {
        writer.write_varint(0x16);
        writer.write_varint(self.entity_id);
        writer.write_byte(self.yaw);
        writer.write_byte(self.pitch);
        writer.write_bool(self.on_ground);
        assert(writer.data@ =~= old(writer).data@ + self.wire());
        Ok(())
    }
}

/// Entities that disappear from a client's view.
#[derive(Debug)]
pub struct DestroyEntities {
    pub entity_ids: Vec<i32>,
}

/// The VarInts of the ids, one after the other.
pub open spec fn varints(ids: Seq<i32>) -> Seq<u8>
    decreases ids.len(),
{
    if ids.len() == 0 {
        seq![]
    } else {
        varints(ids.drop_last()) + varint_enc(ids.last() as nat)
    }
}

impl PacketOut for DestroyEntities {
    open spec fn encodable(&self) -> bool {
        &&& self.entity_ids@.len() <= i32::MAX
        &&& forall|i: int| 0 <= i < self.entity_ids@.len() ==> self.entity_ids@[i] >= 0
    }

    open spec fn wire(&self) -> Seq<u8> {
        varint_enc(0x13) + varint_enc(self.entity_ids@.len()) + varints(self.entity_ids@)
    }

    fn encode(&self, writer: &mut Writer) -> (r: std::io::Result<()>) {
        writer.write_varint(0x13);
        writer.write_varint(self.entity_ids.len() as i32);
        let ghost head = writer.data@;
        let mut i: usize = 0;
        while i < self.entity_ids.len()
            invariant
                i <= self.entity_ids@.len(),
                forall|k: int| 0 <= k < self.entity_ids@.len() ==> self.entity_ids@[k] >= 0,
                writer.data@ == head + varints(self.entity_ids@.take(i as int)),
            decreases self.entity_ids.len() - i,
        {
            writer.write_varint(self.entity_ids[i]);
            assert(self.entity_ids@.take(i + 1).drop_last() =~= self.entity_ids@.take(i as int));
            assert(writer.data@ =~= head + varints(self.entity_ids@.take(i + 1)));
            i = i + 1;
        }
        assert(self.entity_ids@.take(i as int) =~= self.entity_ids@);
        assert(writer.data@ =~= old(writer).data@ + self.wire());
        Ok(())
    }
}

/// The direction an entity's head faces.
#[derive(Debug)]
pub struct EntityHeadLook {
    pub entity_id: i32,
    pub head_yaw: u8,
}

impl PacketOut for EntityHeadLook {
    open spec fn encodable(&self) -> bool {
        self.entity_id >= 0
    }

    open spec fn wire(&self) -> Seq<u8> {
        varint_enc(0x19) + varint_enc(self.entity_id as nat) + seq![self.head_yaw]
    }

    fn encode(&self, writer: &mut Writer) -> (r: std::io::Result<()>) {
        writer.write_varint(0x19);
        writer.write_varint(self.entity_id);
        writer.write_byte(self.head_yaw);
        assert(writer.data@ =~= old(writer).data@ + self.wire());
        Ok(())
    }
}

} // verus!
