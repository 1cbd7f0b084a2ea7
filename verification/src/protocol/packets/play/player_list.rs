//! The tab list.

use vstd::prelude::*;
use vstd::utf8::*;
use crate::protocol::packets::play::entity::bool_byte;
use crate::protocol::packets::PacketOut;
use crate::protocol::wire::{be_bytes, string_enc, varint_enc};
use crate::protocol::writer::Writer;

verus! {

/// A tab list entry for 1.7 clients: the name, whether the player is
/// online, and the ping.
#[derive(Debug)]
pub struct PlayerListItem17 {
    pub username: String,
    pub online: bool,
    pub ping: i16,
}

impl PacketOut for PlayerListItem17 {
    open spec fn encodable(&self) -> bool {
        encode_utf8(self.username@).len() <= 32767
    }

    open spec fn wire(&self) -> Seq<u8> {
        varint_enc(0xC9) + string_enc(self.username@) + seq![bool_byte(self.online)] + be_bytes(
            self.ping as u16 as int,
            2,
        )
    }

    fn encode(&self, writer: &mut Writer) -> (r: std::io::Result<()>) {
        writer.write_varint(0xC9);
        writer.write_string(self.username.as_str());
        writer.write_bool(self.online);
        writer.write_u16(self.ping as u16);
        assert(writer.data@ =~= old(writer).data@ + self.wire());
        Ok(())
    }
}

} // verus!
