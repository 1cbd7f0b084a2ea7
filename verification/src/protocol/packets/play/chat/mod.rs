//! Chat messages, in and out.

use vstd::prelude::*;
use vstd::utf8::*;
use crate::protocol::fields::take_string;
use crate::protocol::packets::{reader_for, PacketOut, ProtocolError};
use crate::protocol::wire::{string_enc, varint_enc};
use crate::protocol::writer::Writer;

pub mod builder;

verus! {

/// A chat line typed by a player.
#[derive(Debug)]
pub struct ChatMessage {
    pub message: String,
}

impl ChatMessage {
    /// Reads the line.
    pub fn decode(buf: &[u8]) -> (r: Result<Self, ProtocolError>)
        requires
            take_string(buf@) is Some,
        ensures
            r matches Ok(m) && m.message@ == take_string(buf@).unwrap().0,
    {
        let mut reader = reader_for(buf);
        let message = reader.read_string();
        Ok(ChatMessage { message })
    }
}

impl PacketOut for ChatMessage {
    open spec fn encodable(&self) -> bool {
        encode_utf8(self.message@).len() <= 32767
    }

    open spec fn wire(&self) -> Seq<u8> {
        varint_enc(1) + string_enc(self.message@)
    }

    fn encode(&self, writer: &mut Writer) -> (r: std::io::Result<()>) {
        writer.write_varint(0x01);
        writer.write_string(self.message.as_str());
        assert(writer.data@ =~= old(writer).data@ + self.wire());
        Ok(())
    }
}

/// A chat message sent to a client, as JSON text.
#[derive(Debug)]
pub struct ChatMessageOut {
    pub json: String,
}

impl ChatMessageOut {
    /// A message carrying the JSON text.
    pub fn from_json(json: &str) -> (m: Self)
        ensures
            m.json@ == json@,
    {
        Self { json: json.to_owned() }
    }
}

impl PacketOut for ChatMessageOut {
    open spec fn encodable(&self) -> bool {
        encode_utf8(self.json@).len() <= 32767
    }

    /// The id, the JSON text, and position 0: a chat line.
    open spec fn wire(&self) -> Seq<u8> {
        varint_enc(2) + string_enc(self.json@) + seq![0u8]
    }

    fn encode(&self, writer: &mut Writer) -> (r: std::io::Result<()>) {
        writer.write_varint(0x02);
        writer.write_string(self.json.as_str());
        writer.write_byte(0);
        assert(writer.data@ =~= old(writer).data@ + self.wire());
        Ok(())
    }
}

} // verus!
