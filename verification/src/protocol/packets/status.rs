//! The server list ping: status request and response, ping and pong.

use vstd::prelude::*;
use vstd::utf8::*;
use crate::protocol::fields::{lemma_take_i64, take_i64, take_string};
use crate::protocol::packets::{reader_for, PacketOut, ProtocolError};
use crate::protocol::wire::{be_bytes, string_enc, varint_enc};
use crate::protocol::writer::Writer;

verus! {

/// A request for the server's status; it has no fields.
#[derive(Debug)]
pub struct Request;

impl Request {
    /// Accepts only an empty body.
    pub fn decode(buf: &[u8]) -> (r: Result<Self, ProtocolError>)
        ensures
            r is Ok <==> buf@.len() == 0,
            r matches Err(e) ==> e == ProtocolError::ExtraBytes,
    {
        let reader = reader_for(buf);
        if reader.has_remaining() {
            return Err(ProtocolError::ExtraBytes);
        }
        Ok(Request)
    }
}

impl PacketOut for Request {
    open spec fn encodable(&self) -> bool {
        true
    }

    open spec fn wire(&self) -> Seq<u8> {
        varint_enc(0)
    }

    fn encode(&self, writer: &mut Writer) -> (r: std::io::Result<()>) {
        writer.write_varint(0x00);
        Ok(())
    }
}

/// The server's status, as JSON text.
#[derive(Debug)]
pub struct Response {
    json: String,
}

impl Response {
    /// A response carrying the given JSON text.
    pub fn from_json(json: String) -> (r: Self)
        ensures
            r.json_text() == json@,
    {
        Response { json }
    }

    /// The JSON text of the status.
    pub closed spec fn json_text(&self) -> Seq<char> {
        self.json@
    }

    /// Reads the JSON text.
    pub fn decode(buf: &[u8]) -> (r: Result<Self, ProtocolError>)
        requires
            take_string(buf@) is Some,
        ensures
            r matches Ok(p) && p.json_text() == take_string(buf@).unwrap().0,
    {
        let mut reader = reader_for(buf);
        let json = reader.read_string();
        Ok(Response { json })
    }
}

impl PacketOut for Response {
    open spec fn encodable(&self) -> bool {
        encode_utf8(self.json_text()).len() <= 32767
    }

    open spec fn wire(&self) -> Seq<u8> {
        varint_enc(0) + string_enc(self.json_text())
    }

    fn encode(&self, writer: &mut Writer) -> (r: std::io::Result<()>) {
        writer.write_varint(0x00);
        writer.write_string(self.json.as_str());
        assert(writer.data@ =~= old(writer).data@ + self.wire());
        Ok(())
    }
}

/// A ping with the client's time.
#[derive(Debug)]
pub struct Ping {
    pub time: i64,
}

impl Ping {
    /// Reads the time; bytes after it are refused.
    pub fn decode(buf: &[u8]) -> (r: Result<Self, ProtocolError>)
        requires
            take_i64(buf@) is Some,
        ensures
            r is Ok <==> take_i64(buf@).unwrap().1.len() == 0,
            r matches Ok(p) ==> p.time == take_i64(buf@).unwrap().0,
            r matches Err(e) ==> e == ProtocolError::ExtraBytes,
    {
        let mut reader = reader_for(buf);
        let time = reader.read_long();
        if reader.has_remaining() {
            return Err(ProtocolError::ExtraBytes);
        }
        Ok(Ping { time })
    }
}

impl PacketOut for Ping {
    open spec fn encodable(&self) -> bool {
        true
    }

    open spec fn wire(&self) -> Seq<u8> {
        be_bytes(self.time as int, 8)
    }

    fn encode(&self, writer: &mut Writer) -> (r: std::io::Result<()>) {
        writer.write_long(self.time);
        Ok(())
    }
}

/// The answer to a ping, with the same time.
#[derive(Debug)]
pub struct Pong {
    pub time: i64,
}

impl PacketOut for Pong {
    open spec fn encodable(&self) -> bool {
        true
    }

    open spec fn wire(&self) -> Seq<u8> {
        varint_enc(1) + be_bytes(self.time as int, 8)
    }

    fn encode(&self, writer: &mut Writer) -> (r: std::io::Result<()>) {
        writer.write_varint(0x01);
        writer.write_long(self.time);
        assert(writer.data@ =~= old(writer).data@ + self.wire());
        Ok(())
    }
}

/// A ping read from the bytes of a ping has the time written.
pub proof fn law_ping_roundtrip(p: Ping)
    ensures
        take_i64(p.wire()) == Some((p.time, Seq::<u8>::empty())),
{
    lemma_take_i64(p.time, Seq::empty());
    assert(p.wire() + Seq::<u8>::empty() =~= p.wire());
}

} // verus!
