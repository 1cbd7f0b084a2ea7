//! The handshake that picks a protocol state, and the keep-alive.

use vstd::prelude::*;
use vstd::utf8::*;
use crate::protocol::fields::{
    lemma_take_string, lemma_take_u16, lemma_take_varint, take_string, take_u16, take_varint,
};
use crate::protocol::packets::{reader_for, PacketOut, ProtocolError};
use crate::protocol::wire::{be_bytes, string_enc, varint_enc};
use crate::protocol::writer::Writer;

verus! {

/// The protocol states of a connection.
#[derive(Debug, Clone, Copy, PartialEq, Eq, Hash)]
pub enum EnumProtocol {
    Handshaking,
    Status,
    Login,
    Play,
}

impl EnumProtocol {
    /// The number of a state on the wire.
    pub open spec fn id_of(self) -> i8 {
        match self {
            EnumProtocol::Handshaking => 0,
            EnumProtocol::Status => 1,
            EnumProtocol::Login => 2,
            EnumProtocol::Play => 3,
        }
    }

    /// The state with a number, if any.
    pub open spec fn from_id(v: i32) -> Option<EnumProtocol> {
        if v == 0 {
            Some(EnumProtocol::Handshaking)
        } else if v == 1 {
            Some(EnumProtocol::Status)
        } else if v == 2 {
            Some(EnumProtocol::Login)
        } else if v == 3 {
            Some(EnumProtocol::Play)
        } else {
            None
        }
    }

    /// The number of this state on the wire.
    pub fn to_id(&self) -> (r: i8)
        ensures
            r == self.id_of(),
    {
        match self {
            EnumProtocol::Handshaking => 0,
            EnumProtocol::Status => 1,
            EnumProtocol::Login => 2,
            EnumProtocol::Play => 3,
        }
    }
}

/// The first packet of a connection.
#[derive(Debug)]
pub struct PacketHandshake {
    pub protocol_version: i32,
    host_name: String,
    port: u16,
    pub requested_protocol: EnumProtocol,
}

/// The fields of a handshake read off the front of `s`, and what follows:
/// `None` where a field runs out (where reading panics).
pub open spec fn handshake_fields(s: Seq<u8>) -> Option<(i32, Seq<char>, u16, i32, Seq<u8>)> {
    match take_varint(s) {
        Some((version, s1)) => match take_string(s1) {
            Some((host, s2)) => match take_u16(s2) {
                Some((port, s3)) => match take_varint(s3) {
                    Some((state, s4)) => Some((version, host, port, state, s4)),
                    None => None,
                },
                None => None,
            },
            None => None,
        },
        None => None,
    }
}

/// What decoding a handshake gives: its version, host, port and state, or
/// the error for an unknown state or for bytes left over.
pub open spec fn handshake_decoded(s: Seq<u8>) -> Result<(i32, Seq<char>, u16, EnumProtocol), ProtocolError> {
    let (version, host, port, state, rest) = handshake_fields(s).unwrap();
    match EnumProtocol::from_id(state) {
        None => Err(ProtocolError::UnknownProtocol(state)),
        Some(p) => if rest.len() > 0 {
            Err(ProtocolError::BytesRemaining(rest.len() as usize))
        } else {
            Ok((version, host, port, p))
        },
    }
}

impl View for PacketHandshake {
    type V = (i32, Seq<char>, u16, EnumProtocol);

    closed spec fn view(&self) -> (i32, Seq<char>, u16, EnumProtocol) {
        (self.protocol_version, self.host_name@, self.port, self.requested_protocol)
    }
}

impl PacketHandshake {
    /// Reads a handshake.
    pub fn decode(buf: &[u8]) -> (r: Result<Self, ProtocolError>)
        requires
            handshake_fields(buf@) is Some,
        ensures
            r matches Ok(p) ==> handshake_decoded(buf@) == Ok::<_, ProtocolError>(p@),
            r matches Err(e) ==> handshake_decoded(buf@) == Err::<(i32, Seq<char>, u16, EnumProtocol), _>(e),
    {
        let mut reader = reader_for(buf);
        let protocol_version = reader.read_varint();
        let host_name = reader.read_string();
        let port = reader.read_u16();
        let state = reader.read_varint();
        let requested_protocol = if state == 0 {
            EnumProtocol::Handshaking
        } else if state == 1 {
            EnumProtocol::Status
        } else if state == 2 {
            EnumProtocol::Login
        } else if state == 3 {
            EnumProtocol::Play
        } else {
            return Err(ProtocolError::UnknownProtocol(state));
        };
        if reader.has_remaining() {
            return Err(ProtocolError::BytesRemaining(reader.remaining()));
        }
        let p = PacketHandshake { protocol_version, host_name, port, requested_protocol };
        assert(p@ == (protocol_version, host_name@, port, requested_protocol));
        Ok(p)
    }

    /// Whether the handshake can be written.
    pub closed spec fn can_encode(&self) -> bool {
        self.protocol_version >= 0 && encode_utf8(self.host_name@).len() <= 32767
    }

    /// The bytes of a handshake with these fields.
    pub open spec fn bytes_of(v: (i32, Seq<char>, u16, EnumProtocol)) -> Seq<u8> {
        varint_enc(v.0 as nat) + string_enc(v.1) + be_bytes(v.2 as int, 2) + varint_enc(v.3.id_of() as nat)
    }
}

impl PacketOut for PacketHandshake {
    open spec fn encodable(&self) -> bool {
        self.can_encode()
    }

    open spec fn wire(&self) -> Seq<u8> {
        PacketHandshake::bytes_of(self@)
    }

    fn encode(&self, buffer: &mut Writer) -> (r: std::io::Result<()>) {
        buffer.write_varint(self.protocol_version);
        buffer.write_string(self.host_name.as_str());
        buffer.write_u16(self.port);
        buffer.write_varbyte(self.requested_protocol.to_id());
        assert(buffer.data@ =~= old(buffer).data@ + PacketHandshake::bytes_of(self@));
        Ok(())
    }
}

/// Reading the bytes of a handshake gives the handshake back.
pub proof fn law_handshake_roundtrip(version: i32, host: Seq<char>, port: u16, state: EnumProtocol)
    requires
        version >= 0,
        encode_utf8(host).len() <= 32767,
    ensures
        handshake_fields(PacketHandshake::bytes_of((version, host, port, state))) is Some,
        handshake_decoded(PacketHandshake::bytes_of((version, host, port, state))) == Ok::<
            _,
            ProtocolError,
        >((version, host, port, state)),
{
    let s3 = varint_enc(state.id_of() as nat);
    let s2 = be_bytes(port as int, 2) + s3;
    let s1 = string_enc(host) + s2;
    let s = varint_enc(version as nat) + s1;
    assert(PacketHandshake::bytes_of((version, host, port, state)) =~= s);
    lemma_take_varint(version, s1);
    lemma_take_string(host, s2);
    lemma_take_u16(port, s3);
    lemma_take_varint(state.id_of() as i32, Seq::empty());
    assert(s3 + Seq::<u8>::empty() =~= s3);
}

/// A keep-alive, sent and echoed with an id.
#[derive(Debug)]
pub struct KeepAlive {
    pub id: i32,
}

/// The id of a keep-alive read off `s`: a packet id VarInt, then the id.
pub open spec fn keepalive_fields(s: Seq<u8>) -> Option<(i32, i32, Seq<u8>)> {
    match take_varint(s) {
        Some((packet_id, s1)) => match take_varint(s1) {
            Some((id, s2)) => Some((packet_id, id, s2)),
            None => None,
        },
        None => None,
    }
}

impl KeepAlive {
    /// Reads a keep-alive: the packet id, then the id; the packet id is not
    /// checked and bytes after the id are ignored.
    pub fn decode(buf: &[u8]) -> (r: Result<Self, ProtocolError>)
        requires
            keepalive_fields(buf@) is Some,
        ensures
            r matches Ok(k) && k.id == keepalive_fields(buf@).unwrap().1,
    {
        let mut reader = reader_for(buf);
        let _packet_id = reader.read_varint();
        let id = reader.read_varint();
        Ok(KeepAlive { id })
    }
}

impl PacketOut for KeepAlive {
    open spec fn encodable(&self) -> bool {
        self.id >= 0
    }

    open spec fn wire(&self) -> Seq<u8> {
        varint_enc(0) + varint_enc(self.id as nat)
    }

    fn encode(&self, writer: &mut Writer) -> (r: std::io::Result<()>) {
        writer.write_varint(0x00);
        writer.write_varint(self.id);
        assert(writer.data@ =~= old(writer).data@ + self.wire());
        Ok(())
    }
}

/// Reading the bytes of a keep-alive gives its id back.
pub proof fn law_keepalive_roundtrip(k: KeepAlive)
    requires
        k.encodable(),
    ensures
        keepalive_fields(k.wire()) matches Some((_, id, _)) && id == k.id,
{
    lemma_take_varint(0, varint_enc(k.id as nat));
    lemma_take_varint(k.id, Seq::empty());
    assert(varint_enc(k.id as nat) + Seq::<u8>::empty() =~= varint_enc(k.id as nat));
}

} // verus!
