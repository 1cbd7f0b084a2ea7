//! Packets: what each one puts on the wire, and how inbound ones are read.

use vstd::prelude::*;
use vstd::slice::slice_to_vec;
use crate::protocol::packets::handshake::EnumProtocol;
use crate::protocol::reader::Reader;
use crate::protocol::writer::Writer;

pub mod handshake;
pub mod login;
pub mod play;
pub mod status;

verus! {

#[verifier::external_type_specification]
#[verifier::external_body]
pub struct ExIoError(std::io::Error);

/// A packet the server writes.
pub trait PacketOut {
    /// Whether the packet can be written: VarInt fields must not be
    /// negative and strings must fit in 32767 bytes of UTF-8.
    spec fn encodable(&self) -> bool;

    /// The bytes of the packet.
    spec fn wire(&self) -> Seq<u8>;

    /// Appends the packet to the writer's buffer; this never fails.
    fn encode(&self, writer: &mut Writer) -> (r: std::io::Result<()>)
        requires
            self.encodable(),
        ensures
            r is Ok,
            final(writer).data@ == old(writer).data@ + self.wire(),
    ;
}

/// Why an inbound packet was refused.
#[derive(Debug, Clone, Copy, PartialEq, Eq)]
pub enum ProtocolError {
    /// A handshake asked for a protocol state other than 0 to 3.
    UnknownProtocol(i32),
    /// Bytes were left after a handshake.
    BytesRemaining(usize),
    /// Bytes were left after a packet that has no more fields.
    ExtraBytes,
}

/// Identifies an inbound packet: the protocol state and the packet id.
#[derive(Debug, Clone, Copy, PartialEq, Eq, Hash)]
pub struct PacketKey {
    pub state: EnumProtocol,
    pub id: i32,
}

/// A reader over a copy of `buf`.
pub(crate) fn reader_for(buf: &[u8]) -> (r: Reader)
    ensures
        r.data@ == buf@,
        r.position == 0,
        r.rest() == buf@,
{
    let r = Reader::new(slice_to_vec(buf));
    assert(r.rest() =~= buf@);
    r
}

} // verus!
