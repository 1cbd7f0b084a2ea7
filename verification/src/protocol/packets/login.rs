//! Login: the player's name, the encryption exchange, and the refusal.

use vstd::prelude::*;
use vstd::utf8::*;
use crate::protocol::fields::{lemma_take_string, take_bytes, take_string, take_varint};
use crate::protocol::packets::{reader_for, PacketOut, ProtocolError};
use crate::protocol::wire::{string_enc, varint_enc};
use crate::protocol::writer::Writer;
use crate::text::{push_str};

verus! {

/// The first packet of a login: the player's name.
#[derive(Debug)]
pub struct LoginStart {
    pub username: String,
}

impl LoginStart {
    /// Reads the player's name.
    pub fn decode(buf: &[u8]) -> (r: Result<Self, ProtocolError>)
        requires
            take_string(buf@) is Some,
        ensures
            r matches Ok(p) && p.username@ == take_string(buf@).unwrap().0,
    {
        let mut reader = reader_for(buf);
        let username = reader.read_string();
        Ok(Self { username })
    }
}

impl PacketOut for LoginStart {
    open spec fn encodable(&self) -> bool {
        encode_utf8(self.username@).len() <= 32767
    }

    open spec fn wire(&self) -> Seq<u8> {
        varint_enc(0) + string_enc(self.username@)
    }

    fn encode(&self, writer: &mut Writer) -> (r: std::io::Result<()>) {
        writer.write_varint(0x00);
        writer.write_string(self.username.as_str());
        assert(writer.data@ =~= old(writer).data@ + self.wire());
        Ok(())
    }
}

/// The server's request to switch on encryption.
#[derive(Debug)]
pub struct EncryptionRequest {
    pub server_id: String,
    pub public_key: Vec<u8>,
    pub verify_token: Vec<u8>,
}

impl PacketOut for EncryptionRequest {
    open spec fn encodable(&self) -> bool {
        &&& encode_utf8(self.server_id@).len() <= 32767
        &&& self.public_key@.len() <= i32::MAX
        &&& self.verify_token@.len() <= i32::MAX
    }

    open spec fn wire(&self) -> Seq<u8> {
        varint_enc(1) + string_enc(self.server_id@) + varint_enc(self.public_key@.len()) + self.public_key@
            + varint_enc(self.verify_token@.len()) + self.verify_token@
    }

    fn encode(&self, writer: &mut Writer) -> (r: std::io::Result<()>) {
        writer.write_varint(0x01);
        writer.write_string(self.server_id.as_str());
        writer.write_varint(self.public_key.len() as i32);
        writer.write_bytes(self.public_key.as_slice());
        writer.write_varint(self.verify_token.len() as i32);
        writer.write_bytes(self.verify_token.as_slice());
        assert(writer.data@ =~= old(writer).data@ + self.wire());
        Ok(())
    }
}

/// The client's answer: the shared secret and the verify token, both
/// encrypted with the server's key.
#[derive(Debug)]
pub struct EncryptionResponse {
    pub shared_secret: Vec<u8>,
    pub verify_token: Vec<u8>,
}

/// The two length-prefixed byte arrays of an encryption response, and what
/// follows them; `None` where a length is negative or runs past the input.
pub open spec fn encryption_response_fields(s: Seq<u8>) -> Option<(Seq<u8>, Seq<u8>, Seq<u8>)> {
    match take_varint(s) {
        Some((n1, s1)) => match take_bytes(s1, n1 as int) {
            Some((secret, s2)) => match take_varint(s2) {
                Some((n2, s3)) => match take_bytes(s3, n2 as int) {
                    Some((token, s4)) => Some((secret, token, s4)),
                    None => None,
                },
                None => None,
            },
            None => None,
        },
        None => None,
    }
}

impl EncryptionResponse {
    /// Reads the shared secret and the verify token.
    pub fn decode(buf: &[u8]) -> (r: Result<Self, ProtocolError>)
        requires
            encryption_response_fields(buf@) is Some,
        ensures
            r matches Ok(p) && p.shared_secret@ == encryption_response_fields(buf@).unwrap().0
                && p.verify_token@ == encryption_response_fields(buf@).unwrap().1,
    {
        let mut reader = reader_for(buf);
        let secret_len = reader.read_varint() as usize;
        let shared_secret = reader.read_bytes(secret_len);
        let token_len = reader.read_varint() as usize;
        let verify_token = reader.read_bytes(token_len);
        Ok(EncryptionResponse { shared_secret, verify_token })
    }
}

/// The JSON text component `{"text":"<reason>"}`, the reason put in as it
/// is.
pub open spec fn text_component(reason: Seq<char>) -> Seq<char> {
    seq!['{', '"', 't', 'e', 'x', 't', '"', ':', '"'] + reason + seq!['"', '}']
}

fn text_component_of(reason: &str) -> (r: String)
    ensures
        r@ == text_component(reason@),
{
    let mut r = String::new();
    push_str(&mut r, "{\"text\":\"");
    push_str(&mut r, reason);
    push_str(&mut r, "\"}");
    proof {
        reveal_strlit("{\"text\":\"");
        reveal_strlit("\"}");
    }
    assert(r@ =~= text_component(reason@));
    r
}

/// The refusal of a login, with its reason.
#[derive(Debug)]
pub struct LoginDisconnect {
    reason: String,
}

/// The end of a game session, with its reason.
#[derive(Debug)]
pub struct PlayDisconnect {
    reason: String,
}

impl LoginDisconnect {
    /// A refusal whose reason is the text `reason`.
    pub fn new(reason: &str) -> (r: Self)
        ensures
            r.reason_text() == text_component(reason@),
    {
        Self { reason: text_component_of(reason) }
    }

    /// The JSON text of the reason.
    pub closed spec fn reason_text(&self) -> Seq<char> {
        self.reason@
    }
}

impl PlayDisconnect {
    /// A disconnect whose reason is the text `reason`.
    pub fn new(reason: &str) -> (r: Self)
        ensures
            r.reason_text() == text_component(reason@),
    {
        Self { reason: text_component_of(reason) }
    }

    /// The JSON text of the reason.
    pub closed spec fn reason_text(&self) -> Seq<char> {
        self.reason@
    }
}

impl PacketOut for LoginDisconnect {
    open spec fn encodable(&self) -> bool {
        encode_utf8(self.reason_text()).len() <= 32767
    }

    open spec fn wire(&self) -> Seq<u8> {
        varint_enc(0) + string_enc(self.reason_text())
    }

    fn encode(&self, writer: &mut Writer) -> (r: std::io::Result<()>) {
        writer.write_varint(0x00);
        writer.write_string(self.reason.as_str());
        assert(writer.data@ =~= old(writer).data@ + self.wire());
        Ok(())
    }
}

impl PacketOut for PlayDisconnect {
    open spec fn encodable(&self) -> bool {
        encode_utf8(self.reason_text()).len() <= 32767
    }

    open spec fn wire(&self) -> Seq<u8> {
        varint_enc(0x40) + string_enc(self.reason_text())
    }

    fn encode(&self, writer: &mut Writer) -> (r: std::io::Result<()>) {
        writer.write_varint(0x40);
        writer.write_string(self.reason.as_str());
        assert(writer.data@ =~= old(writer).data@ + self.wire());
        Ok(())
    }
}

/// The name read from the bytes of a login start, after its packet id, is
/// the name written.
pub proof fn law_login_start_roundtrip(p: LoginStart)
    requires
        p.encodable(),
    ensures
        take_string(p.wire().skip(varint_enc(0).len() as int)) == Some((p.username@, Seq::<u8>::empty())),
{
    lemma_take_string(p.username@, Seq::empty());
    assert(p.wire().skip(varint_enc(0).len() as int) =~= string_enc(p.username@) + Seq::<u8>::empty());
}

} // verus!
