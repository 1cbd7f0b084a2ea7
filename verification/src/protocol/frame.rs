//! Packet frames: a VarInt length, then the body; with compression on, the
//! body starts with the uncompressed length, 0 for a body sent as it is.

use vstd::prelude::*;
use vstd::slice::slice_subrange;
use crate::protocol::fields::{lemma_take_varint, take_varint};
use crate::protocol::packets::reader_for;
use crate::protocol::wire::{lemma_varint_dec_bounds, varint_dec, varint_enc, wrap32};
use crate::protocol::writer::Writer;
use crate::world::compression::{zlib_compress, zlib_compressed, zlib_decompress, zlib_decompressed};

verus! {

/// The body of a frame for packet bytes `data`: with compression off
/// (negative threshold) the bytes; with it on, packets of at least
/// `threshold` bytes as their length and their zlib stream, smaller ones as
/// 0 and the bytes.
pub open spec fn frame_body(data: Seq<u8>, threshold: i32) -> Seq<u8> {
    if threshold >= 0 {
        if data.len() >= threshold {
            varint_enc(data.len()) + zlib_compressed(data)
        } else {
            varint_enc(0) + data
        }
    } else {
        data
    }
}

/// The frame of packet bytes: the body's length, then the body.
pub open spec fn frame_bytes(data: Seq<u8>, threshold: i32) -> Seq<u8> {
    varint_enc(frame_body(data, threshold).len()) + frame_body(data, threshold)
}

/// Frames the bytes of a packet; `None` when the body would be longer than
/// the largest `i32`, which the length cannot state.
pub fn frame_packet(data: &[u8], threshold: i32) -> (r: Option<Vec<u8>>)
    ensures
        r is Some <==> data@.len() <= i32::MAX && frame_body(data@, threshold).len() <= i32::MAX,
        r matches Some(f) ==> f@ == frame_bytes(data@, threshold),
        data@.len() > 0 ==> (r matches Some(f) ==> frame_readable(f@, threshold) && frame_inner(f@, threshold)
            == Some((f@.len(), Some(data@)))),
{
    if data.len() > i32::MAX as usize {
        return None;
    }
    let mut body = Writer::new();
    if threshold >= 0 {
        if data.len() >= threshold as usize {
            let compressed = zlib_compress(data);
            body.write_varint(data.len() as i32);
            body.write_bytes(compressed.as_slice());
        } else {
            body.write_varint(0);
            body.write_bytes(data);
        }
    } else {
        body.write_bytes(data);
    }
    assert(body.data@ =~= frame_body(data@, threshold));
    if body.data.len() > i32::MAX as usize {
        return None;
    }
    let mut frame = Writer::new();
    frame.write_varint(body.data.len() as i32);
    frame.write_bytes(body.data.as_slice());
    assert(frame.data@ =~= frame_bytes(data@, threshold));
    proof {
        if data@.len() > 0 {
            law_frame_roundtrip(data@, threshold, Seq::empty());
            assert(frame.data@ + Seq::<u8>::empty() =~= frame.data@);
        }
    }
    Some(frame.data)
}

/// What reading a frame off the front of a buffer gives.
pub enum FrameDecode {
    /// The buffer holds no whole frame yet.
    Incomplete,
    /// A whole frame: how many bytes it took, the packet id and the packet's
    /// fields.
    Packet { consumed: usize, id: i32, body: Vec<u8> },
    /// The compressed body is not a zlib stream.
    Corrupt,
    /// The packet has no whole packet id.
    Malformed,
}

/// Whether the length prefixes of the front frame can be read: the frame
/// length, a non-negative VarInt, and with compression on and a whole frame
/// in the buffer, the uncompressed length.
pub open spec fn frame_readable(buf: Seq<u8>, threshold: i32) -> bool {
    buf.len() > 0 ==> match varint_dec(buf, 5) {
        None => false,
        Some((v, n)) => {
            let length = wrap32(v as int);
            length >= 0 && (buf.len() >= n + length && threshold >= 0 ==> varint_dec(
                buf.subrange(n as int, n + length),
                5,
            ) is Some)
        },
    }
}

/// The packet bytes of the front frame, when the buffer holds it: `None`
/// within the option when it is compressed and not a zlib stream.
pub open spec fn frame_inner(buf: Seq<u8>, threshold: i32) -> Option<(nat, Option<Seq<u8>>)> {
    if buf.len() == 0 {
        None
    } else {
        let (v, n) = varint_dec(buf, 5).unwrap();
        let length = wrap32(v as int) as int;
        if buf.len() < n + length {
            None
        } else {
            let payload = buf.subrange(n as int, n + length);
            let consumed = (n + length) as nat;
            if threshold >= 0 {
                let (dl, m) = varint_dec(payload, 5).unwrap();
                let rest = payload.skip(m as int);
                if wrap32(dl as int) == 0 {
                    Some((consumed, Some(rest)))
                } else {
                    Some((consumed, zlib_decompressed(rest)))
                }
            } else {
                Some((consumed, Some(payload)))
            }
        }
    }
}

/// Reads the front frame of a buffer, as `frame_inner` and then the packet
/// id say.
pub fn decode_frame(buf: &[u8], threshold: i32) -> (r: FrameDecode)
    requires
        frame_readable(buf@, threshold),
    ensures
        frame_inner(buf@, threshold) is None <==> r is Incomplete,
        frame_inner(buf@, threshold) matches Some((_, None)) <==> r is Corrupt,
        frame_inner(buf@, threshold) matches Some((_, Some(inner))) ==> (take_varint(inner) is None <==> r is Malformed),
        r matches FrameDecode::Packet { consumed, id, body } ==> frame_inner(buf@, threshold) matches Some(
            (c, Some(inner)),
        ) && c == consumed && take_varint(inner) == Some((id, body@)),
{
    if buf.len() == 0 {
        return FrameDecode::Incomplete;
    }
    let mut reader = reader_for(buf);
    proof {
        lemma_varint_dec_bounds(buf@, 5);
    }
    let length = reader.read_varint() as usize;
    let prefix = reader.position;
    if buf.len() - prefix < length {
        return FrameDecode::Incomplete;
    }
    let payload = slice_subrange(buf, prefix, prefix + length);
    let inner: Vec<u8> = if threshold >= 0 {
        let mut r = reader_for(payload);
        proof {
            lemma_varint_dec_bounds(payload@, 5);
        }
        let data_length = r.read_varint();
        let header = r.position;
        let rest = slice_subrange(payload, header, payload.len());
        assert(rest@ =~= payload@.skip(header as int));
        if data_length == 0 {
            vstd::slice::slice_to_vec(rest)
        } else {
            match zlib_decompress(rest) {
                Some(v) => v,
                None => {
                    return FrameDecode::Corrupt;
                },
            }
        }
    } else {
        vstd::slice::slice_to_vec(payload)
    };
    if !id_readable(inner.as_slice()) {
        return FrameDecode::Malformed;
    }
    let mut ir = reader_for(inner.as_slice());
    let id = ir.read_varint();
    let n = ir.remaining();
    let body = ir.read_bytes(n);
    assert(body@ =~= take_varint(inner@).unwrap().1);
    FrameDecode::Packet { consumed: prefix + length, id, body }
}

/// Whether a buffer can be read as a frame: empty, or a VarInt length that
/// is not negative and, once the whole frame is there and compression is
/// on, a VarInt data length at its front.
pub fn frame_is_readable(buf: &[u8], threshold: i32) -> (r: bool)
    ensures
        r == frame_readable(buf@, threshold),
{
    if buf.len() == 0 {
        return true;
    }
    if !id_readable(buf) {
        return false;
    }
    let mut reader = reader_for(buf);
    proof {
        lemma_varint_dec_bounds(buf@, 5);
    }
    let length = reader.read_varint();
    if length < 0 {
        return false;
    }
    let prefix = reader.position;
    if buf.len() - prefix >= length as usize && threshold >= 0 {
        let payload = slice_subrange(buf, prefix, prefix + length as usize);
        return id_readable(payload);
    }
    true
}

/// Whether the bytes start with a whole VarInt.
pub(crate) fn id_readable(bytes: &[u8]) -> (b: bool)
    ensures
        b == (take_varint(bytes@) is Some),
{
    let mut i: usize = 0;
    while i < bytes.len() && i < 5
        invariant
            i <= bytes@.len(),
            i <= 5,
            forall|j: int| 0 <= j < i ==> bytes@[j] >= 128,
        decreases 5 - i,
    {
        if bytes[i] < 128 {
            proof {
                lemma_varint_prefix(bytes@, 5, i as nat);
            }
            return true;
        }
        i = i + 1;
    }
    proof {
        lemma_varint_prefix_fails(bytes@, 5, i as nat);
    }
    false
}

/// A VarInt whose first `i` bytes carry the continuation bit and whose next
/// byte does not is read, when it fits in `max` bytes.
proof fn lemma_varint_prefix(s: Seq<u8>, max: nat, i: nat)
    requires
        i < max,
        i < s.len(),
        s[i as int] < 128,
        forall|j: int| 0 <= j < i ==> s[j] >= 128,
    ensures
        varint_dec(s, max) is Some,
    decreases i,
{
    if i > 0 {
        assert forall|j: int| 0 <= j < i - 1 implies s.drop_first()[j] >= 128 by {
            assert(s.drop_first()[j] == s[j + 1]);
        }
        lemma_varint_prefix(s.drop_first(), (max - 1) as nat, (i - 1) as nat);
    }
}

/// When the first `i` bytes carry the continuation bit and either the
/// bytes run out there or `i` reaches `max`, no VarInt is read.
proof fn lemma_varint_prefix_fails(s: Seq<u8>, max: nat, i: nat)
    requires
        i <= max,
        i <= s.len(),
        i == s.len() || i == max,
        forall|j: int| 0 <= j < i ==> s[j] >= 128,
    ensures
        varint_dec(s, max) is None,
    decreases i,
{
    if i > 0 {
        assert forall|j: int| 0 <= j < i - 1 implies s.drop_first()[j] >= 128 by {
            assert(s.drop_first()[j] == s[j + 1]);
        }
        lemma_varint_prefix_fails(s.drop_first(), (max - 1) as nat, (i - 1) as nat);
    }
}

/// A frame read back from a buffer that starts with it gives the packet
/// bytes written, whatever follows, provided the zlib stream of a
/// compressed packet decompresses to it and the packet starts with its id.
pub proof fn law_frame_roundtrip(data: Seq<u8>, threshold: i32, rest: Seq<u8>)
    requires
        data.len() <= i32::MAX,
        frame_body(data, threshold).len() <= i32::MAX,
        data.len() > 0,
        threshold >= 0 && data.len() >= threshold ==> zlib_decompressed(zlib_compressed(data)) == Some(data),
    ensures
        frame_readable(frame_bytes(data, threshold) + rest, threshold),
        frame_inner(frame_bytes(data, threshold) + rest, threshold) == Some(
            (frame_bytes(data, threshold).len(), Some(data)),
        ),
{
    let body = frame_body(data, threshold);
    let buf = frame_bytes(data, threshold) + rest;
    crate::protocol::wire::lemma_pow128_values();
    crate::protocol::wire::lemma_varint_roundtrip(body.len(), 5, body + rest);
    assert(buf =~= varint_enc(body.len()) + (body + rest));
    let n = varint_enc(body.len()).len();
    crate::protocol::wire::lemma_wrap32_small(body.len() as int);
    assert(buf.subrange(n as int, (n + body.len()) as int) =~= body);
    if threshold >= 0 {
        let dl: nat = if data.len() >= threshold { data.len() } else { 0 };
        let x = if data.len() >= threshold { zlib_compressed(data) } else { data };
        crate::protocol::wire::lemma_varint_roundtrip(dl, 5, x);
        assert(body =~= varint_enc(dl) + x);
        crate::protocol::wire::lemma_wrap32_small(dl as int);
        assert(body.skip(varint_enc(dl).len() as int) =~= x);
    }
}

} // verus!
