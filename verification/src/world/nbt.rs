//! The NBT binary tag format: tags, their encoding, and a reader.

use vstd::prelude::*;
use vstd::utf8::*;
use crate::protocol::wire::{
    be_bytes, be_value, lemma_be_bytes_len, lemma_be_signed, lemma_be_value_bound, lemma_pow256_mono, lemma_pow256_values, pow256, wrap16, wrap32, wrap64,
};
use crate::protocol::writer::{push_be, push_be_signed};

verus! {

/// The mathematical value of a tag. Floating-point payloads are kept as
/// their IEEE-754 bits, strings as characters.
pub enum NbtValue {
    Byte(i8),
    Short(i16),
    Int(i32),
    Long(i64),
    Float(u32),
    Double(u64),
    ByteArray(Seq<u8>),
    String(Seq<char>),
    List(u8, Seq<NbtValue>),
    Compound(Seq<(Seq<char>, NbtValue)>),
    IntArray(Seq<i32>),
}

/// What `String::from_utf8_lossy` makes of some bytes.
pub uninterp spec fn utf8_lossy(bytes: Seq<u8>) -> Seq<char>;

/// Decodes bytes as UTF-8, replacing every invalid sequence.
///
/// Calls `String::from_utf8_lossy`. The result is named; the one fact
/// claimed beyond the name is the one std documents: valid UTF-8 is decoded
/// unchanged.
#[verifier::external_body]
fn string_from_utf8_lossy(bytes: &[u8]) -> (s: String)
    ensures
        s@ == utf8_lossy(bytes@),
        valid_utf8(bytes@) ==> s@ == decode_utf8(bytes@),
{
    String::from_utf8_lossy(bytes).to_string()
}

/// The characters a lossy decoding gives: the decoded text for valid UTF-8,
/// `utf8_lossy` otherwise.
pub open spec fn lossy_chars(bytes: Seq<u8>) -> Seq<char> {
    if valid_utf8(bytes) {
        decode_utf8(bytes)
    } else {
        utf8_lossy(bytes)
    }
}

/// The tag type byte of a value.
pub open spec fn value_type(v: NbtValue) -> u8 {
    match v {
        NbtValue::Byte(_) => 1,
        NbtValue::Short(_) => 2,
        NbtValue::Int(_) => 3,
        NbtValue::Long(_) => 4,
        NbtValue::Float(_) => 5,
        NbtValue::Double(_) => 6,
        NbtValue::ByteArray(_) => 7,
        NbtValue::String(_) => 8,
        NbtValue::List(_, _) => 9,
        NbtValue::Compound(_) => 10,
        NbtValue::IntArray(_) => 11,
    }
}

/// A string as NBT stores it: the low 16 bits of its UTF-8 length, then
/// the UTF-8 bytes.
pub open spec fn name_enc(s: Seq<char>) -> Seq<u8> {
    be_bytes(encode_utf8(s).len() as int, 2) + encode_utf8(s)
}

/// Big-endian bytes of every number of an int array.
pub open spec fn ints_enc(v: Seq<i32>) -> Seq<u8>
    decreases v.len(),
{
    if v.len() == 0 {
        seq![]
    } else {
        be_bytes(v[0] as int, 4) + ints_enc(v.drop_first())
    }
}

/// The payload of a tag, without its type byte or name.
pub open spec fn payload_enc(v: NbtValue) -> Seq<u8>
    decreases v,
{
    match v {
        NbtValue::Byte(b) => be_bytes(b as int, 1),
        NbtValue::Short(x) => be_bytes(x as int, 2),
        NbtValue::Int(x) => be_bytes(x as int, 4),
        NbtValue::Long(x) => be_bytes(x as int, 8),
        NbtValue::Float(bits) => be_bytes(bits as int, 4),
        NbtValue::Double(bits) => be_bytes(bits as int, 8),
        NbtValue::ByteArray(b) => be_bytes(b.len() as int, 4) + b,
        NbtValue::String(s) => name_enc(s),
        NbtValue::List(t, es) => seq![t] + be_bytes(es.len() as int, 4) + list_enc(es),
        NbtValue::Compound(es) => entries_enc(es) + seq![0u8],
        NbtValue::IntArray(xs) => be_bytes(xs.len() as int, 4) + ints_enc(xs),
    }
}

/// The payloads of list elements, one after another.
pub open spec fn list_enc(es: Seq<NbtValue>) -> Seq<u8>
    decreases es,
{
    if es.len() == 0 {
        seq![]
    } else {
        payload_enc(es[0]) + list_enc(es.drop_first())
    }
}

/// Compound entries: type byte, name, payload each; no end marker.
pub open spec fn entries_enc(es: Seq<(Seq<char>, NbtValue)>) -> Seq<u8>
    decreases es,
{
    if es.len() == 0 {
        seq![]
    } else {
        seq![value_type(es[0].1)] + name_enc(es[0].0) + payload_enc(es[0].1) + entries_enc(es.drop_first())
    }
}

/// Decodes an NBT string from the front of `s`: a signed 16-bit length,
/// then that many bytes decoded lossily. `None` if the length is negative
/// or runs past the input.
pub open spec fn name_dec(s: Seq<u8>) -> Option<(Seq<char>, nat)> {
    if s.len() < 2 {
        None
    } else {
        let len = wrap16(be_value(s.subrange(0, 2)) as int);
        if len < 0 || 2 + len > s.len() {
            None
        } else {
            Some((lossy_chars(s.subrange(2, 2 + len)), (2 + len) as nat))
        }
    }
}

/// A signed 32-bit count at the front of `s`, when it is there and not
/// negative.
pub open spec fn count_dec(s: Seq<u8>) -> Option<nat> {
    if s.len() < 4 {
        None
    } else {
        let n = wrap32(be_value(s.subrange(0, 4)) as int);
        if n < 0 {
            None
        } else {
            Some(n as nat)
        }
    }
}

/// Decodes `count` big-endian 32-bit numbers from the front of `s`.
pub open spec fn ints_dec(s: Seq<u8>, count: nat) -> Option<Seq<i32>>
    decreases count,
{
    if count == 0 {
        Some(seq![])
    } else if s.len() < 4 {
        None
    } else {
        match ints_dec(s.skip(4), (count - 1) as nat) {
            Some(rest) => Some(seq![wrap32(be_value(s.subrange(0, 4)) as int)] + rest),
            None => None,
        }
    }
}

/// Decodes the payload of a tag of type `t` from the front of `s`: the
/// value and the number of bytes taken. Unknown types give `Byte(0)` and
/// take nothing. `None` where the reader would run out of input or meet a
/// negative length.
pub open spec fn tag_dec(s: Seq<u8>, t: u8) -> Option<(NbtValue, nat)>
    decreases s.len(), 1nat,
{
    if t == 1 {
        if s.len() < 1 { None } else { Some((NbtValue::Byte(wrap8(s[0] as int)), 1)) }
    } else if t == 2 {
        if s.len() < 2 { None } else { Some((NbtValue::Short(wrap16(be_value(s.subrange(0, 2)) as int)), 2)) }
    } else if t == 3 {
        if s.len() < 4 { None } else { Some((NbtValue::Int(wrap32(be_value(s.subrange(0, 4)) as int)), 4)) }
    } else if t == 4 {
        if s.len() < 8 { None } else { Some((NbtValue::Long(wrap64(be_value(s.subrange(0, 8)) as int)), 8)) }
    } else if t == 5 {
        if s.len() < 4 { None } else { Some((NbtValue::Float(be_value(s.subrange(0, 4)) as u32), 4)) }
    } else if t == 6 {
        if s.len() < 8 { None } else { Some((NbtValue::Double(be_value(s.subrange(0, 8)) as u64), 8)) }
    } else if t == 7 {
        match count_dec(s) {
            Some(n) => if 4 + n > s.len() {
                None
            } else {
                Some((NbtValue::ByteArray(s.subrange(4, (4 + n) as int)), 4 + n))
            },
            None => None,
        }
    } else if t == 8 {
        match name_dec(s) {
            Some((chars, n)) => Some((NbtValue::String(chars), n)),
            None => None,
        }
    } else if t == 9 {
        if s.len() < 5 {
            None
        } else {
            match count_dec(s.skip(1)) {
                Some(count) => match list_dec(s.skip(5), s[0], count) {
                    Some((es, n)) => Some((NbtValue::List(s[0], es), 5 + n)),
                    None => None,
                },
                None => None,
            }
        }
    } else if t == 10 {
        match entries_dec(s) {
            Some((es, n)) => Some((NbtValue::Compound(es), n)),
            None => None,
        }
    } else if t == 11 {
        match count_dec(s) {
            Some(count) => if 4 + 4 * count > s.len() {
                None
            } else {
                match ints_dec(s.skip(4), count) {
                    Some(xs) => Some((NbtValue::IntArray(xs), 4 + 4 * count)),
                    None => None,
                }
            },
            None => None,
        }
    } else {
        Some((NbtValue::Byte(0), 0))
    }
}

/// Decodes `count` payloads of type `t`, one after another.
pub open spec fn list_dec(s: Seq<u8>, t: u8, count: nat) -> Option<(Seq<NbtValue>, nat)>
    decreases s.len(), count + 2,
{
    if count == 0 {
        Some((seq![], 0))
    } else {
        match tag_dec(s, t) {
            Some((v, n)) => if n > s.len() {
                None
            } else {
                match list_dec(s.skip(n as int), t, (count - 1) as nat) {
                    Some((vs, m)) => Some((seq![v] + vs, n + m)),
                    None => None,
                }
            },
            None => None,
        }
    }
}

/// Decodes compound entries up to and including the end byte 0.
pub open spec fn entries_dec(s: Seq<u8>) -> Option<(Seq<(Seq<char>, NbtValue)>, nat)>
    decreases s.len(), 0nat,
{
    if s.len() == 0 {
        None
    } else if s[0] == 0 {
        Some((seq![], 1))
    } else {
        match name_dec(s.skip(1)) {
            Some((name, m)) => if 1 + m > s.len() {
                None
            } else {
                match tag_dec(s.skip((1 + m) as int), s[0]) {
                    Some((v, n)) => if 1 + m + n > s.len() {
                        None
                    } else {
                        match entries_dec(s.skip((1 + m + n) as int)) {
                            Some((es, k)) => Some((seq![(name, v)] + es, 1 + m + n + k)),
                            None => None,
                        }
                    },
                    None => None,
                }
            },
            None => None,
        }
    }
}

/// The `i8` whose bits are the low 8 bits of `x`.
pub open spec fn wrap8(x: int) -> i8 {
    let m = x % 0x100;
    if m < 0x80 {
        m as i8
    } else {
        (m - 0x100) as i8
    }
}

/// A tag of the NBT format. `Float` and `Double` hold the IEEE-754 bits of
/// their number.
#[derive(Debug)]
pub enum NbtTag {
    Byte(i8),
    Short(i16),
    Int(i32),
    Long(i64),
    Float(u32),
    Double(u64),
    ByteArray(Vec<u8>),
    String(String),
    List(u8, Vec<NbtTag>),
    Compound(Vec<(String, NbtTag)>),
    IntArray(Vec<i32>),
}

/// The values of a sequence of tags.
pub open spec fn models(s: Seq<NbtTag>) -> Seq<NbtValue>
    decreases s,
{
    if s.len() == 0 {
        seq![]
    } else {
        seq![s[0].model()] + models(s.drop_first())
    }
}

/// The values of a sequence of compound entries.
pub open spec fn entry_models(s: Seq<(String, NbtTag)>) -> Seq<(Seq<char>, NbtValue)>
    decreases s,
{
    if s.len() == 0 {
        seq![]
    } else {
        seq![(s[0].0@, s[0].1.model())] + entry_models(s.drop_first())
    }
}

pub proof fn lemma_models_push(s: Seq<NbtTag>, x: NbtTag)
    ensures
        models(s.push(x)) == models(s).push(x.model()),
        models(s).len() == s.len(),
    decreases s.len(),
{
    if s.len() > 0 {
        lemma_models_push(s.drop_first(), x);
        assert(s.push(x).drop_first() =~= s.drop_first().push(x));
    } else {
        assert(s.push(x).drop_first() =~= s);
    }
    assert(models(s.push(x)) =~= models(s).push(x.model()));
}

pub proof fn lemma_models_len(s: Seq<NbtTag>)
    ensures
        models(s).len() == s.len(),
        forall|i: int| 0 <= i < s.len() ==> #[trigger] models(s)[i] == s[i].model(),
    decreases s.len(),
{
    if s.len() > 0 {
        lemma_models_len(s.drop_first());
        assert forall|i: int| 0 <= i < s.len() implies #[trigger] models(s)[i] == s[i].model() by {
            if i > 0 {
                assert(models(s)[i] == models(s.drop_first())[i - 1]);
            }
        }
    }
}

pub proof fn lemma_entry_models_push(s: Seq<(String, NbtTag)>, x: (String, NbtTag))
    ensures
        entry_models(s.push(x)) == entry_models(s).push((x.0@, x.1.model())),
        entry_models(s).len() == s.len(),
    decreases s.len(),
{
    if s.len() > 0 {
        lemma_entry_models_push(s.drop_first(), x);
        assert(s.push(x).drop_first() =~= s.drop_first().push(x));
    } else {
        assert(s.push(x).drop_first() =~= s);
    }
    assert(entry_models(s.push(x)) =~= entry_models(s).push((x.0@, x.1.model())));
}

pub proof fn lemma_list_enc_push(s: Seq<NbtValue>, x: NbtValue)
    ensures
        list_enc(s.push(x)) == list_enc(s) + payload_enc(x),
    decreases s.len(),
{
    if s.len() > 0 {
        lemma_list_enc_push(s.drop_first(), x);
        assert(s.push(x).drop_first() =~= s.drop_first().push(x));
        assert(list_enc(s.push(x)) =~= list_enc(s) + payload_enc(x));
    } else {
        assert(s.push(x).drop_first() =~= s);
        assert(list_enc(s.push(x)) =~= list_enc(s) + payload_enc(x));
    }
}

pub proof fn lemma_entries_enc_push(s: Seq<(Seq<char>, NbtValue)>, x: (Seq<char>, NbtValue))
    ensures
        entries_enc(s.push(x)) == entries_enc(s) + (seq![value_type(x.1)] + name_enc(x.0) + payload_enc(x.1)),
    decreases s.len(),
{
    if s.len() > 0 {
        lemma_entries_enc_push(s.drop_first(), x);
        assert(s.push(x).drop_first() =~= s.drop_first().push(x));
    } else {
        assert(s.push(x).drop_first() =~= s);
    }
    assert(entries_enc(s.push(x)) =~= entries_enc(s) + (seq![value_type(x.1)] + name_enc(x.0) + payload_enc(x.1)));
}

pub proof fn lemma_ints_enc_push(s: Seq<i32>, x: i32)
    ensures
        ints_enc(s.push(x)) == ints_enc(s) + be_bytes(x as int, 4),
    decreases s.len(),
{
    if s.len() > 0 {
        lemma_ints_enc_push(s.drop_first(), x);
        assert(s.push(x).drop_first() =~= s.drop_first().push(x));
    } else {
        assert(s.push(x).drop_first() =~= s);
    }
    assert(ints_enc(s.push(x)) =~= ints_enc(s) + be_bytes(x as int, 4));
}

/// Appends the UTF-8 bytes of `s` after their 16-bit length.
fn push_name(out: &mut Vec<u8>, s: &str)
    ensures
        final(out)@ == old(out)@ + name_enc(s@),
{
    let bytes = s.as_bytes();
    push_be(out, bytes.len() as u64, 2);
    let mut i: usize = 0;
    while i < bytes.len()
        invariant
            i <= bytes@.len(),
            bytes@ == encode_utf8(s@),
            out@ == old(out)@ + be_bytes(bytes@.len() as int, 2) + bytes@.subrange(0, i as int),
        decreases bytes.len() - i,
    {
        out.push(bytes[i]);
        i = i + 1;
        assert(out@ =~= old(out)@ + be_bytes(bytes@.len() as int, 2) + bytes@.subrange(0, i as int));
    }
    assert(bytes@.subrange(0, i as int) =~= bytes@);
    assert(out@ =~= old(out)@ + name_enc(s@));
}

impl Clone for NbtTag {
    fn clone(&self) -> (r: Self)
        ensures
            r.model() == self.model(),
    {
        self.duplicate()
    }
}

impl NbtTag {
    /// The value of this tag.
    pub open spec fn model(self) -> NbtValue
        decreases self,
    {
        match self {
            NbtTag::Byte(v) => NbtValue::Byte(v),
            NbtTag::Short(v) => NbtValue::Short(v),
            NbtTag::Int(v) => NbtValue::Int(v),
            NbtTag::Long(v) => NbtValue::Long(v),
            NbtTag::Float(v) => NbtValue::Float(v),
            NbtTag::Double(v) => NbtValue::Double(v),
            NbtTag::ByteArray(v) => NbtValue::ByteArray(v@),
            NbtTag::String(s) => NbtValue::String(s@),
            NbtTag::List(t, es) => NbtValue::List(t, models(es@)),
            NbtTag::Compound(es) => NbtValue::Compound(entry_models(es@)),
            NbtTag::IntArray(v) => NbtValue::IntArray(v@),
        }
    }

    /// A deep copy of this tag.
    #[verifier::loop_isolation(false)]
    pub fn duplicate(&self) -> (r: NbtTag)
        ensures
            r.model() == self.model(),
        decreases self,
    {
        broadcast use vstd::std_specs::vec::axiom_vec_index_decreases;
        match self {
            NbtTag::Byte(v) => NbtTag::Byte(*v),
            NbtTag::Short(v) => NbtTag::Short(*v),
            NbtTag::Int(v) => NbtTag::Int(*v),
            NbtTag::Long(v) => NbtTag::Long(*v),
            NbtTag::Float(v) => NbtTag::Float(*v),
            NbtTag::Double(v) => NbtTag::Double(*v),
            NbtTag::ByteArray(v) => NbtTag::ByteArray(v.clone()),
            NbtTag::String(s) => NbtTag::String(s.clone()),
            NbtTag::List(t, entries) => {
                let mut out: Vec<NbtTag> = Vec::new();
                let mut i: usize = 0;
                while i < entries.len()
                    invariant
                        i <= entries@.len(),
                        models(out@) == models(entries@.subrange(0, i as int)),
                    decreases entries.len() - i,
                {
                    let copy = entries[i].duplicate();
                    proof {
                        lemma_models_push(out@, copy);
                        lemma_models_push(entries@.subrange(0, i as int), entries@[i as int]);
                        assert(entries@.subrange(0, i + 1) =~= entries@.subrange(0, i as int).push(entries@[i as int]));
                    }
                    out.push(copy);
                    i = i + 1;
                }
                assert(entries@.subrange(0, i as int) =~= entries@);
                NbtTag::List(*t, out)
            },
            NbtTag::Compound(entries) => {
                let mut out: Vec<(String, NbtTag)> = Vec::new();
                let mut i: usize = 0;
                while i < entries.len()
                    invariant
                        i <= entries@.len(),
                        entry_models(out@) == entry_models(entries@.subrange(0, i as int)),
                    decreases entries.len() - i,
                {
                    let copy = (entries[i].0.clone(), entries[i].1.duplicate());
                    proof {
                        lemma_entry_models_push(out@, copy);
                        lemma_entry_models_push(entries@.subrange(0, i as int), entries@[i as int]);
                        assert(entries@.subrange(0, i + 1) =~= entries@.subrange(0, i as int).push(entries@[i as int]));
                    }
                    out.push(copy);
                    i = i + 1;
                }
                assert(entries@.subrange(0, i as int) =~= entries@);
                NbtTag::Compound(out)
            },
            NbtTag::IntArray(v) => NbtTag::IntArray(v.clone()),
        }
    }

    /// The tag type byte.
    pub fn type_id(&self) -> (t: u8)
        ensures
            t == value_type(self.model()),
    {
        match self {
            NbtTag::Byte(_) => 1,
            NbtTag::Short(_) => 2,
            NbtTag::Int(_) => 3,
            NbtTag::Long(_) => 4,
            NbtTag::Float(_) => 5,
            NbtTag::Double(_) => 6,
            NbtTag::ByteArray(_) => 7,
            NbtTag::String(_) => 8,
            NbtTag::List(_, _) => 9,
            NbtTag::Compound(_) => 10,
            NbtTag::IntArray(_) => 11,
        }
    }

    /// Appends the payload of this tag, without type byte or name. Lengths
    /// are written in their low 16 (strings) or 32 (arrays, lists) bits.
    #[verifier::loop_isolation(false)]
    pub fn write(&self, out: &mut Vec<u8>)
        ensures
            final(out)@ == old(out)@ + payload_enc(self.model()),
        decreases self,
    {
        broadcast use vstd::std_specs::vec::axiom_vec_index_decreases;
        match self {
            NbtTag::Byte(v) => push_be_signed(out, *v as i64, 1),
            NbtTag::Short(v) => push_be_signed(out, *v as i64, 2),
            NbtTag::Int(v) => push_be_signed(out, *v as i64, 4),
            NbtTag::Long(v) => push_be_signed(out, *v, 8),
            NbtTag::Float(v) => push_be(out, *v as u64, 4),
            NbtTag::Double(v) => push_be(out, *v, 8),
            NbtTag::ByteArray(v) => {
                push_be(out, v.len() as u64, 4);
                let mut i: usize = 0;
                while i < v.len()
                    invariant
                        i <= v@.len(),
                        out@ == old(out)@ + be_bytes(v@.len() as int, 4) + v@.subrange(0, i as int),
                    decreases v.len() - i,
                {
                    out.push(v[i]);
                    i = i + 1;
                    assert(out@ =~= old(out)@ + be_bytes(v@.len() as int, 4) + v@.subrange(0, i as int));
                }
                assert(v@.subrange(0, i as int) =~= v@);
            },
            NbtTag::String(s) => push_name(out, s.as_str()),
            NbtTag::List(t, entries) => {
                out.push(*t);
                push_be(out, entries.len() as u64, 4);
                let ghost start = out@;
                let mut i: usize = 0;
                while i < entries.len()
                    invariant
                        i <= entries@.len(),
                        out@ == start + list_enc(models(entries@.subrange(0, i as int))),
                    decreases entries.len() - i,
                {
                    entries[i].write(out);
                    proof {
                        let pre = entries@.subrange(0, i as int);
                        assert(entries@.subrange(0, i + 1) =~= pre.push(entries@[i as int]));
                        lemma_models_push(pre, entries@[i as int]);
                        lemma_list_enc_push(models(pre), entries@[i as int].model());
                    }
                    i = i + 1;
                }
                assert(entries@.subrange(0, i as int) =~= entries@);
                proof { lemma_models_len(entries@); }
                assert(out@ =~= old(out)@ + payload_enc(self.model()));
            },
            NbtTag::Compound(entries) => {
                let ghost start = out@;
                let mut i: usize = 0;
                while i < entries.len()
                    invariant
                        i <= entries@.len(),
                        out@ == start + entries_enc(entry_models(entries@.subrange(0, i as int))),
                    decreases entries.len() - i,
                {
                    let ghost before = out@;
                    let (name, tag) = &entries[i];
                    out.push(tag.type_id());
                    push_name(out, name.as_str());
                    tag.write(out);
                    proof {
                        let pre = entries@.subrange(0, i as int);
                        assert(entries@.subrange(0, i + 1) =~= pre.push(entries@[i as int]));
                        lemma_entry_models_push(pre, entries@[i as int]);
                        lemma_entries_enc_push(entry_models(pre), (name@, tag.model()));
                        assert(out@ =~= before + (seq![value_type(tag.model())] + name_enc(name@) + payload_enc(tag.model())));
                    }
                    i = i + 1;
                }
                out.push(0);
                assert(entries@.subrange(0, i as int) =~= entries@);
                assert(out@ =~= old(out)@ + payload_enc(self.model()));
            },
            NbtTag::IntArray(v) => {
                push_be(out, v.len() as u64, 4);
                let ghost start = out@;
                let mut i: usize = 0;
                while i < v.len()
                    invariant
                        i <= v@.len(),
                        out@ == start + ints_enc(v@.subrange(0, i as int)),
                    decreases v.len() - i,
                {
                    push_be_signed(out, v[i] as i64, 4);
                    proof {
                        assert(v@.subrange(0, i + 1) =~= v@.subrange(0, i as int).push(v@[i as int]));
                        lemma_ints_enc_push(v@.subrange(0, i as int), v@[i as int]);
                    }
                    i = i + 1;
                }
                assert(v@.subrange(0, i as int) =~= v@);
                assert(out@ =~= old(out)@ + payload_enc(self.model()));
            },
        }
    }
}

/// The encoding of a named root tag: the compound type byte 10, the name,
/// then the payload of the tag.
pub open spec fn root_enc(name: Seq<char>, v: NbtValue) -> Seq<u8> {
    seq![10u8] + name_enc(name) + payload_enc(v)
}

/// Decodes a named root tag: type byte, name, payload of that type.
pub open spec fn root_dec(s: Seq<u8>) -> Option<(Seq<char>, NbtValue, nat)> {
    if s.len() < 1 {
        None
    } else {
        match name_dec(s.skip(1)) {
            Some((name, m)) => if 1 + m > s.len() {
                None
            } else {
                match tag_dec(s.skip((1 + m) as int), s[0]) {
                    Some((v, n)) => Some((name, v, 1 + m + n)),
                    None => None,
                }
            },
            None => None,
        }
    }
}

/// Appends a named root tag: the byte 10 whatever the tag's type, the
/// name, then the payload.
pub fn write_named_root(name: &str, tag: &NbtTag, out: &mut Vec<u8>)
    ensures
        final(out)@ == old(out)@ + root_enc(name@, tag.model()),
{
    out.push(10);
    push_name(out, name);
    tag.write(out);
    assert(out@ =~= old(out)@ + root_enc(name@, tag.model()));
}

/// A cursor over NBT bytes.
pub struct NbtReader<'a> {
    data: &'a [u8],
    pos: usize,
}

impl<'a> NbtReader<'a> {
    /// All the bytes.
    pub closed spec fn input(&self) -> Seq<u8> {
        self.data@
    }

    /// How many bytes have been read.
    pub closed spec fn offset(&self) -> nat {
        self.pos as nat
    }

    /// The bytes not read yet.
    pub open spec fn rest(&self) -> Seq<u8> {
        self.input().skip(self.offset() as int)
    }

    /// The cursor is within the input.
    pub open spec fn wf(&self) -> bool {
        self.offset() <= self.input().len()
    }

    /// A reader at the start of `data`.
    pub fn new(data: &'a [u8]) -> (r: Self)
        ensures
            r.input() == data@,
            r.offset() == 0,
    {
        Self { data, pos: 0 }
    }

    fn read_u8(&mut self) -> (v: u8)
        requires
            old(self).wf(),
            old(self).rest().len() >= 1,
        ensures
            v == old(self).rest()[0],
            final(self).input() == old(self).input(),
            final(self).offset() == old(self).offset() + 1,
            final(self).wf(),
    {
        let v = self.data[self.pos];
        self.pos = self.pos + 1;
        v
    }

    fn read_i8(&mut self) -> (v: i8)
        requires
            old(self).wf(),
            old(self).rest().len() >= 1,
        ensures
            v == wrap8(old(self).rest()[0] as int),
            final(self).input() == old(self).input(),
            final(self).offset() == old(self).offset() + 1,
            final(self).wf(),
    {
        let b = self.read_u8();
        if b < 0x80 { b as i8 } else { (b as i16 - 0x100) as i8 }
    }

    /// Reads `n` bytes as a big-endian unsigned number.
    fn read_be(&mut self, n: usize) -> (v: u64)
        requires
            old(self).wf(),
            n <= 8,
            old(self).rest().len() >= n,
        ensures
            v == be_value(old(self).rest().subrange(0, n as int)),
            final(self).input() == old(self).input(),
            final(self).offset() == old(self).offset() + n,
            final(self).wf(),
        decreases n,
    {
        if n == 0 {
            assert(old(self).rest().subrange(0, 0) =~= Seq::<u8>::empty());
            0
        } else {
            let high = self.read_be(n - 1);
            let ghost r = old(self).rest().subrange(0, n as int);
            assert(r.drop_last() =~= old(self).rest().subrange(0, n - 1));
            proof {
                lemma_be_value_bound(r.drop_last());
                lemma_pow256_values();
                lemma_pow256_mono((n - 1) as nat, 7);
            }
            assert(self.rest()[0] == r.last());
            let low = self.read_u8();
            high * 256 + low as u64
        }
    }

    fn read_i16(&mut self) -> (v: i16)
        requires
            old(self).wf(),
            old(self).rest().len() >= 2,
        ensures
            v == wrap16(be_value(old(self).rest().subrange(0, 2)) as int),
            final(self).input() == old(self).input(),
            final(self).offset() == old(self).offset() + 2,
            final(self).wf(),
    {
        proof {
            lemma_be_value_bound(old(self).rest().subrange(0, 2));
            lemma_pow256_values();
        }
        let raw = self.read_be(2);
        if raw < 0x8000 { raw as i16 } else { (raw as i32 - 0x1_0000) as i16 }
    }

    fn read_i32(&mut self) -> (v: i32)
        requires
            old(self).wf(),
            old(self).rest().len() >= 4,
        ensures
            v == wrap32(be_value(old(self).rest().subrange(0, 4)) as int),
            final(self).input() == old(self).input(),
            final(self).offset() == old(self).offset() + 4,
            final(self).wf(),
    {
        proof {
            lemma_be_value_bound(old(self).rest().subrange(0, 4));
            lemma_pow256_values();
        }
        let raw = self.read_be(4);
        if raw < 0x8000_0000 { raw as i32 } else { (raw as i64 - 0x1_0000_0000) as i32 }
    }

    fn read_i64(&mut self) -> (v: i64)
        requires
            old(self).wf(),
            old(self).rest().len() >= 8,
        ensures
            v == wrap64(be_value(old(self).rest().subrange(0, 8)) as int),
            final(self).input() == old(self).input(),
            final(self).offset() == old(self).offset() + 8,
            final(self).wf(),
    {
        proof {
            lemma_be_value_bound(old(self).rest().subrange(0, 8));
            lemma_pow256_values();
        }
        let raw = self.read_be(8);
        if raw < 0x8000_0000_0000_0000 {
            raw as i64
        } else {
            (raw as i128 - 0x1_0000_0000_0000_0000) as i64
        }
    }

    /// Reads the IEEE-754 bits of a 32-bit float.
    fn read_f32(&mut self) -> (v: u32)
        requires
            old(self).wf(),
            old(self).rest().len() >= 4,
        ensures
            v == be_value(old(self).rest().subrange(0, 4)),
            final(self).input() == old(self).input(),
            final(self).offset() == old(self).offset() + 4,
            final(self).wf(),
    {
        proof {
            lemma_be_value_bound(old(self).rest().subrange(0, 4));
            lemma_pow256_values();
        }
        self.read_be(4) as u32
    }

    /// Reads the IEEE-754 bits of a 64-bit float.
    fn read_f64(&mut self) -> (v: u64)
        requires
            old(self).wf(),
            old(self).rest().len() >= 8,
        ensures
            v == be_value(old(self).rest().subrange(0, 8)),
            final(self).input() == old(self).input(),
            final(self).offset() == old(self).offset() + 8,
            final(self).wf(),
    {
        self.read_be(8)
    }

    fn read_bytes(&mut self, n: usize) -> (v: Vec<u8>)
        requires
            old(self).wf(),
            old(self).rest().len() >= n,
        ensures
            v@ == old(self).rest().subrange(0, n as int),
            final(self).input() == old(self).input(),
            final(self).offset() == old(self).offset() + n,
            final(self).wf(),
    {
        let mut out: Vec<u8> = Vec::new();
        let start = self.pos;
        while out.len() < n
            invariant
                self.data@ == old(self).data@,
                start == old(self).pos,
                start + n <= self.data@.len(),
                self.pos == start + out@.len(),
                out@.len() <= n,
                out@ == self.data@.subrange(start as int, self.pos as int),
            decreases n - out@.len(),
        {
            let b = self.data[self.pos];
            self.pos = self.pos + 1;
            out.push(b);
            assert(out@ =~= self.data@.subrange(start as int, self.pos as int));
        }
        assert(out@ =~= old(self).rest().subrange(0, n as int));
        out
    }

    /// Reads an NBT string: a signed 16-bit length, then bytes decoded
    /// lossily.
    fn read_string(&mut self) -> (s: String)
        requires
            old(self).wf(),
            name_dec(old(self).rest()) is Some,
        ensures
            s@ == name_dec(old(self).rest()).unwrap().0,
            final(self).input() == old(self).input(),
            final(self).offset() == old(self).offset() + name_dec(old(self).rest()).unwrap().1,
            final(self).wf(),
    {
        let ghost r0 = old(self).rest();
        let len = self.read_i16() as usize;
        assert(self.rest() =~= r0.skip(2));
        let bytes = self.read_bytes(len);
        assert(bytes@ =~= r0.subrange(2, 2 + len));
        string_from_utf8_lossy(bytes.as_slice())
    }

    /// Reads the payload of a tag of type `type_id`. Unknown types read
    /// nothing and give `Byte(0)`.
    pub fn read_tag(&mut self, type_id: u8) -> (tag: NbtTag)
        requires
            old(self).wf(),
            tag_dec(old(self).rest(), type_id) is Some,
        ensures
            tag.model() == tag_dec(old(self).rest(), type_id).unwrap().0,
            final(self).input() == old(self).input(),
            final(self).offset() == old(self).offset() + tag_dec(old(self).rest(), type_id).unwrap().1,
            final(self).wf(),
        decreases old(self).input().len() - old(self).offset(),
    {
        let ghost r0 = old(self).rest();
        if type_id == 1 {
            NbtTag::Byte(self.read_i8())
        } else if type_id == 2 {
            NbtTag::Short(self.read_i16())
        } else if type_id == 3 {
            NbtTag::Int(self.read_i32())
        } else if type_id == 4 {
            NbtTag::Long(self.read_i64())
        } else if type_id == 5 {
            NbtTag::Float(self.read_f32())
        } else if type_id == 6 {
            NbtTag::Double(self.read_f64())
        } else if type_id == 7 {
            let len = self.read_i32() as usize;
            assert(self.rest() =~= r0.skip(4));
            let bytes = self.read_bytes(len);
            assert(bytes@ =~= r0.subrange(4, 4 + len));
            NbtTag::ByteArray(bytes)
        } else if type_id == 8 {
            NbtTag::String(self.read_string())
        } else if type_id == 9 {
            let elem_type = self.read_u8();
            assert(self.rest() =~= r0.skip(1));
            let len = self.read_i32() as usize;
            assert(self.rest() =~= r0.skip(5));
            let ghost start = self.offset();
            let ghost total = list_dec(r0.skip(5), elem_type, len as nat).unwrap();
            let mut entries: Vec<NbtTag> = Vec::new();
            let mut i: usize = 0;
            while i < len
                invariant
                    self.wf(),
                    self.input() == old(self).input(),
                    old(self).wf(),
                    start == old(self).offset() + 5,
                    self.offset() >= start,
                    i <= len,
                    list_dec(self.rest(), elem_type, (len - i) as nat) is Some,
                    total == (
                        models(entries@) + list_dec(self.rest(), elem_type, (len - i) as nat).unwrap().0,
                        ((self.offset() - start) + list_dec(self.rest(), elem_type, (len - i) as nat).unwrap().1) as nat,
                    ),
                decreases len - i,
            {
                let ghost r = self.rest();
                let ghost (v, n) = tag_dec(r, elem_type).unwrap();
                let ghost (vs, m) = list_dec(r.skip(n as int), elem_type, (len - i - 1) as nat).unwrap();
                let tag = self.read_tag(elem_type);
                assert(self.rest() =~= r.skip(n as int));
                proof {
                    lemma_models_push(entries@, tag);
                    assert(models(entries@.push(tag)) + vs =~= models(entries@) + (seq![v] + vs));
                }
                entries.push(tag);
                i = i + 1;
            }
            assert(models(entries@) + Seq::<NbtValue>::empty() =~= models(entries@));
            NbtTag::List(elem_type, entries)
        } else if type_id == 10 {
            let ghost start = self.offset();
            let ghost total = entries_dec(r0).unwrap();
            let mut entries: Vec<(String, NbtTag)> = Vec::new();
            loop
                invariant_except_break
                    self.wf(),
                    self.input() == old(self).input(),
                    old(self).wf(),
                    start == old(self).offset(),
                    self.offset() >= start,
                    entries_dec(self.rest()) is Some,
                    total == (
                        entry_models(entries@) + entries_dec(self.rest()).unwrap().0,
                        ((self.offset() - start) + entries_dec(self.rest()).unwrap().1) as nat,
                    ),
                ensures
                    self.wf(),
                    self.input() == old(self).input(),
                    self.offset() >= start,
                    total == (entry_models(entries@), (self.offset() - start) as nat),
                decreases self.input().len() - self.offset(),
            {
                let ghost r = self.rest();
                let tag_type = self.read_u8();
                if tag_type == 0 {
                    assert(entry_models(entries@) + Seq::<(Seq<char>, NbtValue)>::empty() =~= entry_models(entries@));
                    break;
                }
                assert(self.rest() =~= r.skip(1));
                let ghost (nm, m) = name_dec(r.skip(1)).unwrap();
                let name = self.read_string();
                assert(self.rest() =~= r.skip((1 + m) as int));
                let ghost (v, n) = tag_dec(r.skip((1 + m) as int), tag_type).unwrap();
                let ghost (es, k) = entries_dec(r.skip((1 + m + n) as int)).unwrap();
                let tag = self.read_tag(tag_type);
                assert(self.rest() =~= r.skip((1 + m + n) as int));
                proof {
                    lemma_entry_models_push(entries@, (name, tag));
                    assert(entry_models(entries@.push((name, tag))) + es =~= entry_models(entries@) + (seq![(nm, v)] + es));
                }
                entries.push((name, tag));
            }
            NbtTag::Compound(entries)
        } else if type_id == 11 {
            let len = self.read_i32() as usize;
            assert(self.rest() =~= r0.skip(4));
            let ghost total = ints_dec(r0.skip(4), len as nat).unwrap();
            let mut ints: Vec<i32> = Vec::new();
            let mut i: usize = 0;
            while i < len
                invariant
                    self.wf(),
                    self.input() == old(self).input(),
                    old(self).wf(),
                    r0 == old(self).rest(),
                    i <= len,
                    self.rest() == r0.skip(4 + 4 * i),
                    4 + 4 * len <= r0.len(),
                    ints_dec(self.rest(), (len - i) as nat) is Some,
                    total == ints@ + ints_dec(self.rest(), (len - i) as nat).unwrap(),
                    self.offset() == old(self).offset() + 4 + 4 * i,
                decreases len - i,
            {
                let ghost r = self.rest();
                let x = self.read_i32();
                assert(self.rest() =~= r.skip(4));
                assert(self.rest() =~= r0.skip(4 + 4 * (i + 1)));
                let ghost tail = ints_dec(r.skip(4), (len - i - 1) as nat).unwrap();
                assert(ints@.push(x) + tail =~= ints@ + (seq![x] + tail));
                ints.push(x);
                i = i + 1;
            }
            assert(ints@ + Seq::<i32>::empty() =~= ints@);
            NbtTag::IntArray(ints)
        } else {
            NbtTag::Byte(0)
        }
    }

    /// Reads a named root tag: its type byte, name and payload.
    pub fn read_named_root(&mut self) -> (r: (String, NbtTag))
        requires
            old(self).wf(),
            root_dec(old(self).rest()) is Some,
        ensures
            r.0@ == root_dec(old(self).rest()).unwrap().0,
            r.1.model() == root_dec(old(self).rest()).unwrap().1,
            final(self).input() == old(self).input(),
            final(self).offset() == old(self).offset() + root_dec(old(self).rest()).unwrap().2,
            final(self).wf(),
    {
        let ghost r0 = old(self).rest();
        let type_id = self.read_u8();
        assert(self.rest() =~= r0.skip(1));
        let ghost m = name_dec(r0.skip(1)).unwrap().1;
        let name = self.read_string();
        assert(self.rest() =~= r0.skip((1 + m) as int));
        let tag = self.read_tag(type_id);
        (name, tag)
    }
}

/// The encodable values: every string within 32767 UTF-8 bytes, every
/// array and list within `i32::MAX` elements, and every list element of the
/// list's declared type.
pub open spec fn value_wf(v: NbtValue) -> bool
    decreases v,
{
    match v {
        NbtValue::ByteArray(b) => b.len() <= i32::MAX,
        NbtValue::String(s) => encode_utf8(s).len() <= 32767,
        NbtValue::List(t, es) => es.len() <= i32::MAX && list_wf(es, t),
        NbtValue::Compound(es) => entries_wf(es),
        NbtValue::IntArray(xs) => xs.len() <= i32::MAX,
        _ => true,
    }
}

/// Every element is well formed and of type `t`.
pub open spec fn list_wf(es: Seq<NbtValue>, t: u8) -> bool
    decreases es,
{
    es.len() == 0 || (value_type(es[0]) == t && value_wf(es[0]) && list_wf(es.drop_first(), t))
}

/// Every entry has a name within 32767 UTF-8 bytes and a well-formed value.
pub open spec fn entries_wf(es: Seq<(Seq<char>, NbtValue)>) -> bool
    decreases es,
{
    es.len() == 0 || (encode_utf8(es[0].0).len() <= 32767 && value_wf(es[0].1) && entries_wf(es.drop_first()))
}

proof fn lemma_name_roundtrip(s: Seq<char>, rest: Seq<u8>)
    requires
        encode_utf8(s).len() <= 32767,
    ensures
        name_dec(name_enc(s) + rest) == Some((s, name_enc(s).len())),
{
    let b = encode_utf8(s);
    let all = name_enc(s) + rest;
    lemma_pow256_values();
    lemma_be_signed(b.len() as int, 2);
    assert(all.subrange(0, 2) =~= be_bytes(b.len() as int, 2));
    assert(all.subrange(2, (2 + b.len()) as int) =~= b);
    encode_utf8_valid_utf8(s);
    encode_utf8_decode_utf8(s);
}

proof fn lemma_count_roundtrip(n: nat, rest: Seq<u8>)
    requires
        n <= i32::MAX,
    ensures
        count_dec(be_bytes(n as int, 4) + rest) == Some(n),
{
    lemma_pow256_values();
    lemma_be_signed(n as int, 4);
    assert((be_bytes(n as int, 4) + rest).subrange(0, 4) =~= be_bytes(n as int, 4));
}

proof fn lemma_ints_roundtrip(xs: Seq<i32>, rest: Seq<u8>)
    ensures
        ints_dec(ints_enc(xs) + rest, xs.len()) == Some(xs),
        ints_enc(xs).len() == 4 * xs.len(),
    decreases xs.len(),
{
    if xs.len() > 0 {
        let all = ints_enc(xs) + rest;
        lemma_pow256_values();
        lemma_be_signed(xs[0] as int, 4);
        lemma_ints_roundtrip(xs.drop_first(), rest);
        assert(all.subrange(0, 4) =~= be_bytes(xs[0] as int, 4));
        assert(all.skip(4) =~= ints_enc(xs.drop_first()) + rest);
        assert(seq![xs[0]] + xs.drop_first() =~= xs);
    }
}

proof fn lemma_fixed_roundtrip(x: int, n: nat, rest: Seq<u8>)
    requires
        n >= 1,
        -pow256(n) <= x < pow256(n),
    ensures
        (be_bytes(x, n) + rest).subrange(0, n as int) == be_bytes(x, n),
        be_value((be_bytes(x, n) + rest).subrange(0, n as int)) == x % (pow256(n) as int),
        (be_bytes(x, n) + rest).len() >= n,
{
    lemma_be_signed(x, n);
    assert((be_bytes(x, n) + rest).subrange(0, n as int) =~= be_bytes(x, n));
}

#[verifier::rlimit(40)]
#[verifier::spinoff_prover]
proof fn lemma_scalar_roundtrip(v: NbtValue, rest: Seq<u8>)
    requires
        v is Byte || v is Short || v is Int || v is Long || v is Float || v is Double,
    ensures
        tag_dec(payload_enc(v) + rest, value_type(v)) == Some((v, payload_enc(v).len())),
{
    lemma_pow256_values();
    match v {
        NbtValue::Byte(b) => {
            lemma_fixed_roundtrip(b as int, 1, rest);
            assert(be_bytes(b as int, 1) =~= be_bytes(b as int / 256, 0) + seq![(b as int % 256) as u8]);
        },
        NbtValue::Short(x) => lemma_fixed_roundtrip(x as int, 2, rest),
        NbtValue::Int(x) => lemma_fixed_roundtrip(x as int, 4, rest),
        NbtValue::Long(x) => lemma_fixed_roundtrip(x as int, 8, rest),
        NbtValue::Float(x) => lemma_fixed_roundtrip(x as int, 4, rest),
        NbtValue::Double(x) => lemma_fixed_roundtrip(x as int, 8, rest),
        _ => {},
    }
}

proof fn lemma_byte_array_roundtrip(b: Seq<u8>, rest: Seq<u8>)
    requires
        b.len() <= i32::MAX,
    ensures
        tag_dec(payload_enc(NbtValue::ByteArray(b)) + rest, 7) == Some(
            (NbtValue::ByteArray(b), payload_enc(NbtValue::ByteArray(b)).len()),
        ),
{
    let all = payload_enc(NbtValue::ByteArray(b)) + rest;
    lemma_count_roundtrip(b.len(), b + rest);
    assert(all =~= be_bytes(b.len() as int, 4) + (b + rest));
    lemma_be_bytes_len(b.len() as int, 4);
    assert(all.subrange(4, (4 + b.len()) as int) =~= b);
}

proof fn lemma_int_array_roundtrip(xs: Seq<i32>, rest: Seq<u8>)
    requires
        xs.len() <= i32::MAX,
    ensures
        tag_dec(payload_enc(NbtValue::IntArray(xs)) + rest, 11) == Some(
            (NbtValue::IntArray(xs), payload_enc(NbtValue::IntArray(xs)).len()),
        ),
{
    let all = payload_enc(NbtValue::IntArray(xs)) + rest;
    lemma_be_bytes_len(xs.len() as int, 4);
    lemma_ints_roundtrip(xs, rest);
    lemma_count_roundtrip(xs.len(), ints_enc(xs) + rest);
    assert(all =~= be_bytes(xs.len() as int, 4) + (ints_enc(xs) + rest));
    assert(all.skip(4) =~= ints_enc(xs) + rest);
}

proof fn lemma_list_payload(t: u8, es: Seq<NbtValue>, rest: Seq<u8>)
    requires
        es.len() <= i32::MAX,
        list_dec(list_enc(es) + rest, t, es.len()) == Some((es, list_enc(es).len())),
    ensures
        tag_dec(payload_enc(NbtValue::List(t, es)) + rest, 9) == Some(
            (NbtValue::List(t, es), payload_enc(NbtValue::List(t, es)).len()),
        ),
{
    let all = payload_enc(NbtValue::List(t, es)) + rest;
    lemma_be_bytes_len(es.len() as int, 4);
    assert(all.skip(1) =~= be_bytes(es.len() as int, 4) + (list_enc(es) + rest));
    lemma_count_roundtrip(es.len(), list_enc(es) + rest);
    assert(all.skip(5) =~= list_enc(es) + rest);
}

/// Reading back the payload of a well-formed value gives the value and
/// takes exactly the bytes written, whatever follows.
pub proof fn lemma_payload_roundtrip(v: NbtValue, rest: Seq<u8>)
    requires
        value_wf(v),
    ensures
        tag_dec(payload_enc(v) + rest, value_type(v)) == Some((v, payload_enc(v).len())),
    decreases v,
{
    match v {
        NbtValue::ByteArray(b) => lemma_byte_array_roundtrip(b, rest),
        NbtValue::String(s) => lemma_name_roundtrip(s, rest),
        NbtValue::List(t, es) => {
            lemma_list_roundtrip(es, t, rest);
            lemma_list_payload(t, es, rest);
        },
        NbtValue::Compound(es) => {
            lemma_entries_roundtrip(es, rest);
            assert(payload_enc(v) + rest =~= entries_enc(es) + seq![0u8] + rest);
        },
        NbtValue::IntArray(xs) => lemma_int_array_roundtrip(xs, rest),
        _ => lemma_scalar_roundtrip(v, rest),
    }
}

proof fn lemma_list_roundtrip(es: Seq<NbtValue>, t: u8, rest: Seq<u8>)
    requires
        list_wf(es, t),
    ensures
        list_dec(list_enc(es) + rest, t, es.len()) == Some((es, list_enc(es).len())),
    decreases es,
{
    if es.len() > 0 {
        let all = list_enc(es) + rest;
        lemma_payload_roundtrip(es[0], list_enc(es.drop_first()) + rest);
        assert(all =~= payload_enc(es[0]) + (list_enc(es.drop_first()) + rest));
        lemma_list_roundtrip(es.drop_first(), t, rest);
        assert(all.skip(payload_enc(es[0]).len() as int) =~= list_enc(es.drop_first()) + rest);
        assert(seq![es[0]] + es.drop_first() =~= es);
    }
}

#[verifier::rlimit(60)]
#[verifier::spinoff_prover]
proof fn lemma_entries_roundtrip(es: Seq<(Seq<char>, NbtValue)>, rest: Seq<u8>)
    requires
        entries_wf(es),
    ensures
        entries_dec(entries_enc(es) + seq![0u8] + rest) == Some((es, entries_enc(es).len() + 1)),
    decreases es,
{
    let all = entries_enc(es) + seq![0u8] + rest;
    if es.len() == 0 {
        assert(all[0] == 0);
    } else {
        let name = es[0].0;
        let v = es[0].1;
        let tail = entries_enc(es.drop_first()) + seq![0u8] + rest;
        let ne = name_enc(name);
        let pe = payload_enc(v);
        let m = ne.len();
        let n = pe.len();
        assert(entries_enc(es) == seq![value_type(v)] + ne + pe + entries_enc(es.drop_first()));
        assert(all =~= seq![value_type(v)] + (ne + (pe + tail)));
        assert(all[0] == value_type(v));
        assert(value_type(v) != 0);
        lemma_name_roundtrip(name, pe + tail);
        assert(all.skip(1) =~= ne + (pe + tail));
        assert(name_dec(all.skip(1)) == Some((name, m)));
        lemma_payload_roundtrip(v, tail);
        assert(all.skip((1 + m) as int) =~= pe + tail);
        assert(tag_dec(all.skip((1 + m) as int), all[0]) == Some((v, n)));
        assert(all.skip((1 + m + n) as int) =~= tail);
        lemma_entries_roundtrip(es.drop_first(), rest);
        let k = entries_enc(es.drop_first()).len() + 1;
        assert(entries_dec(all.skip((1 + m + n) as int)) == Some((es.drop_first(), k)));
        assert(seq![(name, v)] + es.drop_first() =~= es);
        assert(entries_enc(es).len() + 1 == 1 + m + n + k);
    }
}

/// A named root written by `write_named_root` is read back by
/// `NbtReader::read_named_root` as the same name and tag, when the tag is a
/// well-formed compound and the name fits.
pub proof fn law_root_roundtrip(name: Seq<char>, v: NbtValue, rest: Seq<u8>)
    requires
        v is Compound,
        value_wf(v),
        encode_utf8(name).len() <= 32767,
    ensures
        root_dec(root_enc(name, v) + rest) == Some((name, v, root_enc(name, v).len())),
{
    let all = root_enc(name, v) + rest;
    let ne = name_enc(name);
    lemma_name_roundtrip(name, payload_enc(v) + rest);
    assert(all.skip(1) =~= ne + (payload_enc(v) + rest));
    lemma_payload_roundtrip(v, rest);
    assert(all.skip((1 + ne.len()) as int) =~= payload_enc(v) + rest);
}

/// Index of the first entry named `key`.
pub open spec fn entry_index(es: Seq<(Seq<char>, NbtValue)>, key: Seq<char>) -> Option<int>
    decreases es.len(),
{
    if es.len() == 0 {
        None
    } else if es[0].0 == key {
        Some(0)
    } else {
        match entry_index(es.drop_first(), key) {
            Some(i) => Some(i + 1),
            None => None,
        }
    }
}

/// The value of the first entry named `key` of a compound.
pub open spec fn lookup(v: NbtValue, key: Seq<char>) -> Option<NbtValue> {
    match v {
        NbtValue::Compound(es) => match entry_index(es, key) {
            Some(i) => Some(es[i].1),
            None => None,
        },
        _ => None,
    }
}

/// A compound with the first entry named `key` given the value `new`, or
/// with a new entry at the end when there is none; other tags unchanged.
pub open spec fn with_entry(v: NbtValue, key: Seq<char>, new: NbtValue) -> NbtValue {
    match v {
        NbtValue::Compound(es) => NbtValue::Compound(
            match entry_index(es, key) {
                Some(i) => es.update(i, (es[i].0, new)),
                None => es.push((key, new)),
            },
        ),
        _ => v,
    }
}

pub proof fn lemma_entry_index(es: Seq<(Seq<char>, NbtValue)>, key: Seq<char>)
    ensures
        entry_index(es, key) matches Some(i) ==> 0 <= i < es.len() && es[i].0 == key && forall|j: int|
            0 <= j < i ==> es[j].0 != key,
        entry_index(es, key) is None ==> forall|j: int| 0 <= j < es.len() ==> es[j].0 != key,
    decreases es.len(),
{
    if es.len() > 0 {
        lemma_entry_index(es.drop_first(), key);
        assert forall|j: int| 1 <= j < es.len() implies es[j] == es.drop_first()[j - 1] by {}
    }
}

pub proof fn lemma_entry_models_index(s: Seq<(String, NbtTag)>)
    ensures
        entry_models(s).len() == s.len(),
        forall|i: int| 0 <= i < s.len() ==> #[trigger] entry_models(s)[i] == (s[i].0@, s[i].1.model()),
    decreases s.len(),
{
    if s.len() > 0 {
        lemma_entry_models_index(s.drop_first());
        assert forall|i: int| 0 <= i < s.len() implies #[trigger] entry_models(s)[i] == (s[i].0@, s[i].1.model()) by {
            if i > 0 {
                assert(entry_models(s)[i] == entry_models(s.drop_first())[i - 1]);
            }
        }
    }
}

proof fn lemma_entry_models_update(s: Seq<(String, NbtTag)>, i: int, v: NbtTag)
    requires
        0 <= i < s.len(),
    ensures
        entry_models(s.update(i, (s[i].0, v))) == entry_models(s).update(i, (s[i].0@, v.model())),
{
    lemma_entry_models_index(s);
    lemma_entry_models_index(s.update(i, (s[i].0, v)));
    assert(entry_models(s.update(i, (s[i].0, v))) =~= entry_models(s).update(i, (s[i].0@, v.model())));
}

/// The first index in `entries` named `key`, found by a scan.
fn find_entry(entries: &Vec<(String, NbtTag)>, key: &str) -> (r: Option<usize>)
    ensures
        r matches Some(i) ==> entry_index(entry_models(entries@), key@) == Some(i as int),
        r is None ==> entry_index(entry_models(entries@), key@) is None,
{
    proof {
        lemma_entry_models_index(entries@);
        lemma_entry_index(entry_models(entries@), key@);
    }
    let mut i: usize = 0;
    while i < entries.len()
        invariant
            i <= entries@.len(),
            entry_models(entries@).len() == entries@.len(),
            forall|j: int| 0 <= j < i ==> entries@[j].0@ != key@,
            forall|j: int| 0 <= j < entries@.len() ==> #[trigger] entry_models(entries@)[j] == (entries@[j].0@, entries@[j].1.model()),
            entry_index(entry_models(entries@), key@) matches Some(k) ==> 0 <= k < entries@.len() && entry_models(entries@)[k].0 == key@ && forall|j: int|
                0 <= j < k ==> entry_models(entries@)[j].0 != key@,
            entry_index(entry_models(entries@), key@) is None ==> forall|j: int| 0 <= j < entries@.len() ==> entry_models(entries@)[j].0 != key@,
        decreases entries.len() - i,
    {
        if crate::text::str_eq(entries[i].0.as_str(), key) {
            assert(entry_models(entries@)[i as int].0 == key@);
            return Some(i);
        }
        i = i + 1;
    }
    None
}

impl NbtTag {
    /// The value of the first entry named `key`, when this is a compound
    /// that has one.
    pub fn get(&self, key: &str) -> (r: Option<&NbtTag>)
        ensures
            r is Some <==> lookup(self.model(), key@) is Some,
            r matches Some(t) ==> t.model() == lookup(self.model(), key@).unwrap(),
    {
        match self {
            NbtTag::Compound(entries) => {
                proof {
                    lemma_entry_models_index(entries@);
                    lemma_entry_index(entry_models(entries@), key@);
                }
                match find_entry(entries, key) {
                    Some(i) => Some(&entries[i].1),
                    None => None,
                }
            },
            _ => None,
        }
    }

    /// Gives the first entry named `key` the value `value`, or appends a
    /// new entry; tags other than compounds are left unchanged.
    pub fn set(&mut self, key: &str, value: NbtTag)
        ensures
            final(self).model() == with_entry(old(self).model(), key@, value.model()),
    {
        match self {
            NbtTag::Compound(entries) => {
                proof {
                    lemma_entry_models_index(entries@);
                    lemma_entry_index(entry_models(entries@), key@);
                }
                match find_entry(entries, key) {
                    Some(i) => {
                        let name = entries[i].0.clone();
                        let ghost before = entries@;
                        entries.set(i, (name, value));
                        proof {
                            lemma_entry_models_index(entries@);
                            assert(entry_models(entries@) =~= entry_models(before).update(
                                i as int,
                                (entry_models(before)[i as int].0, value.model()),
                            ));
                        }
                    },
                    None => {
                        let ghost before = entries@;
                        let entry = (key.to_owned(), value);
                        let ghost e = entry;
                        entries.push(entry);
                        proof { lemma_entry_models_push(before, e); }
                    },
                }
            },
            _ => {},
        }
    }

    /// The value of the first entry named `key` of a compound, to change in
    /// place: the compound then holds the changed value there, all else as
    /// it was. `None`, and nothing changed, when there is no such entry.
    pub fn get_mut(&mut self, key: &str) -> (r: Option<&mut NbtTag>)
        ensures
            r is Some <==> lookup(old(self).model(), key@) is Some,
            r matches Some(t) ==> t.model() == lookup(old(self).model(), key@).unwrap() && final(self).model()
                == with_entry(old(self).model(), key@, final(t).model()),
            r is None ==> *final(self) == *old(self),
    {
        match self {
            NbtTag::Compound(entries) => {
                proof {
                    lemma_entry_models_index(entries@);
                    lemma_entry_index(entry_models(entries@), key@);
                }
                match find_entry(entries, key) {
                    Some(i) => {
                        let ghost before = entries@;
                        let entry = &mut entries[i];
                        let t = &mut entry.1;
                        proof {
                            lemma_entry_models_update(before, i as int, *final(t));
                        }
                        Some(t)
                    },
                    None => None,
                }
            },
            _ => None,
        }
    }

    /// The number of an `Int` tag.
    pub fn as_i32(&self) -> (r: Option<i32>)
        ensures
            r == (match self.model() {
                NbtValue::Int(v) => Some(v),
                _ => None,
            }),
    {
        match self {
            NbtTag::Int(v) => Some(*v),
            _ => None,
        }
    }

    /// The bytes of a `ByteArray` tag.
    pub fn as_byte_array(&self) -> (r: Option<&Vec<u8>>)
        ensures
            r is Some <==> self.model() is ByteArray,
            r matches Some(b) ==> self.model() == NbtValue::ByteArray(b@),
    {
        match self {
            NbtTag::ByteArray(v) => Some(v),
            _ => None,
        }
    }

    /// The elements of a `List` tag.
    pub fn as_list(&self) -> (r: Option<&Vec<NbtTag>>)
        ensures
            r is Some <==> self.model() is List,
            r matches Some(es) ==> self.model() == NbtValue::List(self.model()->List_0, models(es@)),
    {
        match self {
            NbtTag::List(_, v) => Some(v),
            _ => None,
        }
    }

    /// The number of a `Byte` tag.
    pub fn as_i8(&self) -> (r: Option<i8>)
        ensures
            r == (match self.model() {
                NbtValue::Byte(v) => Some(v),
                _ => None,
            }),
    {
        match self {
            NbtTag::Byte(v) => Some(*v),
            _ => None,
        }
    }

    /// The number of a `Short` tag.
    pub fn as_i16_val(&self) -> (r: Option<i16>)
        ensures
            r == (match self.model() {
                NbtValue::Short(v) => Some(v),
                _ => None,
            }),
    {
        match self {
            NbtTag::Short(v) => Some(*v),
            _ => None,
        }
    }

    /// The text of a `String` tag.
    pub fn as_string(&self) -> (r: Option<&str>)
        ensures
            r is Some <==> self.model() is String,
            r matches Some(s) ==> self.model() == NbtValue::String(s@),
    {
        match self {
            NbtTag::String(s) => Some(s.as_str()),
            _ => None,
        }
    }
}

} // verus!
