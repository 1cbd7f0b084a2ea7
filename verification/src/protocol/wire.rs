//! Mathematical model of the byte encodings used on the wire.

use vstd::prelude::*;
use vstd::utf8::*;

verus! {

/// `128` raised to `n`.
pub open spec fn pow128(n: nat) -> nat
    decreases n,
{
    if n == 0 {
        1
    } else {
        128 * pow128((n - 1) as nat)
    }
}

/// The variable-length encoding of a non-negative number: seven bits per
/// byte, least significant group first, the high bit set on every byte but
/// the last.
pub open spec fn varint_enc(v: nat) -> Seq<u8>
    decreases v,
{
    if v < 128 {
        seq![v as u8]
    } else {
        seq![(v % 128 + 128) as u8] + varint_enc(v / 128)
    }
}

/// Decodes a variable-length number of at most `max` bytes from the front of
/// `s`: its value and how many bytes it took. `None` when the bytes run out
/// or the number would be longer than `max` bytes.
pub open spec fn varint_dec(s: Seq<u8>, max: nat) -> Option<(nat, nat)>
    decreases s.len(),
{
    if s.len() == 0 || max == 0 {
        None
    } else if s[0] >= 128 {
        if max == 1 {
            None
        } else {
            match varint_dec(s.drop_first(), (max - 1) as nat) {
                Some((v, n)) => Some(((s[0] - 128) as nat + 128 * v, n + 1)),
                None => None,
            }
        }
    } else {
        Some((s[0] as nat, 1))
    }
}

/// The `i32` whose two's complement bits are the low 32 bits of `x`.
pub open spec fn wrap32(x: int) -> i32 {
    let m = x % 0x1_0000_0000;
    if m < 0x8000_0000 {
        m as i32
    } else {
        (m - 0x1_0000_0000) as i32
    }
}

/// The `i64` whose two's complement bits are the low 64 bits of `x`.
pub open spec fn wrap64(x: int) -> i64 {
    let m = x % 0x1_0000_0000_0000_0000;
    if m < 0x8000_0000_0000_0000 {
        m as i64
    } else {
        (m - 0x1_0000_0000_0000_0000) as i64
    }
}

/// The `i16` whose two's complement bits are the low 16 bits of `x`.
pub open spec fn wrap16(x: int) -> i16 {
    let m = x % 0x1_0000;
    if m < 0x8000 {
        m as i16
    } else {
        (m - 0x1_0000) as i16
    }
}

/// Big-endian bytes of the low `8 * n` bits of `x`.
pub open spec fn be_bytes(x: int, n: nat) -> Seq<u8>
    decreases n,
{
    if n == 0 {
        seq![]
    } else {
        be_bytes(x / 256, (n - 1) as nat) + seq![(x % 256) as u8]
    }
}

/// The number whose big-endian bytes are `s`.
pub open spec fn be_value(s: Seq<u8>) -> nat
    decreases s.len(),
{
    if s.len() == 0 {
        0
    } else {
        be_value(s.drop_last()) * 256 + s.last() as nat
    }
}

/// A length-prefixed string: the VarInt byte length of its UTF-8 encoding,
/// then the encoding.
pub open spec fn string_enc(s: Seq<char>) -> Seq<u8> {
    varint_enc(encode_utf8(s).len()) + encode_utf8(s)
}

/// Decodes a length-prefixed UTF-8 string from the front of `s`: the
/// characters and the number of bytes taken. `None` when the length is
/// negative, runs past the input, or the bytes are not UTF-8.
pub open spec fn string_dec(s: Seq<u8>) -> Option<(Seq<char>, nat)> {
    match varint_dec(s, 5) {
        Some((v, n)) => {
            let len = wrap32(v as int);
            if len < 0 || n + len > s.len() {
                None
            } else {
                let bytes = s.subrange(n as int, n + len);
                if valid_utf8(bytes) {
                    Some((decode_utf8(bytes), n + len as nat))
                } else {
                    None
                }
            }
        },
        None => None,
    }
}

// ---------------------------------------------------------------- lemmas

pub proof fn lemma_pow128_pos(n: nat)
    ensures
        pow128(n) >= 1,
    decreases n,
{
    if n > 0 {
        lemma_pow128_pos((n - 1) as nat);
    }
}

pub proof fn lemma_pow128_mono(a: nat, b: nat)
    requires
        a <= b,
    ensures
        pow128(a) <= pow128(b),
    decreases b,
{
    if a < b {
        lemma_pow128_mono(a, (b - 1) as nat);
        lemma_pow128_pos((b - 1) as nat);
    }
}

/// A number below `128^k` takes at most `k` bytes.
pub proof fn lemma_varint_enc_len(v: nat, k: nat)
    requires
        v < pow128(k),
    ensures
        1 <= varint_enc(v).len() <= if k == 0 { 1 } else { k },
    decreases v,
{
    if v >= 128 {
        assert(k >= 2) by {
            if k == 0 {
            } else if k == 1 {
                assert(pow128(1) == 128 * pow128(0));
            }
        }
        let k1 = (k - 1) as nat;
        assert(v / 128 < pow128(k1)) by (nonlinear_arith)
            requires
                v < pow128(k),
                pow128(k) == 128 * pow128(k1),
        ;
        lemma_varint_enc_len(v / 128, k1);
    }
}

/// Decoding undoes encoding, whatever follows the encoded bytes.
pub proof fn lemma_varint_roundtrip(v: nat, max: nat, rest: Seq<u8>)
    requires
        v < pow128(max),
        max >= 1,
    ensures
        varint_dec(varint_enc(v) + rest, max) == Some((v, varint_enc(v).len())),
    decreases v,
{
    let s = varint_enc(v) + rest;
    lemma_varint_enc_len(v, max);
    if v < 128 {
        assert(s[0] == v as u8);
    } else {
        let m1 = (max - 1) as nat;
        assert(max >= 2) by {
            if max == 1 {
                assert(pow128(1) == 128 * pow128(0));
            }
        }
        assert(v / 128 < pow128(m1)) by (nonlinear_arith)
            requires
                v < pow128(max),
                pow128(max) == 128 * pow128(m1),
        ;
        lemma_varint_roundtrip(v / 128, m1, rest);
        assert(s.drop_first() =~= varint_enc(v / 128) + rest);
        assert(s[0] == (v % 128 + 128) as u8);
        vstd::arithmetic::div_mod::lemma_fundamental_div_mod(v as int, 128);
        assert(varint_enc(v).len() == 1 + varint_enc(v / 128).len());
    }
}

/// A decoded number is below `128` to the power of its length, and the
/// length is within `1..=max` and within the input.
pub proof fn lemma_varint_dec_bounds(s: Seq<u8>, max: nat)
    requires
        varint_dec(s, max) is Some,
    ensures
        ({
            let (v, n) = varint_dec(s, max).unwrap();
            &&& 1 <= n <= max
            &&& n <= s.len()
            &&& v < pow128(n)
        }),
    decreases s.len(),
{
    if s[0] >= 128 {
        let m1 = (max - 1) as nat;
        lemma_varint_dec_bounds(s.drop_first(), m1);
        let (v1, n1) = varint_dec(s.drop_first(), m1).unwrap();
        let n = n1 + 1;
        assert(pow128(n) == 128 * pow128(n1));
        assert((s[0] - 128) as nat + 128 * v1 < 128 * pow128(n1)) by (nonlinear_arith)
            requires
                v1 < pow128(n1),
                s[0] - 128 < 128,
                s[0] >= 128,
        ;
    } else {
        assert(pow128(1) == 128 * pow128(0));
    }
}

pub proof fn lemma_be_roundtrip(x: nat, n: nat)
    ensures
        be_bytes(x as int, n).len() == n,
        be_value(be_bytes(x as int, n)) == x % pow256(n),
    decreases n,
{
    if n > 0 {
        let n1 = (n - 1) as nat;
        lemma_be_roundtrip(x / 256, n1);
        let s = be_bytes(x as int, n);
        assert(s.drop_last() =~= be_bytes((x / 256) as int, n1));
        lemma_pow256_pos(n1);
        lemma_mod_split(x, pow256(n1));
    }
}

/// `256` raised to `n`.
pub open spec fn pow256(n: nat) -> nat
    decreases n,
{
    if n == 0 {
        1
    } else {
        256 * pow256((n - 1) as nat)
    }
}

/// The powers of 256 that byte widths use.
pub proof fn lemma_pow256_values()
    ensures
        pow256(1) == 0x100,
        pow256(2) == 0x1_0000,
        pow256(4) == 0x1_0000_0000,
        pow256(8) == 0x1_0000_0000_0000_0000,
{
    assert(pow256(1) == 256 * pow256(0));
    assert(pow256(2) == 256 * pow256(1));
    assert(pow256(3) == 256 * pow256(2));
    assert(pow256(4) == 256 * pow256(3));
    assert(pow256(5) == 256 * pow256(4));
    assert(pow256(6) == 256 * pow256(5));
    assert(pow256(7) == 256 * pow256(6));
    assert(pow256(8) == 256 * pow256(7));
}

pub proof fn lemma_pow256_mono(a: nat, b: nat)
    requires
        a <= b,
    ensures
        pow256(a) <= pow256(b),
    decreases b,
{
    if a < b {
        lemma_pow256_mono(a, (b - 1) as nat);
        lemma_pow256_pos((b - 1) as nat);
    }
}

pub proof fn lemma_pow256_pos(n: nat)
    ensures
        pow256(n) >= 1,
    decreases n,
{
    if n > 0 {
        lemma_pow256_pos((n - 1) as nat);
    }
}

proof fn lemma_mod_split(x: nat, p: nat)
    requires
        p >= 1,
    ensures
        (x / 256) % p * 256 + x % 256 == x % (256 * p),
{
    vstd::arithmetic::div_mod::lemma_breakdown(x as int, 256, p as int);
    assert((x / 256) % p * 256 == 256 * ((x / 256) % p)) by (nonlinear_arith);
}

pub proof fn lemma_be_value_bound(s: Seq<u8>)
    ensures
        be_value(s) < pow256(s.len()),
    decreases s.len(),
{
    if s.len() > 0 {
        lemma_be_value_bound(s.drop_last());
        let a = be_value(s.drop_last());
        let p = pow256((s.len() - 1) as nat);
        assert(a * 256 + s.last() < 256 * p) by (nonlinear_arith)
            requires
                a < p,
                s.last() < 256,
        ;
    }
}

/// Bytes that decode to a number encode back to themselves.
pub proof fn lemma_be_value_bytes(s: Seq<u8>)
    ensures
        be_bytes(be_value(s) as int, s.len()) == s,
    decreases s.len(),
{
    if s.len() > 0 {
        let a = be_value(s.drop_last());
        let x = a * 256 + s.last();
        assert(x / 256 == a && x % 256 == s.last()) by (nonlinear_arith)
            requires
                x == a * 256 + s.last(),
                0 <= s.last() < 256,
                a >= 0,
        ;
        lemma_be_value_bytes(s.drop_last());
        assert(be_bytes(x, s.len()) =~= s);
    }
}

/// The low `n` bytes are the last `n` of the low `m` bytes.
pub proof fn lemma_be_bytes_low(x: int, n: nat, m: nat)
    requires
        n <= m,
    ensures
        be_bytes(x, n) == be_bytes(x, m).subrange((m - n) as int, m as int),
        be_bytes(x, m).len() == m,
    decreases m,
{
    lemma_be_bytes_len(x, m);
    if n < m {
        let m1 = (m - 1) as nat;
        if n > 0 {
            lemma_be_bytes_low(x / 256, (n - 1) as nat, m1);
            lemma_be_bytes_len(x / 256, m1);
            assert(be_bytes(x, n) =~= be_bytes(x, m).subrange((m - n) as int, m as int));
        } else {
            assert(be_bytes(x, n) =~= be_bytes(x, m).subrange((m - n) as int, m as int));
        }
    } else {
        assert(be_bytes(x, m).subrange(0, m as int) =~= be_bytes(x, m));
    }
}

pub proof fn lemma_be_bytes_len(x: int, n: nat)
    ensures
        be_bytes(x, n).len() == n,
    decreases n,
{
    if n > 0 {
        lemma_be_bytes_len(x / 256, (n - 1) as nat);
    }
}

/// Adding a multiple of `256^n` does not change the low `n` bytes.
pub proof fn lemma_be_bytes_shift(x: int, n: nat, k: int)
    ensures
        be_bytes(x + pow256(n) * k, n) == be_bytes(x as int, n),
    decreases n,
{
    if n > 0 {
        let n1 = (n - 1) as nat;
        let y = x + pow256(n) * k;
        assert(pow256(n) == 256 * pow256(n1));
        assert(y == x + 256 * (pow256(n1) * k)) by (nonlinear_arith)
            requires
                y == x + pow256(n) * k,
                pow256(n) == 256 * pow256(n1),
        ;
        vstd::arithmetic::div_mod::lemma_fundamental_div_mod(x, 256);
        let q = x / 256;
        let r = x % 256;
        assert(y == 256 * (q + pow256(n1) * k) + r) by (nonlinear_arith)
            requires
                y == x + 256 * (pow256(n1) * k),
                x == 256 * q + r,
        ;
        vstd::arithmetic::div_mod::lemma_fundamental_div_mod_converse(y, 256, q + pow256(n1) * k, r);
        lemma_be_bytes_shift(q, n1, k);
    }
}

/// Non-negative numbers below `2^31` are their own `i32` image.
pub proof fn lemma_wrap32_small(x: int)
    requires
        0 <= x < 0x8000_0000,
    ensures
        wrap32(x) == x,
{
}

/// `2^31` is `128^5` divided by 16, so a non-negative `i32` fits in five
/// VarInt bytes; a non-negative `i64` fits in ten.
pub proof fn lemma_pow128_values()
    ensures
        pow128(1) == 0x80,
        pow128(5) == 0x8_0000_0000,
        pow128(9) == 0x8000_0000_0000_0000,
        pow128(10) == 0x40_0000_0000_0000_0000,
{
    assert(pow128(1) == 128 * pow128(0));
    assert(pow128(2) == 128 * pow128(1));
    assert(pow128(3) == 128 * pow128(2));
    assert(pow128(4) == 128 * pow128(3));
    assert(pow128(5) == 128 * pow128(4));
    assert(pow128(6) == 128 * pow128(5));
    assert(pow128(7) == 128 * pow128(6));
    assert(pow128(8) == 128 * pow128(7));
    assert(pow128(9) == 128 * pow128(8));
    assert(pow128(10) == 128 * pow128(9));
}

/// Reading a string back gives the string that was written, whatever
/// follows it.
pub proof fn lemma_string_roundtrip(s: Seq<char>, rest: Seq<u8>)
    requires
        encode_utf8(s).len() <= 32767,
    ensures
        string_dec(string_enc(s) + rest) == Some((s, string_enc(s).len())),
{
    let b = encode_utf8(s);
    let len = b.len();
    lemma_pow128_values();
    lemma_varint_roundtrip(len, 5, b + rest);
    let all = string_enc(s) + rest;
    assert(all =~= varint_enc(len) + (b + rest));
    let n = varint_enc(len).len();
    assert(all.subrange(n as int, (n + len) as int) =~= b);
    encode_utf8_valid_utf8(s);
    encode_utf8_decode_utf8(s);
}

/// The bytes of a number within `n` bytes read back as its residue.
pub proof fn lemma_be_signed(v: int, n: nat)
    requires
        n >= 1,
        -pow256(n) <= v < pow256(n),
    ensures
        be_bytes(v, n).len() == n,
        be_value(be_bytes(v, n)) == v % (pow256(n) as int),
{
    if v >= 0 {
        lemma_be_roundtrip(v as nat, n);
    } else {
        lemma_be_bytes_shift(v, n, 1);
        lemma_be_roundtrip((v + pow256(n)) as nat, n);
        vstd::arithmetic::div_mod::lemma_mod_add_multiples_vanish(v, pow256(n) as int);
        vstd::arithmetic::div_mod::lemma_small_mod((v + pow256(n)) as nat, pow256(n));
    }
}

/// The value of three big-endian bytes.
pub proof fn lemma_be_value3(s: Seq<u8>)
    requires
        s.len() == 3,
    ensures
        be_value(s) == s[0] as int * 0x1_0000 + s[1] as int * 0x100 + s[2] as int,
{
    let a = s.drop_last();
    let b = a.drop_last();
    let c = b.drop_last();
    assert(c.len() == 0);
    assert(be_value(c) == 0);
    assert(be_value(b) == s[0] as int);
    assert(be_value(a) == s[0] as int * 0x100 + s[1] as int);
}

/// The value of four big-endian bytes.
pub proof fn lemma_be_value4(s: Seq<u8>)
    requires
        s.len() == 4,
    ensures
        be_value(s) == s[0] as int * 0x100_0000 + s[1] as int * 0x1_0000 + s[2] as int * 0x100 + s[3] as int,
{
    lemma_be_value3(s.drop_last());
}

} // verus!
