//! Checking that bytes hold a complete NBT tag before reading them.

use vstd::prelude::*;
use crate::protocol::wire::{be_value, lemma_be_value4, wrap16, wrap32};
use crate::world::nbt::{count_dec, entries_dec, ints_dec, list_dec, name_dec, root_dec, tag_dec};

verus! {

/// The bytes taken by a payload of type `t` at `p`, as `tag_dec` finds it.
pub open spec fn tag_size(s: Seq<u8>, p: int, t: u8) -> Option<nat> {
    match tag_dec(s.skip(p), t) {
        Some((_, n)) => Some(n),
        None => None,
    }
}

/// The bytes taken by `c` payloads of type `t` at `p`.
pub open spec fn list_size(s: Seq<u8>, p: int, t: u8, c: nat) -> Option<nat> {
    match list_dec(s.skip(p), t, c) {
        Some((_, n)) => Some(n),
        None => None,
    }
}

/// The bytes taken by compound entries at `p`, end byte included.
pub open spec fn entries_size(s: Seq<u8>, p: int) -> Option<nat> {
    match entries_dec(s.skip(p)) {
        Some((_, n)) => Some(n),
        None => None,
    }
}

/// `o` with `k` added to the number it holds.
pub open spec fn plus(o: Option<nat>, k: int) -> Option<nat> {
    match o {
        Some(n) => Some((n + k) as nat),
        None => None,
    }
}

proof fn lemma_be_value2(s: Seq<u8>)
    requires
        s.len() == 2,
    ensures
        be_value(s) == s[0] as int * 0x100 + s[1] as int,
{
    let a = s.drop_last();
    assert(a.drop_last().len() == 0);
    assert(be_value(a.drop_last()) == 0);
    assert(be_value(a) == s[0] as int);
}

/// The size of a string at `p`: two length bytes and that many bytes.
fn name_size(s: &[u8], p: usize) -> (r: Option<usize>)
    requires
        p <= s@.len(),
    ensures
        match r {
            Some(k) => name_dec(s@.skip(p as int)) matches Some((_, n)) && n == k && k <= s@.len() - p,
            None => name_dec(s@.skip(p as int)) is None,
        },
{
    let ghost t = s@.skip(p as int);
    if s.len() - p < 2 {
        return None;
    }
    proof {
        assert(t.subrange(0, 2) =~= seq![s@[p as int], s@[p + 1]]);
        lemma_be_value2(t.subrange(0, 2));
    }
    let v: usize = s[p] as usize * 256 + s[p + 1] as usize;
    if v >= 0x8000 {
        assert(wrap16(be_value(t.subrange(0, 2)) as int) < 0);
        return None;
    }
    assert(wrap16(be_value(t.subrange(0, 2)) as int) == v);
    if 2 + v > s.len() - p {
        return None;
    }
    Some(2 + v)
}

/// The count at `p`: four bytes, `None` when negative or missing.
fn count_at(s: &[u8], p: usize) -> (r: Option<u64>)
    requires
        p <= s@.len(),
    ensures
        match count_dec(s@.skip(p as int)) {
            Some(n) => r == Some(n as u64),
            None => r is None,
        },
        r matches Some(n) ==> n < 0x8000_0000,
{
    let ghost t = s@.skip(p as int);
    if s.len() - p < 4 {
        return None;
    }
    proof {
        assert(t.subrange(0, 4) =~= seq![s@[p as int], s@[p + 1], s@[p + 2], s@[p + 3]]);
        lemma_be_value4(t.subrange(0, 4));
    }
    let v: u64 = s[p] as u64 * 0x100_0000 + s[p + 1] as u64 * 0x1_0000 + s[p + 2] as u64 * 0x100 + s[p + 3] as u64;
    if v >= 0x8000_0000 {
        assert(wrap32(be_value(t.subrange(0, 4)) as int) < 0);
        return None;
    }
    assert(wrap32(be_value(t.subrange(0, 4)) as int) == v);
    Some(v)
}

proof fn lemma_ints_dec_some(s: Seq<u8>, count: nat)
    requires
        s.len() >= 4 * count,
    ensures
        ints_dec(s, count) is Some,
    decreases count,
{
    if count > 0 {
        lemma_ints_dec_some(s.skip(4), (count - 1) as nat);
    }
}

proof fn lemma_list_step(s: Seq<u8>, p: int, t: u8, c: nat)
    requires
        0 <= p <= s.len(),
        c > 0,
    ensures
        list_size(s, p, t, c) == match tag_size(s, p, t) {
            Some(n) => if n > s.len() - p {
                None
            } else {
                plus(list_size(s, p + n, t, (c - 1) as nat), n as int)
            },
            None => None,
        },
{
    match tag_dec(s.skip(p), t) {
        Some((_, n)) => {
            if n <= s.len() - p {
                assert(s.skip(p).skip(n as int) =~= s.skip(p + n));
            }
        },
        None => {},
    }
}

proof fn lemma_entries_step(s: Seq<u8>, p: int)
    requires
        0 <= p < s.len(),
        s[p] != 0,
    ensures
        entries_size(s, p) == match name_dec(s.skip(p + 1)) {
            Some((_, m)) => if 1 + m > s.len() - p {
                None
            } else {
                match tag_size(s, p + 1 + m, s[p]) {
                    Some(n) => if 1 + m + n > s.len() - p {
                        None
                    } else {
                        plus(entries_size(s, p + 1 + m + n), (1 + m + n) as int)
                    },
                    None => None,
                }
            },
            None => None,
        },
{
    assert(s.skip(p)[0] == s[p]);
    assert(s.skip(p).skip(1) =~= s.skip(p + 1));
    match name_dec(s.skip(p + 1)) {
        Some((_, m)) => {
            if 1 + m <= s.len() - p {
                assert(s.skip(p).skip((1 + m) as int) =~= s.skip(p + 1 + m));
                match tag_dec(s.skip(p + 1 + m), s[p]) {
                    Some((_, n)) => {
                        if 1 + m + n <= s.len() - p {
                            assert(s.skip(p).skip((1 + m + n) as int) =~= s.skip(p + 1 + m + n));
                        }
                    },
                    None => {},
                }
            }
        },
        None => {},
    }
}

/// The size of a payload of type `t` at `p`; `None` where reading it
/// would run out of input or meet a negative length.
pub fn payload_size(s: &[u8], p: usize, t: u8) -> (r: Option<usize>)
    requires
        p <= s@.len(),
    ensures
        match r {
            Some(k) => tag_size(s@, p as int, t) == Some(k as nat) && k <= s@.len() - p,
            None => tag_size(s@, p as int, t) is None,
        },
    decreases s@.len() - p,
{
    let ghost u = s@.skip(p as int);
    let rem = s.len() - p;
    if t == 1 {
        if rem < 1 { None } else { Some(1) }
    } else if t == 2 {
        if rem < 2 { None } else { Some(2) }
    } else if t == 3 || t == 5 {
        if rem < 4 { None } else { Some(4) }
    } else if t == 4 || t == 6 {
        if rem < 8 { None } else { Some(8) }
    } else if t == 7 {
        match count_at(s, p) {
            Some(n) => if 4 + n > rem as u64 {
                None
            } else {
                Some(4 + n as usize)
            },
            None => None,
        }
    } else if t == 8 {
        name_size(s, p)
    } else if t == 11 {
        match count_at(s, p) {
            Some(n) => if 4 + 4 * n > rem as u64 {
                None
            } else {
                proof {
                    lemma_ints_dec_some(u.skip(4), n as nat);
                }
                Some(4 + 4 * n as usize)
            },
            None => None,
        }
    } else if t == 9 {
        if rem < 5 {
            return None;
        }
        let et = s[p];
        assert(u.skip(1) =~= s@.skip(p + 1));
        let count = match count_at(s, p + 1) {
            Some(c) => c,
            None => return None,
        };
        let start = p + 5;
        assert(u.skip(5) =~= s@.skip(start as int));
        assert(tag_size(s@, p as int, t) == plus(list_size(s@, start as int, et, count as nat), 5));
        let mut q = start;
        let mut i: u64 = 0;
        while i < count
            invariant
                start == p + 5,
                start <= q <= s@.len(),
                t == 9,
                i <= count,
                tag_size(s@, p as int, t) == plus(list_size(s@, start as int, et, count as nat), 5),
                list_size(s@, start as int, et, count as nat) == plus(
                    list_size(s@, q as int, et, (count - i) as nat),
                    q - start,
                ),
            decreases count - i,
        {
            proof {
                lemma_list_step(s@, q as int, et, (count - i) as nat);
            }
            match payload_size(s, q, et) {
                Some(n) => {
                    if n > s.len() - q {
                        return None;
                    }
                    q = q + n;
                },
                None => return None,
            }
            i = i + 1;
        }
        assert(list_size(s@, q as int, et, 0) == Some(0nat));
        Some(q - p)
    } else if t == 10 {
        assert(tag_size(s@, p as int, t) == entries_size(s@, p as int));
        let mut q = p;
        while q < s.len() && s[q] != 0
            invariant
                p <= q <= s@.len(),
                t == 10,
                tag_size(s@, p as int, t) == entries_size(s@, p as int),
                entries_size(s@, p as int) == plus(entries_size(s@, q as int), q - p),
            decreases s@.len() - q,
        {
            proof {
                lemma_entries_step(s@, q as int);
            }
            let m = match name_size(s, q + 1) {
                Some(m) => m,
                None => return None,
            };
            if 1 + m > s.len() - q {
                return None;
            }
            let n = match payload_size(s, q + 1 + m, s[q]) {
                Some(n) => n,
                None => return None,
            };
            if 1 + m + n > s.len() - q {
                return None;
            }
            q = q + 1 + m + n;
        }
        if q >= s.len() {
            assert(entries_size(s@, q as int) is None);
            return None;
        }
        assert(s@.skip(q as int)[0] == 0);
        Some(q + 1 - p)
    } else {
        Some(0)
    }
}

/// Whether bytes begin with a complete named root tag, as reading one
/// needs.
pub fn nbt_root_readable(s: &[u8]) -> (r: bool)
    ensures
        r == root_dec(s@) is Some,
{
    if s.len() < 1 {
        return false;
    }
    assert(s@.skip(1) =~= s@.skip(1));
    let m = match name_size(s, 1) {
        Some(m) => m,
        None => return false,
    };
    if 1 + m > s.len() {
        return false;
    }
    match payload_size(s, 1 + m, s[0]) {
        Some(_) => true,
        None => false,
    }
}

} // verus!
