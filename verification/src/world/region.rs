//! Region files: 1024 chunks in 4096-byte sectors, found through a header
//! of sector offsets and counts, with a table of timestamps after it.

use vstd::prelude::*;
use std::collections::HashSet;
use std::path::{Path, PathBuf};
use crate::protocol::wire::{be_bytes, be_value, lemma_be_bytes_len, lemma_be_roundtrip, lemma_be_value3, lemma_be_value4, lemma_pow256_values, pow256};
use crate::protocol::writer::push_be;
use crate::text::{digit_char, digits, int_text, push_char, push_decimal, push_str};
use crate::paths::{path_buf_parts, path_parts, plain_char, single_component};
use vstd::slice::{slice_subrange, slice_to_vec};
use vstd::arithmetic::div_mod::lemma_mod_multiples_vanish;
use crate::world::compression::{zlib_compress, zlib_compressed, zlib_decompress, zlib_decompressed};

verus! {

#[verifier::external_type_specification]
#[verifier::external_body]
pub struct ExPath(Path);

#[verifier::external_type_specification]
#[verifier::external_body]
pub struct ExPathBuf(PathBuf);

/// `Path::join`: a path with one more component. Joining a name that is a
/// single normal component adds it after the base's components.
#[verifier::external_body]
fn join_path(base: &Path, part: &str) -> (r: PathBuf)
    ensures
        single_component(part@) ==> path_buf_parts(&r) == path_parts(base).push(part@),
{
    base.join(part)
}

/// `Path::join` on the path a `PathBuf` holds: a path with one more
/// component. Joining a name that is a single normal component adds it
/// after the base's components.
#[verifier::external_body]
fn join_path_buf(base: &PathBuf, part: &str) -> (r: PathBuf)
    ensures
        single_component(part@) ==> path_buf_parts(&r) == path_buf_parts(base).push(part@),
{
    base.join(part)
}

/// A region file of a world: its path, `<world_dir>/region/<file_name>`,
/// and its file name.
pub struct RegionFile {
    pub path: PathBuf,
    pub file_name: String,
}

/// Byte offset of a chunk's entry in the header: its position within the
/// 32 by 32 region, four bytes an entry.
pub open spec fn header_offset(cx: i32, cz: i32) -> int {
    ((cx as int % 32) + (cz as int % 32) * 32) * 4
}

/// The first sector of header entry `i`: three bytes, big-endian.
pub open spec fn entry_sector(d: Seq<u8>, i: int) -> int {
    d[4 * i] as int * 65536 + d[4 * i + 1] as int * 256 + d[4 * i + 2] as int
}

/// The sector count of header entry `i`.
pub open spec fn entry_count(d: Seq<u8>, i: int) -> int {
    d[4 * i + 3] as int
}

/// The sectors that header entry `i` holds: none unless its first sector is
/// past the header and its count is positive.
pub open spec fn entry_sectors(d: Seq<u8>, i: int) -> Set<usize> {
    Set::new(
        |s: usize|
            entry_sector(d, i) >= 2 && entry_count(d, i) > 0 && entry_sector(d, i) <= s < entry_sector(d, i)
                + entry_count(d, i),
    )
}

/// The sectors held by the first `k` header entries, other than entry
/// `this`.
pub open spec fn used_upto(d: Seq<u8>, this: int, k: int) -> Set<usize>
    decreases k,
{
    if k <= 0 {
        Set::empty()
    } else if k - 1 == this {
        used_upto(d, this, k - 1)
    } else {
        used_upto(d, this, k - 1).union(entry_sectors(d, k - 1))
    }
}

/// The sectors of all stored chunks other than entry `this`.
pub open spec fn used_by_others(d: Seq<u8>, this: int) -> Set<usize> {
    used_upto(d, this, 1024)
}

/// The first used sector in `s..end`.
pub open spec fn first_used(used: Set<usize>, s: int, end: int) -> Option<int>
    decreases end - s,
{
    if s >= end {
        None
    } else if used.contains(s as usize) {
        Some(s)
    } else {
        first_used(used, s + 1, end)
    }
}

/// Where a run of `count` free sectors is looked for from `start`: the
/// start itself when the run is free or the search reached `limit`,
/// otherwise the search goes on after the first used sector of the run.
pub open spec fn fit_from(used: Set<usize>, count: int, limit: int, start: int) -> int
    decreases if start < limit { limit - start } else { 0 },
{
    if start >= limit {
        start
    } else {
        match first_used(used, start, start + count) {
            None => start,
            Some(s) => if s + 1 > start {
                fit_from(used, count, limit, s + 1)
            } else {
                start
            },
        }
    }
}

/// Whether the `count` sectors from `r` are all free.
pub open spec fn run_free(used: Set<usize>, r: int, count: int) -> bool {
    forall|j: usize| r <= j < r + count ==> !used.contains(j)
}

/// What `first_used` finds: the lowest used sector of the range, or none.
proof fn lemma_first_used(used: Set<usize>, s: int, end: int)
    ensures
        match first_used(used, s, end) {
            Some(k) => s <= k < end && used.contains(k as usize) && forall|j: usize|
                s <= j < k ==> !used.contains(j),
            None => forall|j: usize| s <= j < end ==> !used.contains(j),
        },
    decreases end - s,
{
    if s < end {
        lemma_first_used(used, s + 1, end);
    }
}

/// The search for free sectors finds the lowest run of `count` free
/// sectors from `start`: no run that begins before the result is free, and
/// the result is free unless the search reached `limit`.
pub proof fn law_fit_is_lowest_free_run(used: Set<usize>, count: int, limit: int, start: int)
    requires
        count >= 1,
        start >= 0,
        limit + count <= usize::MAX,
    ensures
        fit_from(used, count, limit, start) >= start,
        fit_from(used, count, limit, start) < limit ==> run_free(
            used,
            fit_from(used, count, limit, start),
            count,
        ),
        forall|q: int| start <= q < fit_from(used, count, limit, start) ==> !#[trigger] run_free(used, q, count),
    decreases if start < limit { limit - start } else { 0 },
{
    if start < limit {
        lemma_first_used(used, start, start + count);
        match first_used(used, start, start + count) {
            None => {},
            Some(s) => {
                law_fit_is_lowest_free_run(used, count, limit, s + 1);
                let r = fit_from(used, count, limit, s + 1);
                assert forall|q: int| start <= q < r implies !run_free(used, q, count) by {
                    if q <= s && run_free(used, q, count) {
                        assert(!used.contains(s as usize));
                    }
                }
            },
        }
    }
}

/// Whether every byte is zero.
pub open spec fn all_zero(s: Seq<u8>) -> bool {
    forall|i: int| 0 <= i < s.len() ==> s[i] == 0
}

/// Where a file ends once trailing 4096-byte blocks of zeros are dropped,
/// counting back from `end` for as long as the end lies past byte 8192.
pub open spec fn trimmed_len(d: Seq<u8>, end: int) -> int
    decreases end,
{
    if end > 8192 && end <= d.len() && all_zero(d.subrange(end - 4096, end)) {
        trimmed_len(d, end - 4096)
    } else {
        end
    }
}

/// `n` zero bytes.
pub open spec fn zeros(n: int) -> Seq<u8> {
    Seq::new(n as nat, |i: int| 0u8)
}

/// `d` grown with zeros to at least `n` bytes.
pub open spec fn padded(d: Seq<u8>, n: int) -> Seq<u8> {
    if d.len() < n {
        d + zeros(n - d.len())
    } else {
        d
    }
}

/// `d` with `bytes` written at `at`.
pub open spec fn overwrite(d: Seq<u8>, at: int, bytes: Seq<u8>) -> Seq<u8> {
    d.subrange(0, at) + bytes + d.subrange(at + bytes.len(), d.len() as int)
}

/// Sectors taken by a chunk of `payload_len` bytes after its 4-byte length.
pub open spec fn sectors_for(payload_len: int) -> int {
    (payload_len + 4 + 4095) / 4096
}

/// How a chunk is stored in its sectors: the payload length (compressed
/// size plus one), the compression type 2 for zlib, the compressed bytes,
/// and zeros to the end of the last sector.
pub open spec fn chunk_record(c: Seq<u8>, n: int) -> Seq<u8> {
    be_bytes(c.len() + 1 as int, 4) + seq![2u8] + c + zeros(n * 4096 - (c.len() + 5))
}

/// The region file bytes after storing the compressed chunk `c` at
/// (`cx`, `cz`) with timestamp `ts`: the header is padded to 8192 bytes,
/// the chunk goes to the first run of free sectors from sector 2 (its old
/// sectors are not counted as used), its old sectors are zeroed, its header
/// entry and timestamp are updated, and trailing zero sectors are dropped.
pub open spec fn region_after_write(d: Seq<u8>, cx: i32, cz: i32, c: Seq<u8>, ts: u32) -> Seq<u8> {
    let d0 = padded(d, 8192);
    let n = sectors_for(c.len() + 1 as int);
    let h = header_offset(cx, cz);
    let this = h / 4;
    let old_off = entry_sector(d0, this);
    let old_cnt = entry_count(d0, this);
    let total = if d0.len() / 4096 > 2 { d0.len() / 4096 } else { 2 };
    let r = fit_from(used_by_others(d0, this), n, total + n + 1, 2);
    let d1 = padded(d0, (r + n) * 4096);
    let d2 = if old_off >= 2 && old_cnt > 0 && (old_off + old_cnt) * 4096 <= d1.len() {
        overwrite(d1, old_off * 4096, zeros(old_cnt * 4096))
    } else {
        d1
    };
    let d3 = overwrite(d2, r * 4096, chunk_record(c, n));
    let d4 = overwrite(d3, h, be_bytes(r, 3) + seq![(n % 256) as u8]);
    let d5 = overwrite(d4, h + 4096, be_bytes(ts as int, 4));
    d5.subrange(0, trimmed_len(d5, d5.len() as int))
}

/// The compressed bytes of a chunk as a reader finds them: the header
/// entry's sector, the length there, compression type 2. `None` when the
/// file is shorter than its header, the chunk is absent, the record runs
/// past the file, or the compression is not zlib.
pub open spec fn chunk_payload(d: Seq<u8>, cx: i32, cz: i32) -> Option<Seq<u8>> {
    if d.len() < 8192 {
        None
    } else {
        let h = header_offset(cx, cz);
        let off = entry_sector(d, h / 4);
        if off < 2 {
            None
        } else {
            let bo = off * 4096;
            if bo + 5 > d.len() {
                None
            } else {
                let length = be_value(d.subrange(bo, bo + 4)) as int;
                if bo + 5 + length - 1 > d.len() {
                    None
                } else if d[bo + 4] != 2 {
                    None
                } else {
                    Some(d.subrange(bo + 5, bo + 5 + length - 1))
                }
            }
        }
    }
}

/// A record whose length field is 0 cannot be sliced; such files are not
/// read.
pub open spec fn chunk_readable(d: Seq<u8>, cx: i32, cz: i32) -> bool {
    d.len() >= 8192 && entry_sector(d, header_offset(cx, cz) / 4) >= 2 && entry_sector(d, header_offset(cx, cz) / 4)
        * 4096 + 5 <= d.len() ==> be_value(
        d.subrange(
            entry_sector(d, header_offset(cx, cz) / 4) * 4096,
            entry_sector(d, header_offset(cx, cz) / 4) * 4096 + 4,
        ),
    ) != 0
}

proof fn lemma_header_offset(cx: i32, cz: i32)
    ensures
        0 <= header_offset(cx, cz) && header_offset(cx, cz) + 4 <= 4096,
        header_offset(cx, cz) % 4 == 0,
{
    assert(0 <= cx as int % 32 < 32);
    assert(0 <= cz as int % 32 < 32);
}

/// Computes `header_offset`.
fn chunk_header_offset(cx: i32, cz: i32) -> (h: usize)
    ensures
        h == header_offset(cx, cz),
        h + 4 <= 4096,
        h % 4 == 0,
{
    proof { lemma_header_offset(cx, cz); }
    let lx = ((cx as i64 + 0x8000_0000) as u64 % 32) as usize;
    let lz = ((cz as i64 + 0x8000_0000) as u64 % 32) as usize;
    assert(lx == cx as int % 32 && lz == cz as int % 32) by {
        lemma_mod_multiples_vanish(0x400_0000, cx as int, 32);
        lemma_mod_multiples_vanish(0x400_0000, cz as int, 32);
    }
    (lx + lz * 32) * 4
}

/// Grows `v` with zeros to at least `n` bytes.
fn pad_with_zeros(v: &mut Vec<u8>, n: usize)
    ensures
        final(v)@ == padded(old(v)@, n as int),
{
    if v.len() < n {
        let ghost d = v@;
        v.resize(n, 0);
        assert forall|i: int| d.len() <= i < n implies v@[i] == 0u8 by {
            assert(cloned::<u8>(0u8, v@[i]));
        }
        assert(v@ =~= d + zeros(n - d.len()));
    }
}

/// Sets the bytes `from..to` of `v` to zero.
fn zero_range(v: &mut Vec<u8>, from: usize, to: usize)
    requires
        from <= to <= old(v).len(),
    ensures
        final(v)@ == overwrite(old(v)@, from as int, zeros(to - from)),
{
    let ghost d = v@;
    let mut i = from;
    while i < to
        invariant
            from <= i <= to,
            to <= d.len(),
            v@.len() == d.len(),
            forall|j: int| 0 <= j < d.len() ==> v@[j] == (if from <= j < i { 0u8 } else { d[j] }),
        decreases to - i,
    {
        v.set(i, 0);
        i = i + 1;
    }
    assert(v@ =~= overwrite(d, from as int, zeros(to - from)));
}

/// Copies `bytes` into `v` from index `at` on.
fn write_at(v: &mut Vec<u8>, at: usize, bytes: &[u8])
    requires
        at + bytes.len() <= old(v).len(),
    ensures
        final(v)@ == overwrite(old(v)@, at as int, bytes@),
{
    let ghost d = v@;
    let mut i: usize = 0;
    while i < bytes.len()
        invariant
            i <= bytes.len(),
            at + bytes.len() <= d.len(),
            at + bytes.len() <= v.len(),
            v@.len() == d.len(),
            forall|j: int|
                0 <= j < d.len() ==> v@[j] == (if at <= j < at + i { bytes@[j - at] } else { d[j] }),
        decreases bytes.len() - i,
    {
        v.set(at + i, bytes[i]);
        i = i + 1;
    }
    assert(v@ =~= overwrite(d, at as int, bytes@));
}

/// The bytes of a stored chunk, `n` sectors long.
fn chunk_record_bytes(compressed: &[u8], n: usize) -> (r: Vec<u8>)
    requires
        compressed.len() + 5 <= n * 4096,
        n * 4096 <= usize::MAX,
        compressed.len() + 1 < 0x1_0000_0000,
    ensures
        r@ == chunk_record(compressed@, n as int),
        r@.len() == n * 4096,
{
    let mut r: Vec<u8> = Vec::new();
    push_be(&mut r, (compressed.len() + 1) as u64, 4);
    r.push(2);
    r.extend_from_slice(compressed);
    let ghost head = r@;
    pad_with_zeros(&mut r, n * 4096);
    proof {
        lemma_be_bytes_len(compressed.len() + 1 as int, 4);
    }
    assert(r@ =~= chunk_record(compressed@, n as int));
    r
}

/// The first sector of header entry `i`, and its count.
fn read_entry(d: &[u8], i: usize) -> (r: (usize, usize))
    requires
        i < 1024,
        d.len() >= 4096,
    ensures
        r.0 == entry_sector(d@, i as int),
        r.1 == entry_count(d@, i as int),
        r.0 < 0x100_0000,
{
    let ho = i * 4;
    let off = d[ho] as usize * 65536 + d[ho + 1] as usize * 256 + d[ho + 2] as usize;
    (off, d[ho + 3] as usize)
}

/// The sectors held by stored chunks other than the one at entry `this`.
fn used_sectors(d: &[u8], this: usize) -> (used: HashSet<usize>)
    requires
        d.len() >= 4096,
    ensures
        used@ == used_by_others(d@, this as int),
{
    broadcast use vstd::std_specs::hash::group_hash_axioms;
    let mut used: HashSet<usize> = HashSet::new();
    let mut i: usize = 0;
    while i < 1024
        invariant
            i <= 1024,
            d.len() >= 4096,
            used@ == used_upto(d@, this as int, i as int),
        decreases 1024 - i,
    {
        let (off, cnt) = read_entry(d, i);
        if i != this && off >= 2 && cnt > 0 {
            let ghost before = used@;
            let mut s = off;
            while s < off + cnt
                invariant
                    off <= s <= off + cnt,
                    off >= 2,
                    cnt > 0,
                    off == entry_sector(d@, i as int),
                    cnt == entry_count(d@, i as int),
                    used@ == before.union(Set::new(|x: usize| off <= x < s)),
                decreases off + cnt - s,
            {
                used.insert(s);
                assert(used@ =~= before.union(Set::new(|x: usize| off <= x < s + 1)));
                s = s + 1;
            }
            assert(used@ =~= used_upto(d@, this as int, i + 1));
        } else {
            assert(used@ =~= used_upto(d@, this as int, i + 1));
        }
        i = i + 1;
    }
    used
}

proof fn lemma_first_used_range(used: Set<usize>, s: int, end: int)
    ensures
        first_used(used, s, end) matches Some(k) ==> s <= k < end && used.contains(k as usize),
    decreases end - s,
{
    if s < end && !used.contains(s as usize) {
        lemma_first_used_range(used, s + 1, end);
    }
}

proof fn lemma_fit_from_range(used: Set<usize>, count: int, limit: int, start: int)
    requires
        count >= 1,
    ensures
        start <= fit_from(used, count, limit, start),
        fit_from(used, count, limit, start) <= start || fit_from(used, count, limit, start) <= limit + count - 1,
    decreases if start < limit { limit - start } else { 0 },
{
    if start < limit {
        lemma_first_used_range(used, start, start + count);
        if let Some(s) = first_used(used, start, start + count) {
            lemma_fit_from_range(used, count, limit, s + 1);
        }
    }
}

/// The first sector of `start..end` that `used` holds.
fn first_used_in(used: &HashSet<usize>, start: usize, end: usize) -> (r: Option<usize>)
    ensures
        r matches Some(s) ==> first_used(used@, start as int, end as int) == Some(s as int),
        r is None ==> first_used(used@, start as int, end as int) is None,
{
    broadcast use vstd::std_specs::hash::group_hash_axioms;
    let mut s = start;
    while s < end
        invariant
            first_used(used@, start as int, end as int) == first_used(used@, s as int, end as int),
        decreases end - s,
    {
        if used.contains(&s) {
            return Some(s);
        }
        s = s + 1;
    }
    None
}

/// Whether the bytes `from..to` are all zero.
fn all_zero_range(data: &[u8], from: usize, to: usize) -> (r: bool)
    requires
        from <= to <= data.len(),
    ensures
        r == all_zero(data@.subrange(from as int, to as int)),
{
    let mut i = from;
    while i < to
        invariant
            from <= i <= to <= data.len(),
            all_zero(data@.subrange(from as int, i as int)),
        decreases to - i,
    {
        if data[i] != 0 {
            assert(data@.subrange(from as int, to as int)[i - from] != 0);
            return false;
        }
        i = i + 1;
    }
    true
}

impl RegionFile {
    /// The first sector from 2 on where `count` free sectors follow, or
    /// the end of the search when none were found before it.
    fn find_free_sectors(&self, used: &HashSet<usize>, count: usize, current_total: usize) -> (r: usize)
        requires
            count >= 1,
            current_total + 2 * count + 4 <= usize::MAX,
        ensures
            r == fit_from(used@, count as int, current_total + count + 1, 2),
    {
        let search_limit = current_total + count + 1;
        let mut start: usize = 2;
        loop
            invariant
                count >= 1,
                search_limit == current_total + count + 1,
                search_limit + count + 2 <= usize::MAX,
                start <= search_limit + count + 1,
                fit_from(used@, count as int, search_limit as int, start as int) == fit_from(
                    used@,
                    count as int,
                    search_limit as int,
                    2,
                ),
            decreases if start < search_limit { search_limit - start } else { 0 },
        {
            if start >= search_limit {
                return start;
            }
            match first_used_in(used, start, start + count) {
                None => {
                    return start;
                },
                Some(s) => {
                    proof {
                        lemma_first_used_range(used@, start as int, start + count);
                    }
                    start = s + 1;
                },
            }
        }
    }

    /// `data` without its trailing 4096-byte blocks of zeros, for as long
    /// as the end lies past byte 8192.
    fn trim_trailing_empty_sectors<'a>(&self, data: &'a [u8]) -> (r: &'a [u8])
        ensures
            r@ == data@.subrange(0, trimmed_len(data@, data@.len() as int)),
    {
        let mut end = data.len();
        while end > 8192
            invariant
                end <= data.len(),
                trimmed_len(data@, end as int) == trimmed_len(data@, data@.len() as int),
            ensures
                trimmed_len(data@, end as int) == end,
            decreases end,
        {
            let sector_start = end - 4096;
            if all_zero_range(data, sector_start, end) {
                end = sector_start;
            } else {
                break;
            }
        }
        slice_subrange(data, 0, end)
    }
}

impl RegionFile {
    /// The region file bytes after storing the compressed chunk at
    /// (`chunk_x`, `chunk_z`) with the given timestamp.
    #[verifier::rlimit(40)]
    #[verifier::spinoff_prover]
    pub fn place_chunk(
        &self,
        file_data: Vec<u8>,
        chunk_x: i32,
        chunk_z: i32,
        compressed: &[u8],
        timestamp: u32,
    ) -> (r: Vec<u8>)
        requires
            file_data.len() <= 0x4000_0000,
            compressed.len() <= 0x1000_0000,
        ensures
            r@ == region_after_write(file_data@, chunk_x, chunk_z, compressed@, timestamp),
    {
        let ghost d = file_data@;
        let mut data = file_data;
        pad_with_zeros(&mut data, 8192);
        let ghost d0 = data@;
        let chunk_payload_len = compressed.len() + 1;
        let total_len = chunk_payload_len + 4;
        let sectors_needed = (total_len + 4095) / 4096;
        let h = chunk_header_offset(chunk_x, chunk_z);
        let this = h / 4;
        let (old_offset, old_sectors) = read_entry(&data, this);
        let used = used_sectors(&data, this);
        let total = if data.len() / 4096 > 2 {
            data.len() / 4096
        } else {
            2
        };
        let sector_offset = self.find_free_sectors(&used, sectors_needed, total);
        proof {
            lemma_fit_from_range(used@, sectors_needed as int, total + sectors_needed + 1, 2);
        }
        let required_len = (sector_offset + sectors_needed) * 4096;
        pad_with_zeros(&mut data, required_len);
        let ghost d1 = data@;
        if old_offset >= 2 && old_sectors > 0 {
            let old_end: u64 = (old_offset as u64 + old_sectors as u64) * 4096;
            if old_end <= data.len() as u64 {
                zero_range(&mut data, old_offset * 4096, (old_offset + old_sectors) * 4096);
            }
        }
        let ghost d2 = data@;
        let record = chunk_record_bytes(compressed, sectors_needed);
        write_at(&mut data, sector_offset * 4096, record.as_slice());
        let ghost d3 = data@;
        let mut entry: Vec<u8> = Vec::new();
        push_be(&mut entry, sector_offset as u64, 3);
        entry.push((sectors_needed % 256) as u8);
        proof {
            lemma_be_bytes_len(sector_offset as int, 3);
        }
        assert(entry@ =~= be_bytes(sector_offset as int, 3) + seq![(sectors_needed % 256) as u8]);
        write_at(&mut data, h, entry.as_slice());
        let ghost d4 = data@;
        let mut stamp: Vec<u8> = Vec::new();
        push_be(&mut stamp, timestamp as u64, 4);
        proof {
            lemma_be_bytes_len(timestamp as int, 4);
        }
        write_at(&mut data, h + 4096, stamp.as_slice());
        let ghost d5 = data@;
        assert(stamp@ =~= be_bytes(timestamp as int, 4));
        assert(d3 == overwrite(d2, sector_offset * 4096, chunk_record(compressed@, sectors_needed as int)));
        assert(d5 == overwrite(d4, h + 4096, be_bytes(timestamp as int, 4)));
        let trimmed = self.trim_trailing_empty_sectors(data.as_slice());
        slice_to_vec(trimmed)
    }
}

/// The name of the file of region (`x`, `z`): `r.<x>.<z>.mca`.
pub open spec fn region_file_name(x: i32, z: i32) -> Seq<char> {
    seq!['r', '.'] + int_text(x as int) + seq!['.'] + int_text(z as int) + seq!['.', 'm', 'c', 'a']
}

/// Decimal digits are plain characters.
proof fn lemma_digits_plain(n: nat)
    ensures
        forall|i: int| 0 <= i < digits(n).len() ==> plain_char(#[trigger] digits(n)[i]),
    decreases n,
{
    if n < 10 {
        assert(digits(n)[0] == digit_char(n));
        assert(('0' as u32) <= (digit_char(n) as u32) <= ('9' as u32));
    } else {
        lemma_digits_plain(n / 10);
        let d = (n % 10) as nat;
        assert(('0' as u32) <= (digit_char(d) as u32) <= ('9' as u32));
        assert forall|i: int| 0 <= i < digits(n).len() implies plain_char(#[trigger] digits(n)[i]) by {
            if i < digits(n / 10).len() {
                assert(digits(n)[i] == digits(n / 10)[i]);
            } else {
                assert(digits(n)[i] == digit_char(d));
            }
        }
    }
}

/// A region file name is a single path component.
proof fn lemma_region_file_name_component(x: i32, z: i32)
    ensures
        single_component(region_file_name(x, z)),
{
    lemma_digits_plain(if x < 0 { (-x) as nat } else { x as nat });
    lemma_digits_plain(if z < 0 { (-z) as nat } else { z as nat });
    let t = region_file_name(x, z);
    let a = int_text(x as int);
    let b = int_text(z as int);
    assert forall|i: int| 0 <= i < a.len() implies plain_char(#[trigger] a[i]) by {
        if x < 0 {
            if i > 0 {
                assert(a[i] == digits((-x) as nat)[i - 1]);
            }
        }
    }
    assert forall|i: int| 0 <= i < b.len() implies plain_char(#[trigger] b[i]) by {
        if z < 0 {
            if i > 0 {
                assert(b[i] == digits((-z) as nat)[i - 1]);
            }
        }
    }
    assert forall|i: int| 0 <= i < t.len() implies plain_char(#[trigger] t[i]) || t[i] == '.' by {
        if 2 <= i < 2 + a.len() {
            assert(t[i] == a[i - 2]);
        } else if 3 + a.len() <= i < 3 + a.len() + b.len() {
            assert(t[i] == b[i - 3 - a.len()]);
        }
    }
    assert(t.len() > 2);
}

/// What a reader gives back for a chunk: the decompressed bytes of its
/// record, `None` when the record is absent or not a zlib stream.
pub open spec fn chunk_read(d: Seq<u8>, cx: i32, cz: i32) -> Option<Seq<u8>> {
    match chunk_payload(d, cx, cz) {
        Some(c) => zlib_decompressed(c),
        None => None,
    }
}

impl RegionFile {
    /// The file name of region (`region_x`, `region_z`).
    pub fn file_name(region_x: i32, region_z: i32) -> (name: String)
        ensures
            name@ == region_file_name(region_x, region_z),
    {
        let mut name = String::new();
        push_str(&mut name, "r.");
        push_decimal(&mut name, region_x as i64);
        push_char(&mut name, '.');
        push_decimal(&mut name, region_z as i64);
        push_str(&mut name, ".mca");
        proof {
            reveal_strlit("r.");
            reveal_strlit(".mca");
        }
        assert(name@ =~= region_file_name(region_x, region_z));
        name
    }

    /// The region file (`region_x`, `region_z`) of the world in `world_dir`,
    /// at `<world_dir>/region/r.<x>.<z>.mca`: the path joins the directory
    /// `region` and the file name to `world_dir`; the file name is stated.
    /// Nothing is read or created.
    pub fn new(world_dir: &Path, region_x: i32, region_z: i32) -> (r: Self)
        ensures
            r.file_name@ == region_file_name(region_x, region_z),
            path_buf_parts(&r.path) == path_parts(world_dir).push("region"@).push(
                region_file_name(region_x, region_z),
            ),
    {
        let name = RegionFile::file_name(region_x, region_z);
        proof {
            reveal_strlit("region");
            assert("region"@[0] == 'r');
            lemma_region_file_name_component(region_x, region_z);
        }
        let dir = join_path(world_dir, "region");
        let path = join_path_buf(&dir, name.as_str());
        RegionFile { path, file_name: name }
    }

    /// Whether the record of a chunk can be cut out of the file bytes: a
    /// record whose length field is 0 cannot.
    pub fn record_is_sliceable(data: &[u8], chunk_x: i32, chunk_z: i32) -> (r: bool)
        ensures
            r == chunk_readable(data@, chunk_x, chunk_z),
    {
        if data.len() < 8192 {
            return true;
        }
        let h = chunk_header_offset(chunk_x, chunk_z);
        let (offset, _count) = read_entry(data, h / 4);
        if offset < 2 {
            return true;
        }
        if offset as u64 * 4096 + 5 > data.len() as u64 {
            return true;
        }
        let length = read_u32_be(data, offset * 4096);
        length != 0
    }

    /// The decompressed bytes of the chunk at (`chunk_x`, `chunk_z`) in the
    /// bytes of a region file.
    pub fn chunk_from_bytes(data: &[u8], chunk_x: i32, chunk_z: i32) -> (r: Option<Vec<u8>>)
        requires
            chunk_readable(data@, chunk_x, chunk_z),
        ensures
            r is Some <==> chunk_read(data@, chunk_x, chunk_z) is Some,
            r matches Some(v) ==> chunk_read(data@, chunk_x, chunk_z) == Some(v@),
    {
        if data.len() < 8192 {
            return None;
        }
        let h = chunk_header_offset(chunk_x, chunk_z);
        let (offset, _count) = read_entry(data, h / 4);
        if offset < 2 {
            return None;
        }
        if offset as u64 * 4096 + 5 > data.len() as u64 {
            return None;
        }
        let byte_offset = offset * 4096;
        let length = read_u32_be(data, byte_offset);
        let compression = data[byte_offset + 4];
        if byte_offset as u64 + 5 + length as u64 - 1 > data.len() as u64 {
            return None;
        }
        let length = length as usize;
        if compression != 2 {
            return None;
        }
        let compressed = slice_subrange(data, byte_offset + 5, byte_offset + 4 + length);
        zlib_decompress(compressed)
    }

    /// The region file bytes after compressing `nbt_data` with zlib and
    /// storing it at (`chunk_x`, `chunk_z`) with the given timestamp; `None`
    /// when the file holds more than 2^30 bytes or the compressed chunk more
    /// than 2^28, sizes past which the offsets are not computed. The chunk
    /// reads back when its compressed bytes end in a non-zero byte, or when
    /// the file is a whole number of sectors and the record's last sector
    /// holds a non-zero byte.
    pub fn write_chunk_bytes(
        &self,
        file_data: Vec<u8>,
        chunk_x: i32,
        chunk_z: i32,
        nbt_data: &[u8],
        timestamp: u32,
    ) -> (r: Option<Vec<u8>>)
        ensures
            r is Some <==> file_data@.len() <= 0x4000_0000 && zlib_compressed(nbt_data@).len() <= 0x1000_0000,
            r matches Some(out) ==> out@ == region_after_write(
                file_data@,
                chunk_x,
                chunk_z,
                zlib_compressed(nbt_data@),
                timestamp,
            ),
            r matches Some(out) ==> zlib_compressed(nbt_data@).len() > 0 && zlib_compressed(nbt_data@).last() != 0
                ==> chunk_read(out@, chunk_x, chunk_z) == Some(nbt_data@),
            r matches Some(out) ==> file_data@.len() % 4096 == 0 && last_sector_has_data(zlib_compressed(nbt_data@))
                ==> chunk_read(out@, chunk_x, chunk_z) == Some(nbt_data@),
    {
        let compressed = zlib_compress(nbt_data);
        if file_data.len() > 0x4000_0000 || compressed.len() > 0x1000_0000 {
            return None;
        }
        let ghost d = file_data@;
        let out = self.place_chunk(file_data, chunk_x, chunk_z, compressed.as_slice(), timestamp);
        proof {
            if compressed@.len() > 0 && compressed@.last() != 0 {
                law_region_read_after_write(d, chunk_x, chunk_z, compressed@, timestamp);
            }
            if d.len() % 4096 == 0 && last_sector_has_data(compressed@) {
                law_region_read_after_write_aligned(d, chunk_x, chunk_z, compressed@, timestamp);
            }
        }
        Some(out)
    }
}

/// Reads four bytes at `at` as a big-endian number.
fn read_u32_be(data: &[u8], at: usize) -> (r: u32)
    requires
        at + 4 <= data.len(),
    ensures
        r == be_value(data@.subrange(at as int, at + 4)),
{
    proof {
        lemma_be_value4(data@.subrange(at as int, at + 4));
    }
    data[at] as u32 * 0x100_0000 + data[at + 1] as u32 * 0x1_0000 + data[at + 2] as u32 * 0x100 + data[at + 3] as u32
}

proof fn lemma_overwrite(d: Seq<u8>, at: int, b: Seq<u8>)
    requires
        0 <= at,
        at + b.len() <= d.len(),
    ensures
        overwrite(d, at, b).len() == d.len(),
        forall|i: int|
            0 <= i < d.len() ==> #[trigger] overwrite(d, at, b)[i] == (if at <= i < at + b.len() {
                b[i - at]
            } else {
                d[i]
            }),
{
}

proof fn lemma_padded(d: Seq<u8>, n: int)
    ensures
        padded(d, n).len() >= d.len(),
        padded(d, n).len() >= n,
        padded(d, n).len() == d.len() || padded(d, n).len() == n,
        forall|i: int| 0 <= i < d.len() ==> #[trigger] padded(d, n)[i] == d[i],
{
}

proof fn lemma_trim_keeps(d: Seq<u8>, end: int, k: int)
    requires
        end <= d.len(),
        0 <= k < end,
        d[k] != 0,
    ensures
        k < trimmed_len(d, end) <= end,
    decreases end,
{
    if end > 8192 && end <= d.len() && all_zero(d.subrange(end - 4096, end)) {
        if k >= end - 4096 {
            assert(d.subrange(end - 4096, end)[k - (end - 4096)] == d[k]);
        }
        lemma_trim_keeps(d, end - 4096, k);
    }
}

proof fn lemma_be3(r: int)
    requires
        0 <= r < 0x100_0000,
    ensures
        be_bytes(r, 3).len() == 3,
        be_bytes(r, 3)[0] as int * 65536 + be_bytes(r, 3)[1] as int * 256 + be_bytes(r, 3)[2] as int == r,
{
    lemma_be_roundtrip(r as nat, 3);
    lemma_pow256_values();
    assert(pow256(3) == 0x100_0000) by {
        assert(pow256(3) == 256 * pow256(2));
    }
    lemma_be_value3(be_bytes(r, 3));
}

/// Reading back a chunk just written gives its compressed bytes, provided
/// the last of them is not zero (a record whose last sector is all zeros is
/// cut off with the trailing empty sectors).
#[verifier::rlimit(100)]
#[verifier::spinoff_prover]
pub proof fn law_region_read_after_write(d: Seq<u8>, cx: i32, cz: i32, c: Seq<u8>, ts: u32)
    requires
        d.len() <= 0x4000_0000,
        c.len() <= 0x1000_0000,
        c.len() > 0,
        c.last() != 0,
    ensures
        chunk_payload(region_after_write(d, cx, cz, c, ts), cx, cz) == Some(c),
        chunk_readable(region_after_write(d, cx, cz, c, ts), cx, cz),
        entry_count(region_after_write(d, cx, cz, c, ts), header_offset(cx, cz) / 4) == sectors_for(c.len() + 1 as int)
            % 256,
        entry_sector(region_after_write(d, cx, cz, c, ts), header_offset(cx, cz) / 4) == write_sector(d, cx, cz, c),
{
    let d0 = padded(d, 8192);
    let n = sectors_for(c.len() + 1 as int);
    let h = header_offset(cx, cz);
    let this = h / 4;
    let old_off = entry_sector(d0, this);
    let old_cnt = entry_count(d0, this);
    let total = if d0.len() / 4096 > 2 { d0.len() / 4096 } else { 2 };
    let used = used_by_others(d0, this);
    let r = fit_from(used, n, total + n + 1, 2);
    let d1 = padded(d0, (r + n) * 4096);
    let d2 = if old_off >= 2 && old_cnt > 0 && (old_off + old_cnt) * 4096 <= d1.len() {
        overwrite(d1, old_off * 4096, zeros(old_cnt * 4096))
    } else {
        d1
    };
    let rec = chunk_record(c, n);
    let d3 = overwrite(d2, r * 4096, rec);
    let e = be_bytes(r, 3) + seq![(n % 256) as u8];
    let d4 = overwrite(d3, h, e);
    let t = be_bytes(ts as int, 4);
    let d5 = overwrite(d4, h + 4096, t);
    let len_field = be_bytes(c.len() + 1 as int, 4);
    assert(region_after_write(d, cx, cz, c, ts) == d5.subrange(0, trimmed_len(d5, d5.len() as int)));
    lemma_header_offset(cx, cz);
    lemma_padded(d, 8192);
    assert(1 <= n && c.len() + 5 <= n * 4096 && n <= 0x1_0001);
    lemma_fit_from_range(used, n, total + n + 1, 2);
    assert(2 <= r < 0x100_0000);
    lemma_padded(d0, (r + n) * 4096);
    if old_off >= 2 && old_cnt > 0 && (old_off + old_cnt) * 4096 <= d1.len() {
        lemma_overwrite(d1, old_off * 4096, zeros(old_cnt * 4096));
    }
    assert(d2.len() == d1.len());
    lemma_be_bytes_len(c.len() + 1 as int, 4);
    assert(rec.len() == n * 4096);
    lemma_overwrite(d2, r * 4096, rec);
    lemma_be3(r);
    lemma_overwrite(d3, h, e);
    lemma_be_bytes_len(ts as int, 4);
    lemma_overwrite(d4, h + 4096, t);
    let bo = r * 4096;
    let k = bo + 4 + c.len();
    assert(d5[k] == rec[4 + c.len() as int]);
    assert(rec[4 + c.len() as int] == c.last());
    lemma_trim_keeps(d5, d5.len() as int, k);
    let f = d5.subrange(0, trimmed_len(d5, d5.len() as int));
    assert(entry_sector(f, this) == r) by {
        assert(4 * this == h);
        assert(f[h] == e[0] && f[h + 1] == e[1] && f[h + 2] == e[2]);
    }
    assert(entry_count(f, this) == n % 256) by {
        assert(4 * this == h);
        assert(f[h + 3] == e[3]);
    }
    assert(f.subrange(bo, bo + 4) =~= len_field) by {
        assert forall|i: int| 0 <= i < 4 implies f.subrange(bo, bo + 4)[i] == len_field[i] by {
            assert(f[bo + i] == rec[i]);
        }
    }
    lemma_be_roundtrip(c.len() + 1 as nat, 4);
    lemma_pow256_values();
    assert(be_value(f.subrange(bo, bo + 4)) == c.len() + 1);
    assert(f[bo + 4] == rec[4]);
    assert(f.subrange(bo + 5, bo + 5 + c.len()) =~= c) by {
        assert forall|i: int| 0 <= i < c.len() implies f.subrange(bo + 5, bo + 5 + c.len())[i] == c[i] by {
            assert(f[bo + 5 + i] == rec[5 + i]);
        }
    }
}

/// The last sector of the record of compressed bytes `c` holds a
/// non-zero byte: it is the record's only sector, or some byte of `c` in it
/// is not zero.
pub open spec fn last_sector_has_data(c: Seq<u8>) -> bool {
    let n = sectors_for(c.len() + 1 as int);
    n == 1 || exists|j: int| (n - 1) * 4096 - 5 <= j < c.len() && #[trigger] c[j] != 0
}

proof fn lemma_trim_aligned(d: Seq<u8>, end: int)
    requires
        end % 4096 == 0,
    ensures
        trimmed_len(d, end) % 4096 == 0,
    decreases end,
{
    if end > 8192 && end <= d.len() && all_zero(d.subrange(end - 4096, end)) {
        lemma_trim_aligned(d, end - 4096);
    }
}

/// Reading back a chunk just written gives its compressed bytes when the
/// file's length is a whole number of sectors and the record's last sector
/// holds a non-zero byte (a record of one sector always does: its
/// compression type is 2). Trailing all-zero sectors are cut from the
/// file, so a record whose last sector is all zeros loses that sector and
/// cannot be read back whole.
#[verifier::rlimit(100)]
#[verifier::spinoff_prover]
pub proof fn law_region_read_after_write_aligned(d: Seq<u8>, cx: i32, cz: i32, c: Seq<u8>, ts: u32)
    requires
        d.len() <= 0x4000_0000,
        d.len() % 4096 == 0,
        c.len() <= 0x1000_0000,
        last_sector_has_data(c),
    ensures
        chunk_payload(region_after_write(d, cx, cz, c, ts), cx, cz) == Some(c),
        chunk_readable(region_after_write(d, cx, cz, c, ts), cx, cz),
{
    let d0 = padded(d, 8192);
    let n = sectors_for(c.len() + 1 as int);
    let h = header_offset(cx, cz);
    let this = h / 4;
    let old_off = entry_sector(d0, this);
    let old_cnt = entry_count(d0, this);
    let total = if d0.len() / 4096 > 2 { d0.len() / 4096 } else { 2 };
    let used = used_by_others(d0, this);
    let r = fit_from(used, n, total + n + 1, 2);
    let d1 = padded(d0, (r + n) * 4096);
    let d2 = if old_off >= 2 && old_cnt > 0 && (old_off + old_cnt) * 4096 <= d1.len() {
        overwrite(d1, old_off * 4096, zeros(old_cnt * 4096))
    } else {
        d1
    };
    let rec = chunk_record(c, n);
    let d3 = overwrite(d2, r * 4096, rec);
    let e = be_bytes(r, 3) + seq![(n % 256) as u8];
    let d4 = overwrite(d3, h, e);
    let t = be_bytes(ts as int, 4);
    let d5 = overwrite(d4, h + 4096, t);
    let len_field = be_bytes(c.len() + 1 as int, 4);
    assert(region_after_write(d, cx, cz, c, ts) == d5.subrange(0, trimmed_len(d5, d5.len() as int)));
    lemma_header_offset(cx, cz);
    lemma_padded(d, 8192);
    assert(1 <= n && c.len() + 5 <= n * 4096 && n <= 0x1_0001);
    lemma_fit_from_range(used, n, total + n + 1, 2);
    assert(2 <= r < 0x100_0000);
    lemma_padded(d0, (r + n) * 4096);
    if old_off >= 2 && old_cnt > 0 && (old_off + old_cnt) * 4096 <= d1.len() {
        lemma_overwrite(d1, old_off * 4096, zeros(old_cnt * 4096));
    }
    assert(d2.len() == d1.len());
    lemma_be_bytes_len(c.len() + 1 as int, 4);
    assert(rec.len() == n * 4096);
    lemma_overwrite(d2, r * 4096, rec);
    lemma_be3(r);
    lemma_overwrite(d3, h, e);
    lemma_be_bytes_len(ts as int, 4);
    lemma_overwrite(d4, h + 4096, t);
    let bo = r * 4096;
    let k = if n == 1 {
        bo + 4
    } else {
        bo + 5 + choose|j: int| (n - 1) * 4096 - 5 <= j < c.len() && #[trigger] c[j] != 0
    };
    assert(k < bo + 5 + c.len() || n == 1);
    assert(d5[k] != 0) by {
        if n == 1 {
            assert(d5[k] == rec[4]);
        } else {
            assert(d5[k] == rec[k - bo]);
        }
    }
    lemma_trim_keeps(d5, d5.len() as int, k);
    lemma_trim_aligned(d5, d5.len() as int);
    assert(trimmed_len(d5, d5.len() as int) >= bo + 5 + c.len());
    let f = d5.subrange(0, trimmed_len(d5, d5.len() as int));
    assert(entry_sector(f, this) == r) by {
        assert(4 * this == h);
        assert(f[h] == e[0] && f[h + 1] == e[1] && f[h + 2] == e[2]);
    }
    assert(entry_count(f, this) == n % 256) by {
        assert(4 * this == h);
        assert(f[h + 3] == e[3]);
    }
    assert(f.subrange(bo, bo + 4) =~= len_field) by {
        assert forall|i: int| 0 <= i < 4 implies f.subrange(bo, bo + 4)[i] == len_field[i] by {
            assert(f[bo + i] == rec[i]);
        }
    }
    lemma_be_roundtrip(c.len() + 1 as nat, 4);
    lemma_pow256_values();
    assert(be_value(f.subrange(bo, bo + 4)) == c.len() + 1);
    assert(f[bo + 4] == rec[4]);
    assert(f.subrange(bo + 5, bo + 5 + c.len()) =~= c) by {
        assert forall|i: int| 0 <= i < c.len() implies f.subrange(bo + 5, bo + 5 + c.len())[i] == c[i] by {
            assert(f[bo + 5 + i] == rec[5 + i]);
        }
    }
}

/// The first sector of the run a write of `c` at (`cx`, `cz`) stores the
/// chunk in.
pub open spec fn write_sector(d: Seq<u8>, cx: i32, cz: i32, c: Seq<u8>) -> int {
    let d0 = padded(d, 8192);
    let n = sectors_for(c.len() + 1 as int);
    let total = if d0.len() / 4096 > 2 { d0.len() / 4096 } else { 2 };
    fit_from(used_by_others(d0, header_offset(cx, cz) / 4), n, total + n + 1, 2)
}

/// The first sector and sector count in a chunk's header entry.
pub open spec fn entry_of(d: Seq<u8>, cx: i32, cz: i32) -> (int, int) {
    let d0 = padded(d, 8192);
    (entry_sector(d0, header_offset(cx, cz) / 4), entry_count(d0, header_offset(cx, cz) / 4))
}

/// Two runs of sectors, as first sector and count, that share none.
pub open spec fn ranges_apart(a: (int, int), b: (int, int)) -> bool {
    a.0 + a.1 <= b.0 || b.0 + b.1 <= a.0
}

/// The last sector of a chunk's entry holds a non-zero byte of the file.
pub open spec fn ends_in_data(d: Seq<u8>, cx: i32, cz: i32) -> bool {
    let (s, n) = entry_of(d, cx, cz);
    exists|p: int| (s + n - 1) * 4096 <= p < (s + n) * 4096 && p < d.len() && #[trigger] d[p] != 0
}

/// A chunk stored with compressed bytes `c` that end in a non-zero byte,
/// in exactly the sectors its record needs.
pub open spec fn chunk_placed(d: Seq<u8>, cx: i32, cz: i32, c: Seq<u8>) -> bool {
    &&& chunk_payload(d, cx, cz) == Some(c)
    &&& chunk_readable(d, cx, cz)
    &&& c.len() > 0
    &&& c.last() != 0
    &&& entry_count(d, header_offset(cx, cz) / 4) == sectors_for(c.len() + 1 as int)
}

/// A chunk the region file does not hold: its header entry has no sector
/// past the header or no sector count.
pub open spec fn chunk_absent(d: Seq<u8>, cx: i32, cz: i32) -> bool {
    let d0 = padded(d, 8192);
    !(entry_sector(d0, header_offset(cx, cz) / 4) >= 2 && entry_count(d0, header_offset(cx, cz) / 4) > 0)
}

proof fn lemma_first_used_none(used: Set<usize>, s: int, end: int)
    requires
        first_used(used, s, end) is None,
    ensures
        forall|k: int| s <= k < end ==> !#[trigger] used.contains(k as usize),
    decreases end - s,
{
    if s < end {
        lemma_first_used_none(used, s + 1, end);
    }
}

proof fn lemma_fit_from_free(used: Set<usize>, count: int, limit: int, start: int)
    requires
        count >= 1,
    ensures
        fit_from(used, count, limit, start) >= limit || forall|k: int|
            fit_from(used, count, limit, start) <= k < fit_from(used, count, limit, start) + count ==> !#[trigger] used.contains(
                k as usize,
            ),
    decreases if start < limit { limit - start } else { 0 },
{
    if start < limit {
        match first_used(used, start, start + count) {
            None => {
                lemma_first_used_none(used, start, start + count);
            },
            Some(s) => {
                lemma_first_used_range(used, start, start + count);
                lemma_fit_from_free(used, count, limit, s + 1);
            },
        }
    }
}

proof fn lemma_used_upto_holds(d: Seq<u8>, this: int, i: int, k: int)
    requires
        0 <= i < k,
        i != this,
    ensures
        entry_sectors(d, i).subset_of(used_upto(d, this, k)),
    decreases k,
{
    if k - 1 != i {
        lemma_used_upto_holds(d, this, i, k - 1);
    }
}

proof fn lemma_header_offsets_apart(ax: i32, az: i32, bx: i32, bz: i32)
    requires
        header_offset(ax, az) != header_offset(bx, bz),
    ensures
        header_offset(ax, az) + 4 <= header_offset(bx, bz) || header_offset(bx, bz) + 4 <= header_offset(ax, az),
        header_offset(ax, az) / 4 != header_offset(bx, bz) / 4,
{
    lemma_header_offset(ax, az);
    lemma_header_offset(bx, bz);
}

/// Writing a chunk the file did not hold leaves every other stored chunk
/// where it was, its bytes unchanged.
#[verifier::rlimit(100)]
#[verifier::spinoff_prover]
pub proof fn law_region_write_keeps_others(
    d: Seq<u8>,
    cx: i32,
    cz: i32,
    c: Seq<u8>,
    ts: u32,
    ax: i32,
    az: i32,
    a: Seq<u8>,
)
    requires
        d.len() <= 0x4000_0000,
        c.len() <= 0x1000_0000,
        header_offset(ax, az) != header_offset(cx, cz),
        chunk_absent(d, cx, cz) || ranges_apart(entry_of(d, cx, cz), entry_of(d, ax, az)),
        chunk_placed(d, ax, az, a),
    ensures
        chunk_placed(region_after_write(d, cx, cz, c, ts), ax, az, a),
        entry_of(region_after_write(d, cx, cz, c, ts), ax, az) == entry_of(d, ax, az),
{
    let d0 = padded(d, 8192);
    let n = sectors_for(c.len() + 1 as int);
    let h = header_offset(cx, cz);
    let this = h / 4;
    let old_off = entry_sector(d0, this);
    let old_cnt = entry_count(d0, this);
    let total = if d0.len() / 4096 > 2 { d0.len() / 4096 } else { 2 };
    let used = used_by_others(d0, this);
    let limit = total + n + 1;
    let r = fit_from(used, n, limit, 2);
    let d1 = padded(d0, (r + n) * 4096);
    let zeroing = old_off >= 2 && old_cnt > 0 && (old_off + old_cnt) * 4096 <= d1.len();
    let d2 = if zeroing {
        overwrite(d1, old_off * 4096, zeros(old_cnt * 4096))
    } else {
        d1
    };
    let rec = chunk_record(c, n);
    let d3 = overwrite(d2, r * 4096, rec);
    let e = be_bytes(r, 3) + seq![(n % 256) as u8];
    let d4 = overwrite(d3, h, e);
    let t = be_bytes(ts as int, 4);
    let d5 = overwrite(d4, h + 4096, t);
    assert(region_after_write(d, cx, cz, c, ts) == d5.subrange(0, trimmed_len(d5, d5.len() as int)));
    lemma_header_offset(cx, cz);
    lemma_header_offsets_apart(ax, az, cx, cz);
    lemma_padded(d, 8192);
    assert(d0 == d);
    assert(1 <= n && c.len() + 5 <= n * 4096);
    lemma_fit_from_range(used, n, limit, 2);
    lemma_fit_from_free(used, n, limit, 2);
    lemma_padded(d0, (r + n) * 4096);
    if zeroing {
        lemma_overwrite(d1, old_off * 4096, zeros(old_cnt * 4096));
    }
    assert(d2.len() == d1.len());
    lemma_be_bytes_len(c.len() + 1 as int, 4);
    assert(rec.len() == n * 4096);
    lemma_overwrite(d2, r * 4096, rec);
    lemma_be_bytes_len(r, 3);
    lemma_overwrite(d3, h, e);
    lemma_be_bytes_len(ts as int, 4);
    lemma_overwrite(d4, h + 4096, t);
    // where the other chunk lies
    let ha = header_offset(ax, az);
    let ia = ha / 4;
    lemma_header_offset(ax, az);
    let off = entry_sector(d, ia);
    let cnt = entry_count(d, ia);
    let bo = off * 4096;
    let last = bo + 4 + a.len();
    assert(d.len() >= 8192 && off >= 2 && bo + 5 <= d.len());
    let length = be_value(d.subrange(bo, bo + 4)) as int;
    assert(length != 0);
    assert(a == d.subrange(bo + 5, bo + 5 + length - 1));
    assert(a.len() == length - 1);
    assert(off >= 2 && bo + 5 + a.len() <= d.len() && d[bo + 4] == 2);
    assert(cnt == sectors_for(a.len() + 1 as int));
    assert((off + cnt - 1) * 4096 <= last < (off + cnt) * 4096);
    assert(off + cnt - 1 <= total);
    // its sectors are taken, so the new record lies apart from them
    assert(entry_sectors(d0, ia).subset_of(used)) by {
        lemma_used_upto_holds(d0, this, ia, 1024);
    }
    assert(r + n <= off || off + cnt <= r) by {
        if !(r + n <= off || off + cnt <= r) {
            let k = if r > off { r } else { off };
            assert(entry_sectors(d0, ia).contains(k as usize));
            assert(used.contains(k as usize));
        }
    }
    assert(zeroing ==> old_off + old_cnt <= off || off + cnt <= old_off);
    assert(forall|i: int| 0 <= i < d.len() && !(r * 4096 <= i < (r + n) * 4096) && !(h <= i < h + 4) && !(h + 4096 <= i
        < h + 4100) && !(zeroing && old_off * 4096 <= i < (old_off + old_cnt) * 4096) ==> d5[i] == d[i]);
    assert(d5[last] == a.last()) by {
        assert(d[last] == a[a.len() - 1]);
    }
    lemma_trim_keeps(d5, d5.len() as int, last);
    let f = d5.subrange(0, trimmed_len(d5, d5.len() as int));
    assert(f.len() > last);
    lemma_padded(f, 8192);
    assert(entry_sector(f, ia) == off && entry_count(f, ia) == cnt) by {
        assert(f[4 * ia] == d[4 * ia]);
        assert(f[4 * ia + 1] == d[4 * ia + 1]);
        assert(f[4 * ia + 2] == d[4 * ia + 2]);
        assert(f[4 * ia + 3] == d[4 * ia + 3]);
    }
    assert(f.subrange(bo, bo + 4) =~= d.subrange(bo, bo + 4)) by {
        assert forall|i: int| 0 <= i < 4 implies #[trigger] f.subrange(bo, bo + 4)[i] == d.subrange(bo, bo + 4)[i] by {
            assert(f[bo + i] == d[bo + i]);
        }
    }
    assert(f[bo + 4] == d[bo + 4]);
    assert(f.subrange(bo + 5, bo + 5 + a.len()) =~= d.subrange(bo + 5, bo + 5 + a.len())) by {
        assert forall|i: int| 0 <= i < a.len() implies #[trigger] f.subrange(bo + 5, bo + 5 + a.len())[i] == d.subrange(
            bo + 5,
            bo + 5 + a.len(),
        )[i] by {
            assert(f[bo + 5 + i] == d[bo + 5 + i]);
        }
    }
}

/// Writing a chunk into a file of whole sectors keeps the header entry and
/// the sectors of another stored chunk whose last sector holds a non-zero
/// byte, when the written chunk's old sectors lie apart from them.
#[verifier::rlimit(100)]
#[verifier::spinoff_prover]
proof fn lemma_write_keeps_entry_aligned(d: Seq<u8>, cx: i32, cz: i32, c: Seq<u8>, ts: u32, ax: i32, az: i32)
    requires
        d.len() <= 0x4000_0000,
        d.len() % 4096 == 0,
        d.len() >= 8192,
        c.len() <= 0x1000_0000,
        header_offset(ax, az) != header_offset(cx, cz),
        chunk_absent(d, cx, cz) || ranges_apart(entry_of(d, cx, cz), entry_of(d, ax, az)),
        entry_of(d, ax, az).0 >= 2,
        entry_of(d, ax, az).1 >= 1,
        ends_in_data(d, ax, az),
    ensures
        region_after_write(d, cx, cz, c, ts).len() >= (entry_of(d, ax, az).0 + entry_of(d, ax, az).1) * 4096,
        entry_of(region_after_write(d, cx, cz, c, ts), ax, az) == entry_of(d, ax, az),
        forall|i: int|
            entry_of(d, ax, az).0 * 4096 <= i < (entry_of(d, ax, az).0 + entry_of(d, ax, az).1) * 4096
                ==> #[trigger] region_after_write(d, cx, cz, c, ts)[i] == d[i],
{
    let d0 = padded(d, 8192);
    let n = sectors_for(c.len() + 1 as int);
    let h = header_offset(cx, cz);
    let this = h / 4;
    let old_off = entry_sector(d0, this);
    let old_cnt = entry_count(d0, this);
    let total = if d0.len() / 4096 > 2 { d0.len() / 4096 } else { 2 };
    let used = used_by_others(d0, this);
    let limit = total + n + 1;
    let r = fit_from(used, n, limit, 2);
    let d1 = padded(d0, (r + n) * 4096);
    let zeroing = old_off >= 2 && old_cnt > 0 && (old_off + old_cnt) * 4096 <= d1.len();
    let d2 = if zeroing {
        overwrite(d1, old_off * 4096, zeros(old_cnt * 4096))
    } else {
        d1
    };
    let rec = chunk_record(c, n);
    let d3 = overwrite(d2, r * 4096, rec);
    let e = be_bytes(r, 3) + seq![(n % 256) as u8];
    let d4 = overwrite(d3, h, e);
    let t = be_bytes(ts as int, 4);
    let d5 = overwrite(d4, h + 4096, t);
    assert(region_after_write(d, cx, cz, c, ts) == d5.subrange(0, trimmed_len(d5, d5.len() as int)));
    lemma_header_offset(cx, cz);
    lemma_header_offsets_apart(ax, az, cx, cz);
    lemma_padded(d, 8192);
    assert(d0 == d);
    assert(1 <= n && c.len() + 5 <= n * 4096);
    lemma_fit_from_range(used, n, limit, 2);
    lemma_fit_from_free(used, n, limit, 2);
    lemma_padded(d0, (r + n) * 4096);
    if zeroing {
        lemma_overwrite(d1, old_off * 4096, zeros(old_cnt * 4096));
    }
    assert(d2.len() == d1.len());
    lemma_be_bytes_len(c.len() + 1 as int, 4);
    assert(rec.len() == n * 4096);
    lemma_overwrite(d2, r * 4096, rec);
    lemma_be_bytes_len(r, 3);
    lemma_overwrite(d3, h, e);
    lemma_be_bytes_len(ts as int, 4);
    lemma_overwrite(d4, h + 4096, t);
    // where the other chunk lies
    let ha = header_offset(ax, az);
    let ia = ha / 4;
    lemma_header_offset(ax, az);
    let off = entry_sector(d, ia);
    let cnt = entry_count(d, ia);
    let p = choose|p: int| (off + cnt - 1) * 4096 <= p < (off + cnt) * 4096 && p < d.len() && #[trigger] d[p] != 0;
    assert(off + cnt - 1 <= total) by (nonlinear_arith)
        requires
            (off + cnt - 1) * 4096 <= p,
            p < d.len(),
            total == d.len() / 4096,
    ;
    // its sectors are taken, so the new record lies apart from them
    assert(entry_sectors(d0, ia).subset_of(used)) by {
        lemma_used_upto_holds(d0, this, ia, 1024);
    }
    assert(r + n <= off || off + cnt <= r) by {
        if !(r + n <= off || off + cnt <= r) {
            let k = if r > off { r } else { off };
            assert(entry_sectors(d0, ia).contains(k as usize));
            assert(used.contains(k as usize));
        }
    }
    assert(zeroing ==> old_off + old_cnt <= off || off + cnt <= old_off);
    assert(forall|i: int| 0 <= i < d.len() && !(r * 4096 <= i < (r + n) * 4096) && !(h <= i < h + 4) && !(h + 4096 <= i
        < h + 4100) && !(zeroing && old_off * 4096 <= i < (old_off + old_cnt) * 4096) ==> d5[i] == d[i]);
    assert(d5[p] == d[p]);
    lemma_trim_keeps(d5, d5.len() as int, p);
    assert(d1.len() % 4096 == 0) by {
        if d0.len() < (r + n) * 4096 {
            assert(((r + n) * 4096) % 4096 == 0) by (nonlinear_arith);
        }
    }
    lemma_trim_aligned(d5, d5.len() as int);
    let f = d5.subrange(0, trimmed_len(d5, d5.len() as int));
    assert(f.len() >= (off + cnt) * 4096) by (nonlinear_arith)
        requires
            f.len() > p,
            p >= (off + cnt - 1) * 4096,
            f.len() % 4096 == 0,
    ;
    lemma_padded(f, 8192);
    assert(entry_sector(f, ia) == off && entry_count(f, ia) == cnt) by {
        assert(f[4 * ia] == d[4 * ia]);
        assert(f[4 * ia + 1] == d[4 * ia + 1]);
        assert(f[4 * ia + 2] == d[4 * ia + 2]);
        assert(f[4 * ia + 3] == d[4 * ia + 3]);
    }
    assert(d.len() >= 8192 && off >= 2 && cnt >= 1);
    assert forall|i: int| off * 4096 <= i < (off + cnt) * 4096 implies f[i] == d[i] by {
        assert(f[i] == d5[i]);
    }
}

/// Writing a chunk into a file of whole sectors leaves every other stored
/// chunk where it was, its bytes unchanged, where that chunk's record lies
/// within the sectors of its entry and the last of them holds a non-zero
/// byte; the written chunk's old sectors, which are zeroed, must lie apart
/// from it.
#[verifier::rlimit(100)]
#[verifier::spinoff_prover]
pub proof fn law_region_write_keeps_others_aligned(
    d: Seq<u8>,
    cx: i32,
    cz: i32,
    c: Seq<u8>,
    ts: u32,
    ax: i32,
    az: i32,
    a: Seq<u8>,
)
    requires
        d.len() <= 0x4000_0000,
        c.len() <= 0x1000_0000,
        header_offset(ax, az) != header_offset(cx, cz),
        chunk_absent(d, cx, cz) || ranges_apart(entry_of(d, cx, cz), entry_of(d, ax, az)),
        d.len() % 4096 == 0,
        chunk_payload(d, ax, az) == Some(a),
        chunk_readable(d, ax, az),
        entry_of(d, ax, az).0 * 4096 + 5 + a.len() <= (entry_of(d, ax, az).0 + entry_of(d, ax, az).1) * 4096,
        ends_in_data(d, ax, az),
    ensures
        chunk_payload(region_after_write(d, cx, cz, c, ts), ax, az) == Some(a),
        chunk_readable(region_after_write(d, cx, cz, c, ts), ax, az),
        entry_of(region_after_write(d, cx, cz, c, ts), ax, az) == entry_of(d, ax, az),
{
    lemma_padded(d, 8192);
    let ha = header_offset(ax, az);
    let ia = ha / 4;
    lemma_header_offset(ax, az);
    let off = entry_sector(d, ia);
    let cnt = entry_count(d, ia);
    let bo = off * 4096;
    assert(d.len() >= 8192 && off >= 2 && bo + 5 <= d.len());
    let length = be_value(d.subrange(bo, bo + 4)) as int;
    assert(length != 0);
    assert(a == d.subrange(bo + 5, bo + 5 + length - 1));
    assert(a.len() == length - 1);
    assert(d[bo + 4] == 2);
    lemma_write_keeps_entry_aligned(d, cx, cz, c, ts, ax, az);
    let f = region_after_write(d, cx, cz, c, ts);
    lemma_padded(f, 8192);
    assert(f.subrange(bo, bo + 4) =~= d.subrange(bo, bo + 4)) by {
        assert forall|i: int| 0 <= i < 4 implies #[trigger] f.subrange(bo, bo + 4)[i] == d.subrange(bo, bo + 4)[i] by {
            assert(f[bo + i] == d[bo + i]);
        }
    }
    assert(f[bo + 4] == d[bo + 4]);
    assert(f.subrange(bo + 5, bo + 5 + a.len()) =~= d.subrange(bo + 5, bo + 5 + a.len())) by {
        assert forall|i: int| 0 <= i < a.len() implies #[trigger] f.subrange(bo + 5, bo + 5 + a.len())[i] == d.subrange(
            bo + 5,
            bo + 5 + a.len(),
        )[i] by {
            assert(f[bo + 5 + i] == d[bo + 5 + i]);
        }
    }
}

/// A chunk written with compressed bytes that end in a non-zero byte and
/// need fewer than 256 sectors is stored exactly so.
pub proof fn law_region_write_places(d: Seq<u8>, cx: i32, cz: i32, c: Seq<u8>, ts: u32)
    requires
        d.len() <= 0x4000_0000,
        c.len() <= 0x1000_0000,
        c.len() > 0,
        c.last() != 0,
        sectors_for(c.len() + 1 as int) < 256,
    ensures
        chunk_placed(region_after_write(d, cx, cz, c, ts), cx, cz, c),
        entry_of(region_after_write(d, cx, cz, c, ts), cx, cz) == (write_sector(d, cx, cz, c), sectors_for(
            c.len() + 1 as int,
        )),
{
    law_region_read_after_write(d, cx, cz, c, ts);
    let f = region_after_write(d, cx, cz, c, ts);
    lemma_padded(f, 8192);
}

proof fn lemma_trimmed_keeps_header(d: Seq<u8>, end: int)
    requires
        end >= 8192,
    ensures
        4096 < trimmed_len(d, end) <= end,
    decreases end,
{
    if end > 8192 && end <= d.len() && all_zero(d.subrange(end - 4096, end)) {
        if end - 4096 >= 8192 {
            lemma_trimmed_keeps_header(d, end - 4096);
        }
    }
}

/// Writing a chunk leaves a chunk of another header entry that the file
/// did not hold still absent.
#[verifier::rlimit(40)]
#[verifier::spinoff_prover]
pub proof fn law_region_write_keeps_absent(d: Seq<u8>, cx: i32, cz: i32, c: Seq<u8>, ts: u32, ax: i32, az: i32)
    requires
        d.len() <= 0x4000_0000,
        c.len() <= 0x1000_0000,
        header_offset(ax, az) != header_offset(cx, cz),
        chunk_absent(d, ax, az),
    ensures
        chunk_absent(region_after_write(d, cx, cz, c, ts), ax, az),
{
    let d0 = padded(d, 8192);
    let n = sectors_for(c.len() + 1 as int);
    let h = header_offset(cx, cz);
    let this = h / 4;
    let old_off = entry_sector(d0, this);
    let old_cnt = entry_count(d0, this);
    let total = if d0.len() / 4096 > 2 { d0.len() / 4096 } else { 2 };
    let used = used_by_others(d0, this);
    let r = fit_from(used, n, total + n + 1, 2);
    let d1 = padded(d0, (r + n) * 4096);
    let d2 = if old_off >= 2 && old_cnt > 0 && (old_off + old_cnt) * 4096 <= d1.len() {
        overwrite(d1, old_off * 4096, zeros(old_cnt * 4096))
    } else {
        d1
    };
    let rec = chunk_record(c, n);
    let d3 = overwrite(d2, r * 4096, rec);
    let e = be_bytes(r, 3) + seq![(n % 256) as u8];
    let d4 = overwrite(d3, h, e);
    let t = be_bytes(ts as int, 4);
    let d5 = overwrite(d4, h + 4096, t);
    assert(region_after_write(d, cx, cz, c, ts) == d5.subrange(0, trimmed_len(d5, d5.len() as int)));
    lemma_header_offset(cx, cz);
    lemma_header_offsets_apart(ax, az, cx, cz);
    lemma_padded(d, 8192);
    assert(1 <= n && c.len() + 5 <= n * 4096);
    lemma_fit_from_range(used, n, total + n + 1, 2);
    lemma_padded(d0, (r + n) * 4096);
    if old_off >= 2 && old_cnt > 0 && (old_off + old_cnt) * 4096 <= d1.len() {
        lemma_overwrite(d1, old_off * 4096, zeros(old_cnt * 4096));
    }
    lemma_be_bytes_len(c.len() + 1 as int, 4);
    assert(rec.len() == n * 4096);
    lemma_overwrite(d2, r * 4096, rec);
    lemma_be_bytes_len(r, 3);
    lemma_overwrite(d3, h, e);
    lemma_be_bytes_len(ts as int, 4);
    lemma_overwrite(d4, h + 4096, t);
    lemma_trimmed_keeps_header(d5, d5.len() as int);
    let f = d5.subrange(0, trimmed_len(d5, d5.len() as int));
    let ha = header_offset(ax, az);
    lemma_header_offset(ax, az);
    let ia = ha / 4;
    lemma_padded(f, 8192);
    let f0 = padded(f, 8192);
    assert(d5.len() >= 8192);
    assert forall|k: int| 0 <= k < 4 implies #[trigger] f0[4 * ia + k] == d0[4 * ia + k] by {
        let j = 4 * ia + k;
        assert(j < 4096);
        assert(d1[j] == d0[j]);
        assert(d2[j] == d1[j]);
        assert(d3[j] == d2[j]);
        assert(d4[j] == d3[j]);
        assert(d5[j] == d4[j]);
        assert(f[j] == d5[j]);
        assert(f0[j] == f[j]);
    }
    assert(entry_sector(f0, ia) == entry_sector(d0, ia) && entry_count(f0, ia) == entry_count(d0, ia)) by {
        assert(f0[4 * ia + 0] == d0[4 * ia + 0]);
        assert(f0[4 * ia + 1] == d0[4 * ia + 1]);
        assert(f0[4 * ia + 2] == d0[4 * ia + 2]);
        assert(f0[4 * ia + 3] == d0[4 * ia + 3]);
    }
}

/// Writing a chunk leaves a chunk of another header entry that the file
/// holds where it was, with the non-zero byte of its last sector, and puts
/// the written chunk in sectors apart from it; the written chunk's old
/// sectors, which are zeroed, must lie apart from it too.
#[verifier::rlimit(100)]
#[verifier::spinoff_prover]
pub proof fn law_region_write_keeps_stored(d: Seq<u8>, cx: i32, cz: i32, c: Seq<u8>, ts: u32, ax: i32, az: i32)
    requires
        d.len() <= 0x4000_0000,
        c.len() <= 0x1000_0000,
        header_offset(ax, az) != header_offset(cx, cz),
        !chunk_absent(d, ax, az),
        ends_in_data(d, ax, az),
        chunk_absent(d, cx, cz) || ranges_apart(entry_of(d, cx, cz), entry_of(d, ax, az)),
    ensures
        entry_of(region_after_write(d, cx, cz, c, ts), ax, az) == entry_of(d, ax, az),
        ends_in_data(region_after_write(d, cx, cz, c, ts), ax, az),
        ranges_apart(entry_of(d, ax, az), (write_sector(d, cx, cz, c), sectors_for(c.len() + 1 as int))),
{
    let d0 = padded(d, 8192);
    let n = sectors_for(c.len() + 1 as int);
    let h = header_offset(cx, cz);
    let this = h / 4;
    let old_off = entry_sector(d0, this);
    let old_cnt = entry_count(d0, this);
    let total = if d0.len() / 4096 > 2 { d0.len() / 4096 } else { 2 };
    let used = used_by_others(d0, this);
    let limit = total + n + 1;
    let r = fit_from(used, n, limit, 2);
    let d1 = padded(d0, (r + n) * 4096);
    let zeroing = old_off >= 2 && old_cnt > 0 && (old_off + old_cnt) * 4096 <= d1.len();
    let d2 = if zeroing {
        overwrite(d1, old_off * 4096, zeros(old_cnt * 4096))
    } else {
        d1
    };
    let rec = chunk_record(c, n);
    let d3 = overwrite(d2, r * 4096, rec);
    let e = be_bytes(r, 3) + seq![(n % 256) as u8];
    let d4 = overwrite(d3, h, e);
    let t = be_bytes(ts as int, 4);
    let d5 = overwrite(d4, h + 4096, t);
    assert(region_after_write(d, cx, cz, c, ts) == d5.subrange(0, trimmed_len(d5, d5.len() as int)));
    assert(r == write_sector(d, cx, cz, c));
    lemma_header_offset(cx, cz);
    lemma_header_offsets_apart(ax, az, cx, cz);
    lemma_padded(d, 8192);
    let ha = header_offset(ax, az);
    lemma_header_offset(ax, az);
    let ia = ha / 4;
    let off = entry_sector(d0, ia);
    let cnt = entry_count(d0, ia);
    let p = choose|p: int| (off + cnt - 1) * 4096 <= p < (off + cnt) * 4096 && p < d.len() && #[trigger] d[p] != 0;
    assert(off >= 2 && cnt > 0);
    assert(d.len() > 8192);
    assert(d0 == d);
    assert(1 <= n && c.len() + 5 <= n * 4096);
    lemma_fit_from_range(used, n, limit, 2);
    lemma_fit_from_free(used, n, limit, 2);
    lemma_padded(d0, (r + n) * 4096);
    if zeroing {
        lemma_overwrite(d1, old_off * 4096, zeros(old_cnt * 4096));
    }
    assert(d2.len() == d1.len());
    lemma_be_bytes_len(c.len() + 1 as int, 4);
    assert(rec.len() == n * 4096);
    lemma_overwrite(d2, r * 4096, rec);
    lemma_be_bytes_len(r, 3);
    lemma_overwrite(d3, h, e);
    lemma_be_bytes_len(ts as int, 4);
    lemma_overwrite(d4, h + 4096, t);
    assert(off + cnt - 1 <= total);
    assert(entry_sectors(d0, ia).subset_of(used)) by {
        lemma_used_upto_holds(d0, this, ia, 1024);
    }
    assert(r + n <= off || off + cnt <= r) by {
        if !(r + n <= off || off + cnt <= r) {
            let k = if r > off { r } else { off };
            assert(entry_sectors(d0, ia).contains(k as usize));
            assert(used.contains(k as usize));
        }
    }
    assert(zeroing ==> old_off + old_cnt <= off || off + cnt <= old_off);
    assert(forall|i: int| 0 <= i < d.len() && !(r * 4096 <= i < (r + n) * 4096) && !(h <= i < h + 4) && !(h + 4096 <= i
        < h + 4100) && !(zeroing && old_off * 4096 <= i < (old_off + old_cnt) * 4096) ==> d5[i] == d[i]);
    assert(d5[p] == d[p]);
    lemma_trim_keeps(d5, d5.len() as int, p);
    let f = d5.subrange(0, trimmed_len(d5, d5.len() as int));
    assert(f[p] == d[p]);
    lemma_padded(f, 8192);
    assert(entry_sector(f, ia) == off && entry_count(f, ia) == cnt) by {
        assert(f[4 * ia] == d[4 * ia]);
        assert(f[4 * ia + 1] == d[4 * ia + 1]);
        assert(f[4 * ia + 2] == d[4 * ia + 2]);
        assert(f[4 * ia + 3] == d[4 * ia + 3]);
    }
    assert(entry_of(f, ax, az) == (off, cnt));
}

} // verus!
