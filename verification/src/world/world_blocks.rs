//! The blocks of a running world: what players changed, the chunks read
//! from region files, and which chunks wait to be saved.

use std::collections::HashMap;
use vstd::prelude::*;
use crate::world::anvil::{chunk_loadable, chunk_nbt_loadable, chunk_to_nbt, chunk_value, load_chunk, nbt_to_blocks_raw};
use crate::world::blocks::{air_block, Block, BlockMap, BlockPos};
use crate::world::compression::zlib_compressed;
use crate::world::generator::FlatWorldGenerator;
use crate::world::nbt::{models, root_enc, NbtTag, NbtValue};
use crate::world::region::{
    chunk_absent, chunk_placed, chunk_read, chunk_readable, ends_in_data, entry_of, header_offset,
    law_region_write_keeps_absent, law_region_write_keeps_others, law_region_write_keeps_stored,
    law_region_write_places, ranges_apart, region_after_write, sectors_for, RegionFile,
};

verus! {

broadcast use vstd::std_specs::hash::group_hash_axioms;

/// A chunk position.
pub type ChunkPos = (i32, i32);

/// The chunk coordinate of a block coordinate: the floor of `v / 16`.
pub open spec fn chunk_coord(v: i32) -> i32 {
    (v as int / 16) as i32
}

/// The chunk holding a block position.
pub open spec fn chunk_of(p: BlockPos) -> ChunkPos {
    (chunk_coord(p.0), chunk_coord(p.2))
}

/// The region coordinate of a chunk coordinate: the floor of `c / 32`.
pub open spec fn region_coord(c: i32) -> i32 {
    (c as int / 32) as i32
}

/// A chunk coordinate of some block coordinate: within 2^27 of zero.
pub open spec fn chunk_in_range(c: ChunkPos) -> bool {
    -0x800_0000 <= c.0 < 0x800_0000 && -0x800_0000 <= c.1 < 0x800_0000
}

/// The block at a position of a world whose changed blocks are
/// `modified` and whose cached chunks are `cached`: a changed block, else
/// the block of its cached chunk (air where the chunk holds none), else the
/// generated one.
pub open spec fn world_block(
    modified: Map<BlockPos, Block>,
    cached: Map<ChunkPos, Seq<u8>>,
    g: FlatWorldGenerator,
    p: BlockPos,
) -> Block {
    if modified.contains_key(p) {
        modified[p]
    } else if cached.contains_key(chunk_of(p)) {
        let m = load_chunk(Map::empty(), cached[chunk_of(p)], None);
        if m.contains_key(p) {
            m[p]
        } else {
            air_block()
        }
    } else {
        g.block_at(p.1)
    }
}

/// The changed blocks after setting `p` to `b`: a block equal to the
/// generated one is forgotten, any other is kept.
pub open spec fn after_set(modified: Map<BlockPos, Block>, g: FlatWorldGenerator, p: BlockPos, b: Block) -> Map<
    BlockPos,
    Block,
> {
    if b == g.block_at(p.1) {
        modified.remove(p)
    } else {
        modified.insert(p, b)
    }
}

/// Reading a block just set gives it back, unless the block equals the
/// generated one and its chunk is cached from disk: that change is
/// forgotten, and the block on disk shows through.
pub proof fn law_get_after_set(
    modified: Map<BlockPos, Block>,
    cached: Map<ChunkPos, Seq<u8>>,
    g: FlatWorldGenerator,
    p: BlockPos,
    b: Block,
)
    requires
        b != g.block_at(p.1) || !cached.contains_key(chunk_of(p)),
    ensures
        world_block(after_set(modified, g, p, b), cached, g, p) == b,
{
}

/// Setting a block leaves every other position as it was.
pub proof fn law_set_leaves_others(
    modified: Map<BlockPos, Block>,
    cached: Map<ChunkPos, Seq<u8>>,
    g: FlatWorldGenerator,
    p: BlockPos,
    b: Block,
    q: BlockPos,
)
    requires
        q != p,
    ensures
        world_block(after_set(modified, g, p, b), cached, g, q) == world_block(modified, cached, g, q),
{
}

/// The number a chunk is cached under; distinct chunks get distinct numbers.
pub open spec fn chunk_key(c: ChunkPos) -> u64 {
    ((c.0 as int + 0x8000_0000) * 0x1_0000_0000 + (c.1 as int + 0x8000_0000)) as u64
}

proof fn lemma_chunk_key_injective(c: ChunkPos, d: ChunkPos)
    ensures
        chunk_key(c) == chunk_key(d) ==> c == d,
{
    let a1 = c.0 as int + 0x8000_0000;
    let b1 = c.1 as int + 0x8000_0000;
    let a2 = d.0 as int + 0x8000_0000;
    let b2 = d.1 as int + 0x8000_0000;
    assert(0 <= a1 * 0x1_0000_0000 + b1 < 0x1_0000_0000_0000_0000) by (nonlinear_arith)
        requires
            0 <= a1 < 0x1_0000_0000,
            0 <= b1 < 0x1_0000_0000,
    ;
    assert(0 <= a2 * 0x1_0000_0000 + b2 < 0x1_0000_0000_0000_0000) by (nonlinear_arith)
        requires
            0 <= a2 < 0x1_0000_0000,
            0 <= b2 < 0x1_0000_0000,
    ;
    if chunk_key(c) == chunk_key(d) {
        assert(a1 == a2 && b1 == b2) by (nonlinear_arith)
            requires
                a1 * 0x1_0000_0000 + b1 == a2 * 0x1_0000_0000 + b2,
                0 <= a1 < 0x1_0000_0000,
                0 <= b1 < 0x1_0000_0000,
                0 <= a2 < 0x1_0000_0000,
                0 <= b2 < 0x1_0000_0000,
        ;
    }
}

/// Computes `chunk_key`.
fn key_of_chunk(cx: i32, cz: i32) -> (k: u64)
    ensures
        k == chunk_key((cx, cz)),
{
    let a = (cx as i64 + 0x8000_0000) as u64;
    let b = (cz as i64 + 0x8000_0000) as u64;
    assert(a * 0x1_0000_0000 + b < 0x1_0000_0000_0000_0000) by (nonlinear_arith)
        requires
            a < 0x1_0000_0000,
            b < 0x1_0000_0000,
    ;
    a * 0x1_0000_0000 + b
}

/// Computes `chunk_coord`.
pub fn chunk_coord_of(v: i32) -> (c: i32)
    ensures
        c == chunk_coord(v),
        -0x800_0000 <= c < 0x800_0000,
{
    let shifted = (v as i64 + 0x8000_0000) as u64 / 16;
    assert(shifted == v as int / 16 + 0x800_0000);
    (shifted as i64 - 0x800_0000) as i32
}

/// Computes `region_coord`.
pub fn region_coord_of(c: i32) -> (r: i32)
    ensures
        r == region_coord(c),
{
    let shifted = (c as i64 + 0x8000_0000) as u64 / 32;
    assert(shifted == c as int / 32 + 0x400_0000);
    (shifted as i64 - 0x400_0000) as i32
}

/// The region holding a chunk.
pub open spec fn region_of(c: ChunkPos) -> (i32, i32) {
    (region_coord(c.0), region_coord(c.1))
}

/// Whether some of the first `k` chunks lies in region `r`.
pub open spec fn region_seen(chunks: Seq<ChunkPos>, k: int, r: (i32, i32)) -> bool {
    exists|j: int| 0 <= j < k && region_of(#[trigger] chunks[j]) == r
}

/// Whether one of the groups is that of region `r`.
pub open spec fn lists_region(groups: Seq<(i32, i32, Vec<ChunkPos>)>, r: (i32, i32)) -> bool {
    exists|i: int| 0 <= i < groups.len() && ((#[trigger] groups[i]).0, groups[i].1) == r
}

/// Whether a chunk lies in region (`rx`, `rz`).
pub open spec fn in_region(rx: i32, rz: i32) -> spec_fn(ChunkPos) -> bool {
    |c: ChunkPos| region_of(c) == (rx, rz)
}

/// The NBT bytes a chunk is saved as: its sections from the changed
/// blocks, generated blocks for a chunk never read from disk, no tile
/// entities.
pub open spec fn saved_chunk_nbt(
    c: ChunkPos,
    modified: Map<BlockPos, Block>,
    cached: Map<ChunkPos, Seq<u8>>,
    g: FlatWorldGenerator,
) -> Seq<u8> {
    root_enc(Seq::empty(), chunk_value(c.0, c.1, modified, g, Seq::empty(), !cached.contains_key(c)))
}

/// The region file bytes after saving `chunks` one after another into
/// `d`; `None` once a file or a compressed chunk is too large to place.
#[verifier::opaque]
pub open spec fn region_after_saves(
    d: Seq<u8>,
    chunks: Seq<ChunkPos>,
    modified: Map<BlockPos, Block>,
    cached: Map<ChunkPos, Seq<u8>>,
    g: FlatWorldGenerator,
    ts: u32,
) -> Option<Seq<u8>>
    decreases chunks.len(),
{
    if chunks.len() == 0 {
        Some(d)
    } else {
        match region_after_saves(d, chunks.drop_last(), modified, cached, g, ts) {
            None => None,
            Some(d1) => {
                let c = chunks.last();
                let z = zlib_compressed(saved_chunk_nbt(c, modified, cached, g));
                if d1.len() <= 0x4000_0000 && z.len() <= 0x1000_0000 {
                    Some(region_after_write(d1, c.0, c.1, z, ts))
                } else {
                    None
                }
            },
        }
    }
}

proof fn lemma_saves_step(
    d: Seq<u8>,
    s: Seq<ChunkPos>,
    i: int,
    modified: Map<BlockPos, Block>,
    cached: Map<ChunkPos, Seq<u8>>,
    g: FlatWorldGenerator,
    ts: u32,
    d1: Seq<u8>,
)
    requires
        0 <= i < s.len(),
        region_after_saves(d, s.take(i), modified, cached, g, ts) == Some(d1),
    ensures
        ({
            let z = zlib_compressed(saved_chunk_nbt(s[i], modified, cached, g));
            region_after_saves(d, s.take(i + 1), modified, cached, g, ts) == if d1.len() <= 0x4000_0000 && z.len()
                <= 0x1000_0000 {
                Some(region_after_write(d1, s[i].0, s[i].1, z, ts))
            } else {
                None
            }
        }),
{
    reveal(region_after_saves);
    assert(s.take(i + 1).drop_last() =~= s.take(i));
    assert(s.take(i + 1).last() == s[i]);
}

proof fn lemma_saves_none_yet(
    d: Seq<u8>,
    s: Seq<ChunkPos>,
    modified: Map<BlockPos, Block>,
    cached: Map<ChunkPos, Seq<u8>>,
    g: FlatWorldGenerator,
    ts: u32,
)
    ensures
        region_after_saves(d, s.take(0), modified, cached, g, ts) == Some(d),
{
    reveal(region_after_saves);
    assert(s.take(0).len() == 0);
}

proof fn lemma_saves_none_stays(
    d: Seq<u8>,
    s: Seq<ChunkPos>,
    n: int,
    modified: Map<BlockPos, Block>,
    cached: Map<ChunkPos, Seq<u8>>,
    g: FlatWorldGenerator,
    ts: u32,
)
    requires
        0 <= n <= s.len(),
        region_after_saves(d, s.take(n), modified, cached, g, ts) is None,
    ensures
        region_after_saves(d, s, modified, cached, g, ts) is None,
    decreases s.len(),
{
    reveal(region_after_saves);
    if n == s.len() {
        assert(s.take(n) =~= s);
    } else {
        assert(s.drop_last().take(n) =~= s.take(n));
        lemma_saves_none_stays(d, s.drop_last(), n, modified, cached, g, ts);
    }
}

/// Two chunks of one region have header entries of their own.
pub proof fn law_region_chunks_own_entries(a: ChunkPos, b: ChunkPos)
    requires
        region_of(a) == region_of(b),
        a != b,
    ensures
        header_offset(a.0, a.1) != header_offset(b.0, b.1),
{
    let (qa, ra) = (a.0 as int / 32, a.0 as int % 32);
    let (qb, rb) = (b.0 as int / 32, b.0 as int % 32);
    let (sa, ta) = (a.1 as int / 32, a.1 as int % 32);
    let (sb, tb) = (b.1 as int / 32, b.1 as int % 32);
    assert(a.0 == 32 * qa + ra && b.0 == 32 * qb + rb && a.1 == 32 * sa + ta && b.1 == 32 * sb + tb);
    assert(-0x400_0000 <= qa < 0x400_0000 && -0x400_0000 <= qb < 0x400_0000);
    assert(-0x400_0000 <= sa < 0x400_0000 && -0x400_0000 <= sb < 0x400_0000);
    assert(qa == qb && sa == sb);
}

/// The compressed bytes a chunk is saved as.
pub open spec fn saved_compressed(
    c: ChunkPos,
    modified: Map<BlockPos, Block>,
    cached: Map<ChunkPos, Seq<u8>>,
    g: FlatWorldGenerator,
) -> Seq<u8> {
    zlib_compressed(saved_chunk_nbt(c, modified, cached, g))
}

/// Compressed bytes that a region file stores plainly: not empty, ending
/// in a non-zero byte, within 255 sectors.
pub open spec fn storable(z: Seq<u8>) -> bool {
    z.len() > 0 && z.last() != 0 && sectors_for(z.len() + 1 as int) < 256
}

/// The chunk's existing record, if the file holds it, ends in data.
pub open spec fn stored_tidily(d: Seq<u8>, c: ChunkPos) -> bool {
    chunk_absent(d, c.0, c.1) || ends_in_data(d, c.0, c.1)
}

/// Two chunks' existing records, where the file holds both, share no
/// sector.
pub open spec fn stored_apart(d: Seq<u8>, a: ChunkPos, b: ChunkPos) -> bool {
    chunk_absent(d, a.0, a.1) || chunk_absent(d, b.0, b.1) || ranges_apart(entry_of(d, a.0, a.1), entry_of(d, b.0, b.1))
}

proof fn lemma_saves_placed(
    d: Seq<u8>,
    s: Seq<ChunkPos>,
    k: int,
    m: Map<BlockPos, Block>,
    ca: Map<ChunkPos, Seq<u8>>,
    g: FlatWorldGenerator,
    ts: u32,
)
    requires
        0 <= k <= s.len(),
        forall|i: int, j: int|
            0 <= i < j < s.len() ==> header_offset(s[i].0, s[i].1) != header_offset(s[j].0, s[j].1),
        forall|i: int| 0 <= i < s.len() ==> stored_tidily(d, #[trigger] s[i]),
        forall|i: int, j: int| 0 <= i < s.len() && 0 <= j < s.len() && i != j ==> stored_apart(d, s[i], s[j]),
        forall|i: int| 0 <= i < s.len() ==> storable(saved_compressed(#[trigger] s[i], m, ca, g)),
    ensures
        region_after_saves(d, s.take(k), m, ca, g, ts) matches Some(v) ==> {
            &&& forall|j: int|
                0 <= j < k ==> chunk_placed(v, (#[trigger] s[j]).0, s[j].1, saved_compressed(s[j], m, ca, g))
            &&& forall|j: int|
                k <= j < s.len() ==> if chunk_absent(d, (#[trigger] s[j]).0, s[j].1) {
                    chunk_absent(v, s[j].0, s[j].1)
                } else {
                    entry_of(v, s[j].0, s[j].1) == entry_of(d, s[j].0, s[j].1) && ends_in_data(v, s[j].0, s[j].1)
                }
            &&& forall|i: int, j: int|
                0 <= i < k <= j < s.len() && !chunk_absent(d, s[j].0, s[j].1) ==> ranges_apart(
                    entry_of(d, s[j].0, s[j].1),
                    entry_of(v, s[i].0, s[i].1),
                )
        },
    decreases k,
{
    if k == 0 {
        lemma_saves_none_yet(d, s, m, ca, g, ts);
    } else {
        lemma_saves_placed(d, s, k - 1, m, ca, g, ts);
        match region_after_saves(d, s.take(k - 1), m, ca, g, ts) {
            None => {
                assert(s.take(k).take(k - 1) =~= s.take(k - 1));
                lemma_saves_none_stays(d, s.take(k), k - 1, m, ca, g, ts);
            },
            Some(d1) => {
                lemma_saves_step(d, s, k - 1, m, ca, g, ts, d1);
                let b = s[k - 1];
                let z = saved_compressed(b, m, ca, g);
                if d1.len() <= 0x4000_0000 && z.len() <= 0x1000_0000 {
                    let v = region_after_write(d1, b.0, b.1, z, ts);
                    assert(storable(z));
                    law_region_write_places(d1, b.0, b.1, z, ts);
                    assert(stored_tidily(d, s[k - 1]));
                    assert forall|i: int| 0 <= i < k - 1 implies chunk_placed(
                        v,
                        (#[trigger] s[i]).0,
                        s[i].1,
                        saved_compressed(s[i], m, ca, g),
                    ) && entry_of(v, s[i].0, s[i].1) == entry_of(d1, s[i].0, s[i].1) by {
                        law_region_write_keeps_others(d1, b.0, b.1, z, ts, s[i].0, s[i].1, saved_compressed(s[i], m, ca, g));
                    }
                    assert forall|j: int| k <= j < s.len() implies if chunk_absent(d, (#[trigger] s[j]).0, s[j].1) {
                        chunk_absent(v, s[j].0, s[j].1)
                    } else {
                        entry_of(v, s[j].0, s[j].1) == entry_of(d, s[j].0, s[j].1) && ends_in_data(v, s[j].0, s[j].1)
                            && ranges_apart(entry_of(d, s[j].0, s[j].1), entry_of(v, b.0, b.1))
                    } by {
                        if chunk_absent(d, s[j].0, s[j].1) {
                            law_region_write_keeps_absent(d1, b.0, b.1, z, ts, s[j].0, s[j].1);
                        } else {
                            assert(stored_apart(d, s[k - 1], s[j]));
                            law_region_write_keeps_stored(d1, b.0, b.1, z, ts, s[j].0, s[j].1);
                        }
                    }
                    assert forall|i: int, j: int|
                        0 <= i < k <= j < s.len() && !chunk_absent(d, s[j].0, s[j].1) implies ranges_apart(
                        entry_of(d, s[j].0, s[j].1),
                        entry_of(v, s[i].0, s[i].1),
                    ) by {
                        if i == k - 1 {
                            assert(s[i] == b);
                        } else {
                            assert(entry_of(v, s[i].0, s[i].1) == entry_of(d1, s[i].0, s[i].1));
                        }
                    }
                    assert forall|j: int| 0 <= j < k implies chunk_placed(
                        v,
                        (#[trigger] s[j]).0,
                        s[j].1,
                        saved_compressed(s[j], m, ca, g),
                    ) by {
                        if j < k - 1 {
                            assert(chunk_placed(v, s[j].0, s[j].1, saved_compressed(s[j], m, ca, g)));
                        }
                    }
                }
            },
        }
    }
}

/// Saving chunks into a region file, each at its own header entry, stores
/// every one of them where a reader finds it: its compressed NBT, in
/// sectors of its own. Where the file held a chunk already, its old record
/// must end in data and share no sector with another saved chunk's old
/// record, as records this library writes do. Compressed bytes must end in
/// a non-zero byte and fit 255 sectors (trailing zero sectors are cut from
/// the file, and a header entry counts at most 255 sectors).
pub proof fn law_saved_chunks_read_back(
    d: Seq<u8>,
    chunks: Seq<ChunkPos>,
    modified: Map<BlockPos, Block>,
    cached: Map<ChunkPos, Seq<u8>>,
    g: FlatWorldGenerator,
    ts: u32,
    v: Seq<u8>,
)
    requires
        region_after_saves(d, chunks, modified, cached, g, ts) == Some(v),
        forall|i: int, j: int|
            0 <= i < j < chunks.len() ==> header_offset(chunks[i].0, chunks[i].1) != header_offset(chunks[j].0, chunks[j].1),
        forall|i: int| 0 <= i < chunks.len() ==> stored_tidily(d, #[trigger] chunks[i]),
        forall|i: int, j: int|
            0 <= i < chunks.len() && 0 <= j < chunks.len() && i != j ==> stored_apart(d, chunks[i], chunks[j]),
        forall|i: int| 0 <= i < chunks.len() ==> storable(saved_compressed(#[trigger] chunks[i], modified, cached, g)),
    ensures
        forall|i: int|
            0 <= i < chunks.len() ==> chunk_placed(
                v,
                (#[trigger] chunks[i]).0,
                chunks[i].1,
                saved_compressed(chunks[i], modified, cached, g),
            ),
{
    lemma_saves_placed(d, chunks, chunks.len() as int, modified, cached, g, ts);
    assert(chunks.take(chunks.len() as int) =~= chunks);
}

/// Saving distinct chunks of one region, as `dirty_by_region` groups them,
/// stores every one of them where a reader finds it, on the conditions of
/// `law_saved_chunks_read_back` on the file and the compressed bytes.
pub proof fn law_region_save_reads_back(
    d: Seq<u8>,
    chunks: Seq<ChunkPos>,
    rx: i32,
    rz: i32,
    modified: Map<BlockPos, Block>,
    cached: Map<ChunkPos, Seq<u8>>,
    g: FlatWorldGenerator,
    ts: u32,
    v: Seq<u8>,
)
    requires
        region_after_saves(d, chunks, modified, cached, g, ts) == Some(v),
        forall|i: int, j: int| 0 <= i < j < chunks.len() ==> chunks[i] != chunks[j],
        forall|i: int| 0 <= i < chunks.len() ==> region_of(#[trigger] chunks[i]) == (rx, rz),
        forall|i: int| 0 <= i < chunks.len() ==> stored_tidily(d, #[trigger] chunks[i]),
        forall|i: int, j: int|
            0 <= i < chunks.len() && 0 <= j < chunks.len() && i != j ==> stored_apart(d, chunks[i], chunks[j]),
        forall|i: int| 0 <= i < chunks.len() ==> storable(saved_compressed(#[trigger] chunks[i], modified, cached, g)),
    ensures
        forall|i: int|
            0 <= i < chunks.len() ==> chunk_placed(
                v,
                (#[trigger] chunks[i]).0,
                chunks[i].1,
                saved_compressed(chunks[i], modified, cached, g),
            ),
{
    assert forall|i: int, j: int| 0 <= i < j < chunks.len() implies header_offset(chunks[i].0, chunks[i].1)
        != header_offset(chunks[j].0, chunks[j].1) by {
        law_region_chunks_own_entries(chunks[i], chunks[j]);
    }
    law_saved_chunks_read_back(d, chunks, modified, cached, g, ts, v);
}

/// The chunks of `chunks` that lie in region (`rx`, `rz`), in their order.
pub fn chunks_in_region(chunks: &Vec<ChunkPos>, rx: i32, rz: i32) -> (r: Vec<ChunkPos>)
    ensures
        r@ == chunks@.filter(in_region(rx, rz)),
{
    let ghost pred = in_region(rx, rz);
    let mut r: Vec<ChunkPos> = Vec::new();
    let mut i: usize = 0;
    while i < chunks.len()
        invariant
            i <= chunks@.len(),
            pred == in_region(rx, rz),
            r@ == chunks@.take(i as int).filter(pred),
        decreases chunks.len() - i,
    {
        let c = chunks[i];
        proof {
            assert(chunks@.take(i + 1) =~= chunks@.take(i as int).push(c));
            chunks@.take(i as int).lemma_filter_push(c, pred);
        }
        let crx = region_coord_of(c.0);
        let crz = region_coord_of(c.1);
        if crx == rx && crz == rz {
            r.push(c);
        }
        i = i + 1;
    }
    assert(chunks@.take(i as int) =~= chunks@);
    r
}

/// A chunk read from its region file: its NBT bytes and the blocks they
/// hold.
pub struct CachedChunk {
    nbt: Vec<u8>,
    blocks: BlockMap,
}

/// The blocks of a world: those players changed, the chunks read from
/// region files, and the chunks changed since the last save.
pub struct WorldBlocks {
    blocks: BlockMap,
    chunk_cache: HashMap<u64, CachedChunk>,
    dirty_chunks: Vec<ChunkPos>,
}

impl WorldBlocks {
    /// The blocks players changed.
    pub closed spec fn modified(&self) -> Map<BlockPos, Block> {
        self.blocks@
    }

    /// The NBT bytes of the cached chunks.
    pub closed spec fn cached(&self) -> Map<ChunkPos, Seq<u8>> {
        Map::new(
            |c: ChunkPos| self.chunk_cache@.contains_key(chunk_key(c)),
            |c: ChunkPos| self.chunk_cache@[chunk_key(c)].nbt@,
        )
    }

    /// The chunks changed since the last save, in the order first changed.
    pub closed spec fn dirty(&self) -> Seq<ChunkPos> {
        self.dirty_chunks@
    }

    /// Cached chunks can be read, their blocks are those of their bytes,
    /// and no chunk is waiting twice.
    pub closed spec fn wf(&self) -> bool {
        &&& forall|k: u64| #[trigger] self.chunk_cache@.contains_key(k) ==> {
            &&& chunk_loadable(self.chunk_cache@[k].nbt@)
            &&& self.chunk_cache@[k].blocks@ == load_chunk(Map::empty(), self.chunk_cache@[k].nbt@, None)
        }
        &&& self.dirty_chunks@.no_duplicates()
        &&& forall|i: int| 0 <= i < self.dirty_chunks@.len() ==> chunk_in_range(#[trigger] self.dirty_chunks@[i])
    }

    /// The block at a position.
    pub open spec fn block_at(&self, g: FlatWorldGenerator, p: BlockPos) -> Block {
        world_block(self.modified(), self.cached(), g, p)
    }

    /// A world with no changes and nothing cached.
    pub fn new() -> (w: Self)
        ensures
            w.wf(),
            w.modified() == Map::<BlockPos, Block>::empty(),
            w.cached() == Map::<ChunkPos, Seq<u8>>::empty(),
            w.dirty() == Seq::<ChunkPos>::empty(),
    {
        let w = WorldBlocks { blocks: BlockMap::new(), chunk_cache: HashMap::new(), dirty_chunks: Vec::new() };
        assert(w.cached() =~= Map::<ChunkPos, Seq<u8>>::empty());
        w
    }

    /// The blocks players changed.
    pub fn changed_blocks(&self) -> (r: &BlockMap)
        ensures
            r@ == self.modified(),
    {
        &self.blocks
    }

    /// The NBT bytes of a cached chunk. A chunk that is not cached is read
    /// from its region file by the caller and handed to `cache_chunk`.
    pub fn get_chunk_nbt(&self, chunk_x: i32, chunk_z: i32) -> (r: Option<Vec<u8>>)
        ensures
            r is Some <==> self.cached().contains_key((chunk_x, chunk_z)),
            r matches Some(v) ==> v@ == self.cached()[(chunk_x, chunk_z)],
            r matches Some(v) ==> self.wf() ==> chunk_loadable(v@),
    {
        let k = key_of_chunk(chunk_x, chunk_z);
        match self.chunk_cache.get(&k) {
            Some(c) => {
                let v = c.nbt.clone();
                assert(v@ == c.nbt@);
                Some(v)
            },
            None => None,
        }
    }

    /// Caches the NBT bytes of a chunk read from its region file.
    pub fn cache_chunk(&mut self, chunk_x: i32, chunk_z: i32, nbt: Vec<u8>)
        requires
            old(self).wf(),
            chunk_loadable(nbt@),
        ensures
            final(self).wf(),
            final(self).modified() == old(self).modified(),
            final(self).cached() == old(self).cached().insert((chunk_x, chunk_z), nbt@),
            final(self).dirty() == old(self).dirty(),
    {
        let mut blocks = BlockMap::new();
        nbt_to_blocks_raw(&nbt, &mut blocks);
        let k = key_of_chunk(chunk_x, chunk_z);
        let ghost nv = nbt@;
        self.chunk_cache.insert(k, CachedChunk { nbt, blocks });
        proof {
            assert forall|c: ChunkPos| #![auto] chunk_key(c) == k implies c == (chunk_x, chunk_z) by {
                lemma_chunk_key_injective(c, (chunk_x, chunk_z));
            }
        }
        assert(self.cached() =~= old(self).cached().insert((chunk_x, chunk_z), nv));
    }

    /// Caches a chunk from the bytes of its region file, when it is not
    /// cached yet and the file holds it readably; gives its NBT bytes. A
    /// record that cannot be cut out, a stream that does not inflate, and
    /// NBT that cannot be loaded give `None` and leave the world as it is.
    pub fn cache_from_region(&mut self, chunk_x: i32, chunk_z: i32, region_data: &[u8]) -> (r: Option<Vec<u8>>)
        requires
            old(self).wf(),
        ensures
            final(self).wf(),
            final(self).modified() == old(self).modified(),
            final(self).dirty() == old(self).dirty(),
            old(self).cached().contains_key((chunk_x, chunk_z)) ==> (r matches Some(v) && v@ == old(self).cached()[(
                chunk_x,
                chunk_z,
            )]) && final(self).cached() == old(self).cached(),
            !old(self).cached().contains_key((chunk_x, chunk_z)) ==> {
                let loaded = chunk_readable(region_data@, chunk_x, chunk_z) && (chunk_read(region_data@, chunk_x, chunk_z)
                    matches Some(n) && chunk_loadable(n));
                &&& loaded ==> (r matches Some(v) && Some(v@) == chunk_read(region_data@, chunk_x, chunk_z))
                    && final(self).cached() == old(self).cached().insert(
                    (chunk_x, chunk_z),
                    chunk_read(region_data@, chunk_x, chunk_z).unwrap(),
                )
                &&& !loaded ==> r is None && final(self).cached() == old(self).cached()
            },
    {
        if let Some(nbt) = self.get_chunk_nbt(chunk_x, chunk_z) {
            return Some(nbt);
        }
        if !RegionFile::record_is_sliceable(region_data, chunk_x, chunk_z) {
            return None;
        }
        let nbt = match RegionFile::chunk_from_bytes(region_data, chunk_x, chunk_z) {
            Some(nbt) => nbt,
            None => return None,
        };
        if !chunk_nbt_loadable(&nbt) {
            return None;
        }
        let ghost n = nbt@;
        let copy = nbt.clone();
        assert(copy@ == n);
        self.cache_chunk(chunk_x, chunk_z, nbt);
        Some(copy)
    }

    /// The block at a position: a changed block, else the block of its
    /// cached chunk, else the generated one.
    pub fn get(&self, x: i32, y: u8, z: i32, generator: &FlatWorldGenerator) -> (b: Block)
        requires
            self.wf(),
        ensures
            b == self.block_at(*generator, (x, y, z)),
    {
        if let Some(b) = self.blocks.get(x, y, z) {
            return b;
        }
        let cx = chunk_coord_of(x);
        let cz = chunk_coord_of(z);
        let k = key_of_chunk(cx, cz);
        match self.chunk_cache.get(&k) {
            Some(c) => {
                assert(self.cached().contains_key((cx, cz)));
                match c.blocks.get(x, y, z) {
                    Some(b) => b,
                    None => Block::air(),
                }
            },
            None => {
                assert(!self.cached().contains_key((cx, cz)));
                generator.get(y)
            },
        }
    }

    /// Records the chunk as changed.
    fn mark_dirty(&mut self, chunk_x: i32, chunk_z: i32)
        requires
            old(self).wf(),
            chunk_in_range((chunk_x, chunk_z)),
        ensures
            final(self).wf(),
            final(self).modified() == old(self).modified(),
            final(self).cached() == old(self).cached(),
            final(self).dirty() == (if old(self).dirty().contains((chunk_x, chunk_z)) {
                old(self).dirty()
            } else {
                old(self).dirty().push((chunk_x, chunk_z))
            }),
    {
        let mut i: usize = 0;
        while i < self.dirty_chunks.len()
            invariant
                i <= self.dirty_chunks@.len(),
                *self == *old(self),
                old(self).wf(),
                chunk_in_range((chunk_x, chunk_z)),
                forall|j: int| 0 <= j < i ==> self.dirty_chunks@[j] != (chunk_x, chunk_z),
            decreases self.dirty_chunks.len() - i,
        {
            let c = self.dirty_chunks[i];
            if c.0 == chunk_x && c.1 == chunk_z {
                assert(self.dirty_chunks@[i as int] == (chunk_x, chunk_z));
                return;
            }
            i = i + 1;
        }
        self.dirty_chunks.push((chunk_x, chunk_z));
        assert(self.dirty_chunks@.no_duplicates());
    }

    /// Sets the block at a position: the change is forgotten when the block
    /// is what the generator makes there, kept otherwise; its chunk is
    /// marked changed.
    pub fn set(&mut self, x: i32, y: u8, z: i32, block: Block, generator: &FlatWorldGenerator)
        requires
            old(self).wf(),
        ensures
            final(self).wf(),
            final(self).modified() == after_set(old(self).modified(), *generator, (x, y, z), block),
            final(self).cached() == old(self).cached(),
            final(self).dirty() == (if old(self).dirty().contains(chunk_of((x, y, z))) {
                old(self).dirty()
            } else {
                old(self).dirty().push(chunk_of((x, y, z)))
            }),
    {
        let gen_block = generator.get(y);
        let cx = chunk_coord_of(x);
        let cz = chunk_coord_of(z);
        if block.id == gen_block.id && block.metadata == gen_block.metadata {
            self.blocks.remove(x, y, z);
        } else {
            self.blocks.insert(x, y, z, block);
        }
        assert(self.cached() =~= old(self).cached());
        self.mark_dirty(cx, cz);
    }

    /// The changed chunks grouped by region: each region holding a changed
    /// chunk once, in the order its first changed chunk was changed, with
    /// its changed chunks in their order.
    pub fn dirty_by_region(&self) -> (r: Vec<(i32, i32, Vec<ChunkPos>)>)
        ensures
            forall|i: int, j: int|
                #![trigger r@[i], r@[j]]
                0 <= i < j < r@.len() ==> (r@[i].0, r@[i].1) != (r@[j].0, r@[j].1),
            forall|i: int|
                0 <= i < r@.len() ==> (#[trigger] r@[i]).2@ == self.dirty().filter(in_region(r@[i].0, r@[i].1)),
            forall|i: int|
                0 <= i < r@.len() ==> region_seen(self.dirty(), self.dirty().len() as int, ((#[trigger] r@[i]).0, r@[i].1)),
            forall|k: int| 0 <= k < self.dirty().len() ==> lists_region(r@, region_of(#[trigger] self.dirty()[k])),
    {
        let dirty = self.dirty_chunks();
        let mut regions: Vec<(i32, i32)> = Vec::new();
        let mut k: usize = 0;
        while k < dirty.len()
            invariant
                k <= dirty@.len(),
                dirty@ == self.dirty(),
                regions@.no_duplicates(),
                forall|i: int| 0 <= i < regions@.len() ==> region_seen(dirty@, k as int, #[trigger] regions@[i]),
                forall|j: int| 0 <= j < k ==> regions@.contains(region_of(#[trigger] dirty@[j])),
            decreases dirty.len() - k,
        {
            let c = dirty[k];
            let rc = (region_coord_of(c.0), region_coord_of(c.1));
            let mut i: usize = 0;
            let mut found = false;
            while i < regions.len()
                invariant
                    i <= regions@.len(),
                    !found ==> forall|j: int| 0 <= j < i ==> regions@[j] != rc,
                    found ==> regions@.contains(rc),
                decreases regions.len() - i,
            {
                let r = regions[i];
                if r.0 == rc.0 && r.1 == rc.1 {
                    assert(regions@[i as int] == rc);
                    found = true;
                }
                i = i + 1;
            }
            let ghost before = regions@;
            if !found {
                regions.push(rc);
                proof {
                    assert forall|a: int, b: int| 0 <= a < b < regions@.len() implies regions@[a] != regions@[b] by {
                        if b == regions@.len() - 1 {
                            assert(regions@[a] == before[a]);
                        }
                    }
                }
            }
            proof {
                assert(region_of(dirty@[k as int]) == rc);
                assert(regions@.contains(rc)) by {
                    if !found {
                        assert(regions@[regions@.len() - 1] == rc);
                    }
                }
                assert forall|j: int| 0 <= j < k + 1 implies regions@.contains(region_of(#[trigger] dirty@[j])) by {
                    if j < k {
                        let r0 = region_of(dirty@[j]);
                        assert(before.contains(r0));
                        let a = before.index_of(r0);
                        assert(regions@[a] == r0);
                    }
                }
                assert forall|a: int| 0 <= a < regions@.len() implies region_seen(dirty@, k + 1, #[trigger] regions@[a]) by {
                    if a < before.len() {
                        assert(regions@[a] == before[a]);
                        assert(region_seen(dirty@, k as int, before[a]));
                        let j = choose|j: int| 0 <= j < k && region_of(#[trigger] dirty@[j]) == before[a];
                        assert(region_of(dirty@[j]) == regions@[a]);
                    } else {
                        assert(region_of(dirty@[k as int]) == regions@[a]);
                    }
                }
            }
            k = k + 1;
        }
        let mut out: Vec<(i32, i32, Vec<ChunkPos>)> = Vec::new();
        let mut i: usize = 0;
        while i < regions.len()
            invariant
                i <= regions@.len(),
                dirty@ == self.dirty(),
                regions@.no_duplicates(),
                forall|a: int| 0 <= a < regions@.len() ==> region_seen(dirty@, dirty@.len() as int, #[trigger] regions@[a]),
                forall|j: int| 0 <= j < dirty@.len() ==> regions@.contains(region_of(#[trigger] dirty@[j])),
                out@.len() == i,
                forall|m: int| 0 <= m < i ==> ((#[trigger] out@[m]).0, out@[m].1) == regions@[m],
                forall|m: int|
                    0 <= m < i ==> (#[trigger] out@[m]).2@ == dirty@.filter(in_region(out@[m].0, out@[m].1)),
            decreases regions.len() - i,
        {
            let r = regions[i];
            let cs = chunks_in_region(&dirty, r.0, r.1);
            out.push((r.0, r.1, cs));
            i = i + 1;
        }
        proof {
            assert forall|a: int, b: int| #![trigger out@[a], out@[b]] 0 <= a < b < out@.len() implies (out@[a].0, out@[a].1) != (
            out@[b].0, out@[b].1) by {
                assert(regions@[a] != regions@[b]);
            }
            assert forall|a: int| 0 <= a < out@.len() implies region_seen(
                self.dirty(),
                self.dirty().len() as int,
                ((#[trigger] out@[a]).0, out@[a].1),
            ) by {
                assert(regions@[a] == (out@[a].0, out@[a].1));
            }
            assert forall|j: int| 0 <= j < self.dirty().len() implies lists_region(
                out@,
                region_of(#[trigger] self.dirty()[j]),
            ) by {
                assert(regions@.contains(region_of(dirty@[j])));
                let a = regions@.index_of(region_of(dirty@[j]));
                assert(regions@[a] == region_of(dirty@[j]));
                assert((out@[a].0, out@[a].1) == regions@[a]);
            }
        }
        out
    }

    /// The bytes of a region file after saving one chunk into `data`.
    fn save_chunk(
        &self,
        region: &RegionFile,
        data: Vec<u8>,
        c: ChunkPos,
        generator: &FlatWorldGenerator,
        timestamp: u32,
    ) -> (r: Option<Vec<u8>>)
        requires
            self.wf(),
            chunk_in_range(c),
        ensures
            ({
                let z = zlib_compressed(saved_chunk_nbt(c, self.modified(), self.cached(), *generator));
                &&& r is Some <==> data@.len() <= 0x4000_0000 && z.len() <= 0x1000_0000
                &&& r matches Some(v) ==> v@ == region_after_write(data@, c.0, c.1, z, timestamp)
            }),
    {
        let k = key_of_chunk(c.0, c.1);
        let is_new = !self.chunk_cache.contains_key(&k);
        assert(is_new == !self.cached().contains_key(c));
        let nbt = chunk_to_nbt(c.0, c.1, &self.blocks, generator, Vec::new(), is_new);
        proof {
            assert(models(Seq::<NbtTag>::empty()) =~= Seq::<NbtValue>::empty());
            assert(nbt@ == saved_chunk_nbt(c, self.modified(), self.cached(), *generator));
        }
        region.write_chunk_bytes(data, c.0, c.1, &nbt, timestamp)
    }

    /// The bytes of a region file after saving the given chunks of it into
    /// `file_data`, one after another, each with the timestamp; `None` once
    /// the file or a compressed chunk grows past what can be placed.
    pub fn save_region(
        &self,
        region: &RegionFile,
        file_data: Vec<u8>,
        chunks: &Vec<ChunkPos>,
        generator: &FlatWorldGenerator,
        timestamp: u32,
    ) -> (r: Option<Vec<u8>>)
        requires
            self.wf(),
            forall|i: int| 0 <= i < chunks@.len() ==> chunk_in_range(#[trigger] chunks@[i]),
        ensures
            r matches Some(v) ==> region_after_saves(file_data@, chunks@, self.modified(), self.cached(), *generator, timestamp) == Some(v@),
            r is None ==> region_after_saves(file_data@, chunks@, self.modified(), self.cached(), *generator, timestamp) is None,
    {
        let ghost d = file_data@;
        let ghost m = self.modified();
        let ghost ca = self.cached();
        let ghost g = *generator;
        let mut data = file_data;
        proof {
            lemma_saves_none_yet(d, chunks@, m, ca, g, timestamp);
        }
        let mut i: usize = 0;
        while i < chunks.len()
            invariant
                i <= chunks@.len(),
                self.wf(),
                m == self.modified(),
                ca == self.cached(),
                g == *generator,
                d == file_data@,
                forall|j: int| 0 <= j < chunks@.len() ==> chunk_in_range(#[trigger] chunks@[j]),
                region_after_saves(d, chunks@.take(i as int), m, ca, g, timestamp) == Some(data@),
            decreases chunks.len() - i,
        {
            let c = chunks[i];
            assert(chunk_in_range(chunks@[i as int]));
            proof {
                lemma_saves_step(d, chunks@, i as int, m, ca, g, timestamp, data@);
            }
            match self.save_chunk(region, data, c, generator, timestamp) {
                Some(next) => {
                    data = next;
                },
                None => {
                    proof {
                        lemma_saves_none_stays(d, chunks@, i as int + 1, m, ca, g, timestamp);
                    }
                    return None;
                },
            }
            i = i + 1;
        }
        assert(chunks@.take(i as int) =~= chunks@);
        Some(data)
    }

    /// The chunks changed since the last save.
    pub fn dirty_chunks(&self) -> (r: Vec<ChunkPos>)
        ensures
            r@ == self.dirty(),
    {
        let mut r: Vec<ChunkPos> = Vec::new();
        let mut i: usize = 0;
        while i < self.dirty_chunks.len()
            invariant
                i <= self.dirty_chunks@.len(),
                r@ == self.dirty_chunks@.subrange(0, i as int),
            decreases self.dirty_chunks.len() - i,
        {
            r.push(self.dirty_chunks[i]);
            i = i + 1;
            assert(r@ =~= self.dirty_chunks@.subrange(0, i as int));
        }
        assert(r@ =~= self.dirty_chunks@);
        r
    }

    /// Forgets the changed chunks, once they are saved.
    pub fn clear_dirty(&mut self)
        requires
            old(self).wf(),
        ensures
            final(self).wf(),
            final(self).modified() == old(self).modified(),
            final(self).cached() == old(self).cached(),
            final(self).dirty() == Seq::<ChunkPos>::empty(),
    {
        self.dirty_chunks = Vec::new();
        assert(self.cached() =~= old(self).cached());
    }
}

} // verus!
