//! Chunk payloads sent to clients: the 1.8 layout of block states per
//! present section, and the 1.7 layout of ids and metadata nibbles.

use vstd::prelude::*;
use crate::world::blocks::{air_block, Block, BlockMap, BlockPos};
use crate::world::generator::FlatWorldGenerator;
use crate::world::world_blocks::WorldBlocks;
use crate::world::anvil::{load_chunk, nbt_to_blocks_raw};
use crate::world::chunk_roundtrip::in_column;
use crate::world::compression::{deflate_compress, deflate_compressed};
use crate::protocol::packets::PacketOut;
use crate::protocol::wire::{be_bytes, varint_enc};
use crate::protocol::writer::Writer;

verus! {

/// The 16-bit block state of the 1.8 protocol: id in the high bits, the
/// metadata nibble in the low four.
pub open spec fn state_of(b: Block) -> u16 {
    (b.id as int * 16 + b.metadata as int % 16) as u16
}

/// Computes `state_of`.
pub fn block_state(b: Block) -> (s: u16)
    ensures
        s == state_of(b),
{
    let id = b.id as u16;
    let meta = b.metadata as u16;
    let s = (id << 4) | (meta & 0xF);
    assert(s == id * 16 + meta % 16) by (bit_vector)
        requires
            s == (id << 4) | (meta & 0xF),
            id < 256,
            meta < 256,
    ;
    s
}

/// The position of index `i` of section `s` of chunk (`cx`, `cz`):
/// x fastest, then z, then y.
pub open spec fn section_pos(cx: i32, cz: i32, s: int, i: int) -> BlockPos {
    ((16 * cx + i % 16) as i32, (16 * s + i / 256) as u8, (16 * cz + (i / 16) % 16) as i32)
}

/// The block a map holds at `p`, air when none.
pub open spec fn map_block(m: Map<BlockPos, Block>, p: BlockPos) -> Block {
    if m.contains_key(p) {
        m[p]
    } else {
        air_block()
    }
}

/// Whether section `s` holds a block other than air in the map.
pub open spec fn section_has_blocks(m: Map<BlockPos, Block>, cx: i32, cz: i32, s: int) -> bool {
    exists|i: int| 0 <= i < 4096 && #[trigger] map_block(m, section_pos(cx, cz, s, i)).id != 0
}

/// Section `s` is sent: it holds blocks, or it is the bottom section.
pub open spec fn section_present(m: Map<BlockPos, Block>, cx: i32, cz: i32, s: int) -> bool {
    section_has_blocks(m, cx, cz, s) || s == 0
}

/// The bitmask of present sections among the first `k`.
pub open spec fn mask_upto(m: Map<BlockPos, Block>, cx: i32, cz: i32, k: int) -> int
    decreases k,
{
    if k <= 0 {
        0
    } else {
        mask_upto(m, cx, cz, k - 1) + if section_present(m, cx, cz, k - 1) {
            vstd::arithmetic::power2::pow2((k - 1) as nat) as int
        } else {
            0
        }
    }
}

/// How many of the first `k` sections are present.
pub open spec fn count_upto(m: Map<BlockPos, Block>, cx: i32, cz: i32, k: int) -> int
    decreases k,
{
    if k <= 0 {
        0
    } else {
        count_upto(m, cx, cz, k - 1) + if section_present(m, cx, cz, k - 1) {
            1int
        } else {
            0
        }
    }
}

/// The little-endian block states of section `s`, 8192 bytes.
pub open spec fn section_states(m: Map<BlockPos, Block>, cx: i32, cz: i32, s: int) -> Seq<u8> {
    Seq::new(
        8192,
        |j: int|
            {
                let st = state_of(map_block(m, section_pos(cx, cz, s, j / 2)));
                if j % 2 == 0 {
                    (st % 256) as u8
                } else {
                    (st / 256) as u8
                }
            },
    )
}

/// The states of the present sections among the first `k`, in order.
pub open spec fn states_upto(m: Map<BlockPos, Block>, cx: i32, cz: i32, k: int) -> Seq<u8>
    decreases k,
{
    if k <= 0 {
        seq![]
    } else {
        states_upto(m, cx, cz, k - 1) + if section_present(m, cx, cz, k - 1) {
            section_states(m, cx, cz, k - 1)
        } else {
            seq![]
        }
    }
}

/// `n` copies of `b`.
pub open spec fn filled(b: u8, n: int) -> Seq<u8> {
    Seq::new(n as nat, |i: int| b)
}

/// The 1.8 chunk payload: states of the present sections, full block light
/// and sky light for each of them, then 256 plains biomes.
pub open spec fn chunk18_data(m: Map<BlockPos, Block>, cx: i32, cz: i32) -> Seq<u8> {
    states_upto(m, cx, cz, 16) + filled(0xFF, 2048 * count_upto(m, cx, cz, 16)) + filled(
        0xFF,
        2048 * count_upto(m, cx, cz, 16),
    ) + filled(1, 256)
}

/// Appends `n` copies of `b`.
pub(crate) fn push_filled(out: &mut Vec<u8>, b: u8, n: usize)
    ensures
        final(out)@ == old(out)@ + filled(b, n as int),
{
    let mut i: usize = 0;
    while i < n
        invariant
            i <= n,
            out@ == old(out)@ + filled(b, i as int),
        decreases n - i,
    {
        out.push(b);
        i = i + 1;
        assert(out@ =~= old(out)@ + filled(b, i as int));
    }
}

/// Computes `section_pos`.
pub(crate) fn section_position(cx: i32, cz: i32, s: usize, i: usize) -> (p: (i32, u8, i32))
    requires
        -0x800_0000 <= cx < 0x800_0000,
        -0x800_0000 <= cz < 0x800_0000,
        s < 16,
        i < 4096,
    ensures
        p == section_pos(cx, cz, s as int, i as int),
{
    let x = (i % 16) as i32;
    let z = ((i / 16) % 16) as i32;
    let y = (s * 16 + i / 256) as u8;
    (cx * 16 + x, y, cz * 16 + z)
}

/// Whether section `s` holds a block other than air.
fn has_blocks(chunk_blocks: &BlockMap, cx: i32, cz: i32, s: usize) -> (r: bool)
    requires
        -0x800_0000 <= cx < 0x800_0000,
        -0x800_0000 <= cz < 0x800_0000,
        s < 16,
    ensures
        r == section_has_blocks(chunk_blocks@, cx, cz, s as int),
{
    let mut i: usize = 0;
    while i < 4096
        invariant
            i <= 4096,
            -0x800_0000 <= cx < 0x800_0000,
            -0x800_0000 <= cz < 0x800_0000,
            s < 16,
            forall|j: int| 0 <= j < i ==> #[trigger] map_block(chunk_blocks@, section_pos(cx, cz, s as int, j)).id == 0,
        decreases 4096 - i,
    {
        let (x, y, z) = section_position(cx, cz, s, i);
        match chunk_blocks.get(x, y, z) {
            Some(b) => {
                if b.id != 0 {
                    assert(map_block(chunk_blocks@, section_pos(cx, cz, s as int, i as int)).id != 0);
                    return true;
                }
            },
            None => {},
        }
        i = i + 1;
    }
    false
}

/// Appends the little-endian states of section `s`.
fn push_section_states(out: &mut Vec<u8>, chunk_blocks: &BlockMap, cx: i32, cz: i32, s: usize)
    requires
        -0x800_0000 <= cx < 0x800_0000,
        -0x800_0000 <= cz < 0x800_0000,
        s < 16,
    ensures
        final(out)@ == old(out)@ + section_states(chunk_blocks@, cx, cz, s as int),
{
    let ghost target = section_states(chunk_blocks@, cx, cz, s as int);
    let mut i: usize = 0;
    while i < 4096
        invariant
            i <= 4096,
            -0x800_0000 <= cx < 0x800_0000,
            -0x800_0000 <= cz < 0x800_0000,
            s < 16,
            target == section_states(chunk_blocks@, cx, cz, s as int),
            out@ == old(out)@ + target.subrange(0, 2 * i as int),
        decreases 4096 - i,
    {
        let (x, y, z) = section_position(cx, cz, s, i);
        let block = match chunk_blocks.get(x, y, z) {
            Some(b) => b,
            None => Block::air(),
        };
        let state = block_state(block);
        out.push((state % 256) as u8);
        out.push((state / 256) as u8);
        proof {
            assert((2 * i as int) / 2 == i as int);
            assert((2 * i as int + 1) / 2 == i as int);
            assert(target[2 * i as int] == (state % 256) as u8);
            assert(target[2 * i + 1] == (state / 256) as u8);
        }
        assert(out@ =~= old(out)@ + target.subrange(0, 2 * (i + 1) as int));
        i = i + 1;
    }
    assert(target.subrange(0, 8192) =~= target);
}

/// The 1.8 chunk payload and the bitmask of its sections, built from the
/// blocks of the chunk: a section is sent when it holds a block other than
/// air, and the bottom section always.
pub fn build_chunk_data_18_from_map(chunk_x: i32, chunk_z: i32, chunk_blocks: &BlockMap) -> (r: (Vec<u8>, u16))
    requires
        -0x800_0000 <= chunk_x < 0x800_0000,
        -0x800_0000 <= chunk_z < 0x800_0000,
    ensures
        r.0@ == chunk18_data(chunk_blocks@, chunk_x, chunk_z),
        r.1 == mask_upto(chunk_blocks@, chunk_x, chunk_z, 16),
{
    let ghost m = chunk_blocks@;
    let mut bitmask: u32 = 0;
    let mut bit: u32 = 1;
    let mut count: usize = 0;
    let mut data: Vec<u8> = Vec::new();
    let mut s: usize = 0;
    proof {
        vstd::arithmetic::power2::lemma2_to64();
    }
    while s < 16
        invariant
            s <= 16,
            m == chunk_blocks@,
            -0x800_0000 <= chunk_x < 0x800_0000,
            -0x800_0000 <= chunk_z < 0x800_0000,
            bit == vstd::arithmetic::power2::pow2(s as nat),
            bitmask == mask_upto(m, chunk_x, chunk_z, s as int),
            bitmask < bit,
            count == count_upto(m, chunk_x, chunk_z, s as int),
            count <= s,
            data@ == states_upto(m, chunk_x, chunk_z, s as int),
        decreases 16 - s,
    {
        proof {
            vstd::arithmetic::power2::lemma2_to64();
            if s < 15 {
                vstd::arithmetic::power2::lemma_pow2_strictly_increases(s as nat, 15);
            }
        }
        let present = has_blocks(chunk_blocks, chunk_x, chunk_z, s) || s == 0;
        if present {
            push_section_states(&mut data, chunk_blocks, chunk_x, chunk_z, s);
            bitmask = bitmask + bit;
            count = count + 1;
        }
        proof {
            vstd::arithmetic::power2::lemma_pow2_unfold((s + 1) as nat);
            vstd::arithmetic::power2::lemma2_to64();
        }
        bit = bit * 2;
        s = s + 1;
    }
    proof {
        vstd::arithmetic::power2::lemma2_to64();
    }
    push_filled(&mut data, 0xFF, 2048 * count);
    push_filled(&mut data, 0xFF, 2048 * count);
    push_filled(&mut data, 1, 256);
    (data, bitmask as u16)
}

/// The 1.7 chunk payload of the bottom section: block ids, then metadata
/// nibbles (low nibble first), full block light, full sky light, and 256
/// plains biomes.
pub open spec fn chunk17_data(m: Map<BlockPos, Block>, cx: i32, cz: i32) -> Seq<u8> {
    Seq::new(4096, |i: int| map_block(m, section_pos(cx, cz, 0, i)).id) + Seq::new(
        2048,
        |j: int|
            (map_block(m, section_pos(cx, cz, 0, 2 * j)).metadata % 16 + 16 * (map_block(
                m,
                section_pos(cx, cz, 0, 2 * j + 1),
            ).metadata % 16)) as u8,
    ) + filled(0xFF, 2048) + filled(0xFF, 2048) + filled(1, 256)
}

/// The 1.7 chunk payload built from the blocks of the chunk.
pub fn build_chunk_data_17_from_map(chunk_x: i32, chunk_z: i32, chunk_blocks: &BlockMap) -> (data: Vec<u8>)
    requires
        -0x800_0000 <= chunk_x < 0x800_0000,
        -0x800_0000 <= chunk_z < 0x800_0000,
    ensures
        data@ == chunk17_data(chunk_blocks@, chunk_x, chunk_z),
{
    let ghost m = chunk_blocks@;
    let ghost ids = Seq::new(4096, |i: int| map_block(m, section_pos(chunk_x, chunk_z, 0, i)).id);
    let ghost nibbles = Seq::new(
        2048,
        |j: int|
            (map_block(m, section_pos(chunk_x, chunk_z, 0, 2 * j)).metadata % 16 + 16 * (map_block(
                m,
                section_pos(chunk_x, chunk_z, 0, 2 * j + 1),
            ).metadata % 16)) as u8,
    );
    let mut blocks: Vec<u8> = Vec::new();
    let mut metadata: Vec<u8> = Vec::new();
    let mut j: usize = 0;
    while j < 2048
        invariant
            j <= 2048,
            m == chunk_blocks@,
            -0x800_0000 <= chunk_x < 0x800_0000,
            -0x800_0000 <= chunk_z < 0x800_0000,
            ids == Seq::new(4096, |i: int| map_block(m, section_pos(chunk_x, chunk_z, 0, i)).id),
            nibbles == Seq::new(
                2048,
                |j: int|
                    (map_block(m, section_pos(chunk_x, chunk_z, 0, 2 * j)).metadata % 16 + 16 * (map_block(
                        m,
                        section_pos(chunk_x, chunk_z, 0, 2 * j + 1),
                    ).metadata % 16)) as u8,
            ),
            blocks@ == ids.subrange(0, 2 * j as int),
            metadata@ == nibbles.subrange(0, j as int),
        decreases 2048 - j,
    {
        let (x0, y0, z0) = section_position(chunk_x, chunk_z, 0, 2 * j);
        let (x1, y1, z1) = section_position(chunk_x, chunk_z, 0, 2 * j + 1);
        let b0 = match chunk_blocks.get(x0, y0, z0) {
            Some(b) => b,
            None => Block::air(),
        };
        let b1 = match chunk_blocks.get(x1, y1, z1) {
            Some(b) => b,
            None => Block::air(),
        };
        blocks.push(b0.id);
        blocks.push(b1.id);
        let m0 = b0.metadata;
        let m1 = b1.metadata;
        let low = m0 & 0x0F;
        let high = m1 & 0x0F;
        let packed = low | (high << 4);
        assert(low == m0 % 16 && high == m1 % 16 && low < 16 && high < 16) by (bit_vector)
            requires
                low == m0 & 0x0F,
                high == m1 & 0x0F,
        ;
        assert(packed == low + 16 * high) by (bit_vector)
            requires
                low < 16,
                high < 16,
                packed == low | (high << 4),
        ;
        metadata.push(packed);
        assert(blocks@ =~= ids.subrange(0, 2 * (j + 1) as int));
        assert(metadata@ =~= nibbles.subrange(0, (j + 1) as int));
        j = j + 1;
    }
    assert(blocks@ =~= ids);
    assert(metadata@ =~= nibbles);
    let mut data: Vec<u8> = Vec::new();
    data.append(&mut blocks);
    data.append(&mut metadata);
    push_filled(&mut data, 0xFF, 2048);
    push_filled(&mut data, 0xFF, 2048);
    push_filled(&mut data, 1, 256);
    assert(data@ =~= chunk17_data(chunk_blocks@, chunk_x, chunk_z));
    data
}

/// The state of the block at a position: the map's block, or the
/// generator's when the map has none.
fn get_block_state(
    snapshot: &BlockMap,
    wx: i32,
    wy: u8,
    wz: i32,
    generator: &FlatWorldGenerator,
) -> (s: u16)
    ensures
        s == state_of(
            if snapshot@.contains_key((wx, wy, wz)) {
                snapshot@[(wx, wy, wz)]
            } else {
                generator.block_at(wy)
            },
        ),
{
    let block = match snapshot.get(wx, wy, wz) {
        Some(b) => b,
        None => generator.get(wy),
    };
    block_state(block)
}

/// The chunk payload packet.
#[derive(Debug)]
pub struct ChunkData {
    pub chunk_x: i32,
    pub chunk_z: i32,
    pub client_protocol: i32,
    pub data: Vec<u8>,
    pub primary_bitmask: u16,
}

impl PacketOut for ChunkData {
    open spec fn encodable(&self) -> bool {
        self.client_protocol == 47 ==> self.data@.len() <= i32::MAX
    }

    /// Position and the ground-up flag, then for 1.8 clients (protocol 47)
    /// the section mask and the data as it is, for 1.7 clients section 0
    /// alone, no add mask, and the data deflated with its 32-bit length.
    open spec fn wire(&self) -> Seq<u8> {
        varint_enc(0x21) + be_bytes(self.chunk_x as int, 4) + be_bytes(self.chunk_z as int, 4) + seq![1u8] + if self.client_protocol
            == 47 {
            be_bytes(self.primary_bitmask as int, 2) + varint_enc(self.data@.len()) + self.data@
        } else {
            be_bytes(1, 2) + be_bytes(0, 2) + be_bytes(deflate_compressed(self.data@).len() as i32 as int, 4)
                + deflate_compressed(self.data@)
        }
    }

    fn encode(&self, writer: &mut Writer) -> (r: std::io::Result<()>) {
        writer.write_varint(0x21);
        writer.write_i32(self.chunk_x);
        writer.write_i32(self.chunk_z);
        writer.write_bool(true);
        if self.client_protocol == 47 {
            writer.write_u16(self.primary_bitmask);
            writer.write_varint(self.data.len() as i32);
            writer.write_bytes(self.data.as_slice());
        } else {
            writer.write_u16(0x0001);
            writer.write_u16(0x0000);
            let compressed = deflate_compress(self.data.as_slice());
            writer.write_i32(compressed.len() as i32);
            writer.write_bytes(compressed.as_slice());
        }
        assert(writer.data@ =~= old(writer).data@ + self.wire());
        Ok(())
    }
}

/// Whether a position of chunk (`cx`, `cz`) comes before column (`x`, `z`)
/// at height `y`, columns in order of x, then z, then height.
pub open spec fn column_done(cx: i32, cz: i32, p: BlockPos, x: int, z: int, y: int) -> bool {
    let dx = p.0 - 16 * cx;
    let dz = p.2 - 16 * cz;
    in_column(cx, cz, p) && (dx < x || (dx == x && (dz < z || (dz == z && p.1 < y))))
}

/// The loaded blocks with the changed blocks of the positions done laid
/// over them.
pub open spec fn merged_upto(
    loaded: Map<BlockPos, Block>,
    changed: Map<BlockPos, Block>,
    cx: i32,
    cz: i32,
    x: int,
    z: int,
    y: int,
) -> Map<BlockPos, Block> {
    Map::new(
        |p: BlockPos| loaded.contains_key(p) || (column_done(cx, cz, p, x, z, y) && changed.contains_key(p)),
        |p: BlockPos|
            if column_done(cx, cz, p, x, z, y) && changed.contains_key(p) {
                changed[p]
            } else {
                loaded[p]
            },
    )
}

/// The blocks of a chunk: those loaded from its NBT, with the changed
/// blocks of its column laid over them.
pub open spec fn chunk_blocks_merged(loaded: Map<BlockPos, Block>, changed: Map<BlockPos, Block>, cx: i32, cz: i32) -> Map<
    BlockPos,
    Block,
> {
    Map::new(
        |p: BlockPos| loaded.contains_key(p) || (in_column(cx, cz, p) && changed.contains_key(p)),
        |p: BlockPos|
            if in_column(cx, cz, p) && changed.contains_key(p) {
                changed[p]
            } else {
                loaded[p]
            },
    )
}

impl ChunkData {
    /// The chunk packet of (`chunk_x`, `chunk_z`) for a client. A cached
    /// chunk is sent whole in the 1.8 format: its saved blocks with the
    /// world's changed blocks of its column over them, and the mask of
    /// its sections. Otherwise only the bottom section is built, from the
    /// changed blocks and the generator, in the client's format, with mask
    /// 1.
    pub fn build(
        chunk_x: i32,
        chunk_z: i32,
        client_protocol: i32,
        world_blocks: &WorldBlocks,
        generator: &FlatWorldGenerator,
    ) -> (r: Self)
        requires
            -0x800_0000 <= chunk_x < 0x800_0000,
            -0x800_0000 <= chunk_z < 0x800_0000,
            world_blocks.wf(),
        ensures
            r.chunk_x == chunk_x,
            r.chunk_z == chunk_z,
            r.client_protocol == client_protocol,
            world_blocks.cached().contains_key((chunk_x, chunk_z)) ==> ({
                let m = chunk_blocks_merged(
                    load_chunk(Map::empty(), world_blocks.cached()[(chunk_x, chunk_z)], None),
                    world_blocks.modified(),
                    chunk_x,
                    chunk_z,
                );
                &&& r.data@ == chunk18_data(m, chunk_x, chunk_z)
                &&& r.primary_bitmask == mask_upto(m, chunk_x, chunk_z, 16)
            }),
            !world_blocks.cached().contains_key((chunk_x, chunk_z)) ==> r.primary_bitmask == 1 && r.data@ == if client_protocol
                == 47 {
                chunk18_world_data(world_blocks.modified(), *generator, chunk_x, chunk_z)
            } else {
                chunk17_world_data(*world_blocks, *generator, chunk_x, chunk_z)
            },
    {
        if let Some(nbt) = world_blocks.get_chunk_nbt(chunk_x, chunk_z) {
            let mut out = BlockMap::new();
            nbt_to_blocks_raw(nbt.as_slice(), &mut out);
            let ghost loaded = out@;
            let changed = world_blocks.changed_blocks();
            let ghost ch = changed@;
            proof {
                assert(out@ =~= merged_upto(loaded, ch, chunk_x, chunk_z, 0, 0, 0));
            }
            let mut x: i32 = 0;
            while x < 16
                invariant
                    0 <= x <= 16,
                    -0x800_0000 <= chunk_x < 0x800_0000,
                    -0x800_0000 <= chunk_z < 0x800_0000,
                    changed@ == ch,
                    out@ == merged_upto(loaded, ch, chunk_x, chunk_z, x as int, 0, 0),
                decreases 16 - x,
            {
                let mut z: i32 = 0;
                while z < 16
                    invariant
                        0 <= x < 16,
                        0 <= z <= 16,
                        -0x800_0000 <= chunk_x < 0x800_0000,
                        -0x800_0000 <= chunk_z < 0x800_0000,
                        changed@ == ch,
                        out@ == merged_upto(loaded, ch, chunk_x, chunk_z, x as int, z as int, 0),
                    decreases 16 - z,
                {
                    let mut y: u32 = 0;
                    while y < 256
                        invariant
                            0 <= x < 16,
                            0 <= z < 16,
                            y <= 256,
                            -0x800_0000 <= chunk_x < 0x800_0000,
                            -0x800_0000 <= chunk_z < 0x800_0000,
                            changed@ == ch,
                            out@ == merged_upto(loaded, ch, chunk_x, chunk_z, x as int, z as int, y as int),
                        decreases 256 - y,
                    {
                        let wx = chunk_x * 16 + x;
                        let wz = chunk_z * 16 + z;
                        let yy = y as u8;
                        let ghost before = out@;
                        if let Some(b) = changed.get(wx, yy, wz) {
                            out.insert(wx, yy, wz, b);
                        }
                        proof {
                            let p0: BlockPos = (wx, yy, wz);
                            assert(in_column(chunk_x, chunk_z, p0));
                            assert forall|p: BlockPos|
                                column_done(chunk_x, chunk_z, p, x as int, z as int, y + 1) <==> (column_done(
                                    chunk_x,
                                    chunk_z,
                                    p,
                                    x as int,
                                    z as int,
                                    y as int,
                                ) || p == p0) by {
                                if in_column(chunk_x, chunk_z, p) && p.0 - 16 * chunk_x == x && p.2 - 16 * chunk_z == z
                                    && p.1 == y {
                                    assert(p.0 == wx && p.2 == wz && p.1 == yy);
                                }
                            }
                            assert(out@ =~= merged_upto(loaded, ch, chunk_x, chunk_z, x as int, z as int, y + 1));
                        }
                        y = y + 1;
                    }
                    proof {
                        assert(out@ =~= merged_upto(loaded, ch, chunk_x, chunk_z, x as int, z + 1, 0));
                    }
                    z = z + 1;
                }
                proof {
                    assert(out@ =~= merged_upto(loaded, ch, chunk_x, chunk_z, x + 1, 0, 0));
                }
                x = x + 1;
            }
            proof {
                assert(out@ =~= chunk_blocks_merged(loaded, ch, chunk_x, chunk_z));
            }
            let (data, primary_bitmask) = build_chunk_data_18_from_map(chunk_x, chunk_z, &out);
            return ChunkData { chunk_x, chunk_z, client_protocol, data, primary_bitmask };
        }
        let data = if client_protocol == 47 {
            build_chunk_data_18(chunk_x, chunk_z, world_blocks, generator)
        } else {
            build_chunk_data_17(chunk_x, chunk_z, world_blocks, generator)
        };
        ChunkData { chunk_x, chunk_z, client_protocol, data, primary_bitmask: 0x0001 }
    }
}

/// Tells a 1.8 client to drop a chunk: a chunk packet with no sections.
#[derive(Debug)]
pub struct UnloadChunk {
    pub chunk_x: i32,
    pub chunk_z: i32,
}

impl PacketOut for UnloadChunk {
    open spec fn encodable(&self) -> bool {
        true
    }

    open spec fn wire(&self) -> Seq<u8> {
        varint_enc(0x21) + be_bytes(self.chunk_x as int, 4) + be_bytes(self.chunk_z as int, 4) + seq![1u8]
            + be_bytes(0, 2) + varint_enc(0)
    }

    fn encode(&self, writer: &mut Writer) -> (r: std::io::Result<()>) {
        writer.write_varint(0x21);
        writer.write_i32(self.chunk_x);
        writer.write_i32(self.chunk_z);
        writer.write_bool(true);
        writer.write_u16(0x0000);
        writer.write_varint(0);
        assert(writer.data@ =~= old(writer).data@ + self.wire());
        Ok(())
    }
}

/// The block a map of changed blocks gives at `p`: the changed one, else
/// the generated one.
pub open spec fn changed_or_generated(m: Map<BlockPos, Block>, g: FlatWorldGenerator, p: BlockPos) -> Block {
    if m.contains_key(p) {
        m[p]
    } else {
        g.block_at(p.1)
    }
}

/// The 1.8 payload of the bottom section built from the changed blocks and
/// the generator: two little-endian bytes of block state for each of its
/// 4096 blocks, full block light, full sky light, 256 plains biomes.
pub open spec fn chunk18_world_data(m: Map<BlockPos, Block>, g: FlatWorldGenerator, cx: i32, cz: i32) -> Seq<u8> {
    Seq::new(
        8192,
        |j: int|
            {
                let st = state_of(changed_or_generated(m, g, section_pos(cx, cz, 0, j / 2)));
                if j % 2 == 0 {
                    (st % 256) as u8
                } else {
                    (st / 256) as u8
                }
            },
    ) + filled(0xFF, 2048) + filled(0xFF, 2048) + filled(1, 256)
}

/// The 1.8 payload of a chunk's bottom section, from the world's changed
/// blocks and the generator.
pub fn build_chunk_data_18(chunk_x: i32, chunk_z: i32, world_blocks: &WorldBlocks, generator: &FlatWorldGenerator) -> (r: Vec<
    u8,
>)
    requires
        -0x800_0000 <= chunk_x < 0x800_0000,
        -0x800_0000 <= chunk_z < 0x800_0000,
    ensures
        r@ == chunk18_world_data(world_blocks.modified(), *generator, chunk_x, chunk_z),
{
    let snapshot = world_blocks.changed_blocks();
    let ghost m = snapshot@;
    let ghost target = Seq::new(
        8192,
        |j: int|
            {
                let st = state_of(changed_or_generated(m, *generator, section_pos(chunk_x, chunk_z, 0, j / 2)));
                if j % 2 == 0 {
                    (st % 256) as u8
                } else {
                    (st / 256) as u8
                }
            },
    );
    let mut data: Vec<u8> = Vec::new();
    let mut i: usize = 0;
    while i < 4096
        invariant
            i <= 4096,
            -0x800_0000 <= chunk_x < 0x800_0000,
            -0x800_0000 <= chunk_z < 0x800_0000,
            m == snapshot@,
            target.len() == 8192,
            forall|j: int| 0 <= j < 8192 ==> #[trigger] target[j] == {
                let st = state_of(changed_or_generated(m, *generator, section_pos(chunk_x, chunk_z, 0, j / 2)));
                if j % 2 == 0 {
                    (st % 256) as u8
                } else {
                    (st / 256) as u8
                }
            },
            data@ == target.subrange(0, 2 * i as int),
        decreases 4096 - i,
    {
        let (x, y, z) = section_position(chunk_x, chunk_z, 0, i);
        let state = get_block_state(snapshot, x, y, z, generator);
        data.push((state % 256) as u8);
        data.push((state / 256) as u8);
        proof {
            assert((2 * i as int) / 2 == i as int);
            assert((2 * i as int + 1) / 2 == i as int);
        }
        i = i + 1;
        assert(data@ =~= target.subrange(0, 2 * i as int));
    }
    assert(target.subrange(0, 8192) =~= target);
    push_filled(&mut data, 0xFF, 2048);
    push_filled(&mut data, 0xFF, 2048);
    push_filled(&mut data, 1, 256);
    data
}

/// The 1.7 payload of the bottom section built from the world: the id of
/// each of its 4096 blocks, metadata all zero, full block light, full sky
/// light, 256 plains biomes.
pub open spec fn chunk17_world_data(w: WorldBlocks, g: FlatWorldGenerator, cx: i32, cz: i32) -> Seq<u8> {
    Seq::new(4096, |i: int| w.block_at(g, section_pos(cx, cz, 0, i)).id) + filled(0, 2048) + filled(0xFF, 2048)
        + filled(0xFF, 2048) + filled(1, 256)
}

/// The 1.7 payload of a chunk's bottom section, read block by block from
/// the world.
pub fn build_chunk_data_17(chunk_x: i32, chunk_z: i32, world_blocks: &WorldBlocks, generator: &FlatWorldGenerator) -> (r: Vec<
    u8,
>)
    requires
        -0x800_0000 <= chunk_x < 0x800_0000,
        -0x800_0000 <= chunk_z < 0x800_0000,
        world_blocks.wf(),
    ensures
        r@ == chunk17_world_data(*world_blocks, *generator, chunk_x, chunk_z),
{
    let ghost ids = Seq::new(4096, |i: int| world_blocks.block_at(*generator, section_pos(chunk_x, chunk_z, 0, i)).id);
    let mut data: Vec<u8> = Vec::new();
    let mut i: usize = 0;
    while i < 4096
        invariant
            i <= 4096,
            -0x800_0000 <= chunk_x < 0x800_0000,
            -0x800_0000 <= chunk_z < 0x800_0000,
            world_blocks.wf(),
            ids == Seq::new(4096, |i: int| world_blocks.block_at(*generator, section_pos(chunk_x, chunk_z, 0, i)).id),
            data@ == ids.subrange(0, i as int),
        decreases 4096 - i,
    {
        let (x, y, z) = section_position(chunk_x, chunk_z, 0, i);
        let block = world_blocks.get(x, y, z, generator);
        data.push(block.id);
        i = i + 1;
        assert(data@ =~= ids.subrange(0, i as int));
    }
    assert(ids.subrange(0, 4096) =~= ids);
    push_filled(&mut data, 0, 2048);
    push_filled(&mut data, 0xFF, 2048);
    push_filled(&mut data, 0xFF, 2048);
    push_filled(&mut data, 1, 256);
    data
}

} // verus!
