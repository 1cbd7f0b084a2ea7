//! Anvil chunks: the blocks of a chunk to and from its NBT form.

use vstd::prelude::*;
use crate::world::blocks::{Block, BlockMap, BlockPos};
use crate::world::generator::FlatWorldGenerator;
use crate::world::blocks::air_block;
use crate::world::nbt_check::nbt_root_readable;
use crate::world::chunk::{filled, push_filled, section_pos, section_position};
use crate::world::nbt::{
    entry_models, lemma_entry_models_push, lemma_models_len, lemma_models_push, lookup, models, root_dec, root_enc,
    write_named_root, NbtReader, NbtTag, NbtValue,
};

verus! {

/// The four-bit metadata at index `idx` of a nibble array: low nibble for
/// even indices, high nibble for odd ones.
pub open spec fn nibble(d: Seq<u8>, idx: int) -> u8 {
    if idx % 2 == 0 {
        (d[idx / 2] % 16) as u8
    } else {
        (d[idx / 2] / 16) as u8
    }
}

/// The parts of a section tag the loader uses: its `Y` byte, its `Blocks`
/// array, and its `Data` array if there is one.
pub open spec fn section_parts(sec: NbtValue) -> Option<(i8, Seq<u8>, Option<Seq<u8>>)> {
    match (lookup(sec, "Y"@), lookup(sec, "Blocks"@)) {
        (Some(NbtValue::Byte(y)), Some(NbtValue::ByteArray(ids))) => Some(
            (
                y,
                ids,
                match lookup(sec, "Data"@) {
                    Some(NbtValue::ByteArray(d)) => Some(d),
                    _ => None,
                },
            ),
        ),
        _ => None,
    }
}

/// The chunk coordinates and sections of a chunk root: `Level` holding
/// `xPos` and `zPos` ints and a `Sections` list.
pub open spec fn chunk_parts(root: NbtValue) -> Option<(i32, i32, Seq<NbtValue>)> {
    match lookup(root, "Level"@) {
        Some(level) => match (lookup(level, "xPos"@), lookup(level, "zPos"@), lookup(level, "Sections"@)) {
            (Some(NbtValue::Int(cx)), Some(NbtValue::Int(cz)), Some(NbtValue::List(_, secs))) => Some(
                (cx, cz, secs),
            ),
            _ => None,
        },
        None => None,
    }
}

/// A section can be read: 4096 block ids and, when present, 2048 bytes of
/// metadata.
pub open spec fn section_readable(sec: NbtValue) -> bool {
    match section_parts(sec) {
        Some((_, ids, data)) => ids.len() >= 4096 && (data matches Some(d) ==> d.len() >= 2048),
        None => true,
    }
}

/// The chunk bytes can be loaded without running out of input or
/// overflowing block coordinates.
pub open spec fn chunk_loadable(nbt: Seq<u8>) -> bool {
    &&& root_dec(nbt) is Some
    &&& chunk_parts(root_dec(nbt).unwrap().1) is Some ==> parts_readable(
        chunk_parts(root_dec(nbt).unwrap().1).unwrap(),
    )
}

/// The chunk coordinates keep block coordinates within `i32`, and every
/// section can be read.
pub open spec fn parts_readable(parts: (i32, i32, Seq<NbtValue>)) -> bool {
    &&& -0x800_0000 <= parts.0 < 0x800_0000
    &&& -0x800_0000 <= parts.1 < 0x800_0000
    &&& forall|k: int| 0 <= k < parts.2.len() ==> section_readable(#[trigger] parts.2[k])
}

/// Height within a section of world height `wy` for section `sy`.
pub open spec fn local_y(sy: i8, wy: u8) -> int {
    (wy as int - 16 * sy as int) % 256
}

/// The index into the section arrays of a position in the chunk column.
pub open spec fn section_index(cx: i32, cz: i32, sy: i8, p: BlockPos) -> int {
    local_y(sy, p.1) * 256 + (p.2 - 16 * cz) * 16 + (p.0 - 16 * cx)
}

/// The position lies in the chunk column and the section's 16 layers.
pub open spec fn in_section(cx: i32, cz: i32, sy: i8, p: BlockPos) -> bool {
    &&& 0 <= p.0 - 16 * cx < 16
    &&& 0 <= p.2 - 16 * cz < 16
    &&& local_y(sy, p.1) < 16
}

/// The block a section stores at index `i`.
pub open spec fn section_block(ids: Seq<u8>, data: Option<Seq<u8>>, i: int) -> Block {
    Block {
        id: ids[i],
        metadata: match data {
            Some(d) => nibble(d, i),
            None => 0,
        },
    }
}

/// Whether a loaded block is left out: blocks equal to the generated one
/// when a generator is given, air blocks otherwise.
pub open spec fn skipped(b: Block, wy: u8, gen: Option<FlatWorldGenerator>) -> bool {
    match gen {
        Some(g) => b == g.block_at(wy),
        None => b.id == 0,
    }
}

/// The blocks a section contributes among its first `upto` indices.
pub open spec fn section_blocks(
    cx: i32,
    cz: i32,
    sy: i8,
    ids: Seq<u8>,
    data: Option<Seq<u8>>,
    gen: Option<FlatWorldGenerator>,
    upto: int,
) -> Map<BlockPos, Block> {
    Map::new(
        |p: BlockPos|
            in_section(cx, cz, sy, p) && section_index(cx, cz, sy, p) < upto && !skipped(
                section_block(ids, data, section_index(cx, cz, sy, p)),
                p.1,
                gen,
            ),
        |p: BlockPos| section_block(ids, data, section_index(cx, cz, sy, p)),
    )
}

/// `m` after loading the sections `secs` in order; sections without `Y` or
/// `Blocks` contribute nothing.
pub open spec fn load_sections(
    m: Map<BlockPos, Block>,
    cx: i32,
    cz: i32,
    secs: Seq<NbtValue>,
    gen: Option<FlatWorldGenerator>,
) -> Map<BlockPos, Block>
    decreases secs.len(),
{
    if secs.len() == 0 {
        m
    } else {
        let before = load_sections(m, cx, cz, secs.drop_last(), gen);
        match section_parts(secs.last()) {
            Some((sy, ids, data)) => before.union_prefer_right(section_blocks(cx, cz, sy, ids, data, gen, 4096)),
            None => before,
        }
    }
}

/// `m` after loading the chunk bytes: unchanged when the chunk lacks a
/// part the loader looks for.
pub open spec fn load_chunk(m: Map<BlockPos, Block>, nbt: Seq<u8>, gen: Option<FlatWorldGenerator>) -> Map<
    BlockPos,
    Block,
> {
    match chunk_parts(root_dec(nbt).unwrap().1) {
        Some((cx, cz, secs)) => load_sections(m, cx, cz, secs, gen),
        None => m,
    }
}

/// Loads one section into `out`.
fn load_section(
    out: &mut BlockMap,
    cx: i32,
    cz: i32,
    sy: i8,
    ids: &Vec<u8>,
    data: Option<&Vec<u8>>,
    generator: Option<&FlatWorldGenerator>,
)
    requires
        -0x800_0000 <= cx < 0x800_0000,
        -0x800_0000 <= cz < 0x800_0000,
        ids@.len() >= 4096,
        data matches Some(d) ==> d@.len() >= 2048,
    ensures
        final(out)@ == old(out)@.union_prefer_right(
            section_blocks(
                cx,
                cz,
                sy,
                ids@,
                match data {
                    Some(d) => Some(d@),
                    None => None,
                },
                match generator {
                    Some(g) => Some(*g),
                    None => None,
                },
                4096,
            ),
        ),
{
    let ghost dv = match data {
        Some(d) => Some(d@),
        None => None,
    };
    let ghost gv = match generator {
        Some(g) => Some(*g),
        None => None,
    };
    let y_start: i32 = sy as i32 * 16;
    let mut i: usize = 0;
    while i < 4096
        invariant
            i <= 4096,
            -0x800_0000 <= cx < 0x800_0000,
            -0x800_0000 <= cz < 0x800_0000,
            ids@.len() >= 4096,
            data matches Some(d) ==> d@.len() >= 2048,
            dv == (match data {
                Some(d) => Some(d@),
                None => None,
            }),
            gv == (match generator {
                Some(g) => Some(*g),
                None => None,
            }),
            y_start == sy as i32 * 16,
            out@ == old(out)@.union_prefer_right(section_blocks(cx, cz, sy, ids@, dv, gv, i as int)),
        decreases 4096 - i,
    {
        let ly = i / 256;
        let z = (i / 16) % 16;
        let x = i % 16;
        let block_id = ids[i];
        let metadata = match data {
            Some(d) => {
                let ni = i / 2;
                if i % 2 == 0 {
                    d[ni] % 16
                } else {
                    d[ni] / 16
                }
            },
            None => 0,
        };
        let wy_i: i32 = y_start + ly as i32;
        let wy: u8 = ((wy_i + 4096) as u32 % 256) as u8;
        let wx = cx * 16 + x as i32;
        let wz = cz * 16 + z as i32;
        let block = Block::new(block_id, metadata);
        let skip = match generator {
            Some(g) => {
                let gen_block = g.get(wy);
                block_id == gen_block.id && metadata == gen_block.metadata
            },
            None => block_id == 0,
        };
        let ghost p: BlockPos = (wx, wy, wz);
        proof {
            lemma_section_position(cx, cz, sy, i as int, p);
            assert(section_block(ids@, dv, i as int) == block);
            assert(skip == skipped(block, wy, gv));
        }
        if !skip {
            out.insert(wx, wy, wz, block);
        }
        proof {
            lemma_section_step(cx, cz, sy, ids@, dv, gv, i as int, p);
        }
        i = i + 1;
    }
}

proof fn lemma_section_position(cx: i32, cz: i32, sy: i8, i: int, p: BlockPos)
    requires
        0 <= i < 4096,
        p.0 == 16 * cx + i % 16,
        p.2 == 16 * cz + (i / 16) % 16,
        p.1 as int == (16 * sy as int + i / 256 + 4096) % 256,
    ensures
        in_section(cx, cz, sy, p),
        section_index(cx, cz, sy, p) == i,
{
    let ly = i / 256;
    let w = 16 * sy as int + ly + 4096;
    vstd::arithmetic::div_mod::lemma_fundamental_div_mod(w, 256);
    let q = w / 256;
    assert(p.1 as int - 16 * sy as int == ly + (16 - q) * 256);
    vstd::arithmetic::div_mod::lemma_mod_multiples_vanish(16 - q, ly, 256);
    vstd::arithmetic::div_mod::lemma_small_mod(ly as nat, 256);
    assert(local_y(sy, p.1) == ly);
    assert(ly * 256 + ((i / 16) % 16) * 16 + i % 16 == i) by (nonlinear_arith)
        requires
            0 <= i < 4096,
            ly == i / 256,
    {
        vstd::arithmetic::div_mod::lemma_fundamental_div_mod(i, 256);
        vstd::arithmetic::div_mod::lemma_fundamental_div_mod(i, 16);
        vstd::arithmetic::div_mod::lemma_fundamental_div_mod(i / 16, 16);
        vstd::arithmetic::div_mod::lemma_div_denominator(i, 16, 16);
    }
}

proof fn lemma_section_step(
    cx: i32,
    cz: i32,
    sy: i8,
    ids: Seq<u8>,
    dv: Option<Seq<u8>>,
    gv: Option<FlatWorldGenerator>,
    i: int,
    p: BlockPos,
)
    requires
        in_section(cx, cz, sy, p),
        section_index(cx, cz, sy, p) == i,
    ensures
        skipped(section_block(ids, dv, i), p.1, gv) ==> section_blocks(cx, cz, sy, ids, dv, gv, i + 1)
            == section_blocks(cx, cz, sy, ids, dv, gv, i),
        !skipped(section_block(ids, dv, i), p.1, gv) ==> section_blocks(cx, cz, sy, ids, dv, gv, i + 1)
            == section_blocks(cx, cz, sy, ids, dv, gv, i).insert(p, section_block(ids, dv, i)),
{
    let before = section_blocks(cx, cz, sy, ids, dv, gv, i);
    let after = section_blocks(cx, cz, sy, ids, dv, gv, i + 1);
    assert forall|q: BlockPos| #![auto] in_section(cx, cz, sy, q) && section_index(cx, cz, sy, q) == i implies q == p by {
        lemma_section_index_injective(cx, cz, sy, q, p);
    }
    if skipped(section_block(ids, dv, i), p.1, gv) {
        assert(after =~= before);
    } else {
        assert(after =~= before.insert(p, section_block(ids, dv, i)));
    }
}

proof fn lemma_section_index_injective(cx: i32, cz: i32, sy: i8, q: BlockPos, p: BlockPos)
    requires
        in_section(cx, cz, sy, q),
        in_section(cx, cz, sy, p),
        section_index(cx, cz, sy, q) == section_index(cx, cz, sy, p),
    ensures
        q == p,
{
    let lq = local_y(sy, q.1);
    let lp = local_y(sy, p.1);
    let zq = q.2 - 16 * cz;
    let zp = p.2 - 16 * cz;
    let xq = q.0 - 16 * cx;
    let xp = p.0 - 16 * cx;
    assert(lq == lp && zq == zp && xq == xp) by (nonlinear_arith)
        requires
            0 <= lq < 16,
            0 <= lp < 16,
            0 <= zq < 16,
            0 <= zp < 16,
            0 <= xq < 16,
            0 <= xp < 16,
            lq * 256 + zq * 16 + xq == lp * 256 + zp * 16 + xp,
    ;
    // equal local heights give equal world heights
    vstd::arithmetic::div_mod::lemma_fundamental_div_mod(q.1 as int - 16 * sy as int, 256);
    vstd::arithmetic::div_mod::lemma_fundamental_div_mod(p.1 as int - 16 * sy as int, 256);
    let a = (q.1 as int - 16 * sy as int) / 256;
    let b = (p.1 as int - 16 * sy as int) / 256;
    assert(q.1 as int - p.1 as int == 256 * (a - b)) by (nonlinear_arith)
        requires
            q.1 as int - 16 * sy as int == 256 * a + lq,
            p.1 as int - 16 * sy as int == 256 * b + lp,
            lq == lp,
    ;
    assert(q.1 == p.1) by (nonlinear_arith)
        requires
            q.1 as int - p.1 as int == 256 * (a - b),
            0 <= q.1 < 256,
            0 <= p.1 < 256,
    ;
}

/// Loads the blocks of a chunk's NBT bytes into `out`, skipping blocks the
/// generator would produce (when given) or air (when not).
fn load_chunk_blocks(nbt_data: &[u8], out: &mut BlockMap, generator: Option<&FlatWorldGenerator>)
    requires
        chunk_loadable(nbt_data@),
    ensures
        final(out)@ == load_chunk(
            old(out)@,
            nbt_data@,
            match generator {
                Some(g) => Some(*g),
                None => None,
            },
        ),
{
    let ghost gv = match generator {
        Some(g) => Some(*g),
        None => None,
    };
    let mut reader = NbtReader::new(nbt_data);
    assert(reader.rest() =~= nbt_data@);
    let (_, root) = reader.read_named_root();
    let level = match root.get("Level") {
        Some(level) => level,
        None => return,
    };
    let chunk_x = match level.get("xPos") {
        Some(NbtTag::Int(v)) => *v,
        _ => return,
    };
    let chunk_z = match level.get("zPos") {
        Some(NbtTag::Int(v)) => *v,
        _ => return,
    };
    let sections = match level.get("Sections") {
        Some(tag) => match tag.as_list() {
            Some(list) => list,
            None => return,
        },
        None => return,
    };
    let ghost secs = models(sections@);
    proof {
        lemma_models_len(sections@);
        assert(chunk_parts(root.model()) == Some((chunk_x, chunk_z, secs)));
        assert(root_dec(nbt_data@).unwrap().1 == root.model());
        assert(parts_readable((chunk_x, chunk_z, secs)));
    }
    let mut k: usize = 0;
    while k < sections.len()
        invariant
            k <= sections@.len(),
            secs == models(sections@),
            secs.len() == sections@.len(),
            forall|j: int| 0 <= j < sections@.len() ==> #[trigger] secs[j] == sections@[j].model(),
            forall|j: int| 0 <= j < secs.len() ==> section_readable(#[trigger] secs[j]),
            -0x800_0000 <= chunk_x < 0x800_0000,
            -0x800_0000 <= chunk_z < 0x800_0000,
            gv == (match generator {
                Some(g) => Some(*g),
                None => None,
            }),
            out@ == load_sections(old(out)@, chunk_x, chunk_z, secs.take(k as int), gv),
        decreases sections.len() - k,
    {
        let section = &sections[k];
        assert(secs.take(k + 1).drop_last() =~= secs.take(k as int));
        assert(secs.take(k + 1).last() == section.model());
        let section_y = match section.get("Y") {
            Some(tag) => match tag.as_i8() {
                Some(y) => y,
                None => {
                    k = k + 1;
                    continue;
                },
            },
            None => {
                k = k + 1;
                continue;
            },
        };
        let block_ids = match section.get("Blocks") {
            Some(tag) => match tag.as_byte_array() {
                Some(ids) => ids,
                None => {
                    k = k + 1;
                    continue;
                },
            },
            None => {
                k = k + 1;
                continue;
            },
        };
        let block_data = match section.get("Data") {
            Some(tag) => tag.as_byte_array(),
            None => None,
        };
        assert(section_readable(secs[k as int]));
        load_section(out, chunk_x, chunk_z, section_y, block_ids, block_data, generator);
        k = k + 1;
    }
    assert(secs.take(k as int) =~= secs);
}

/// Whether a section tag can be read: it lacks `Y` or `Blocks`, or holds
/// 4096 block ids and, with `Data`, 2048 bytes of metadata.
fn section_tag_readable(section: &NbtTag) -> (r: bool)
    ensures
        r == section_readable(section.model()),
{
    let y = match section.get("Y") {
        Some(tag) => tag.as_i8(),
        None => None,
    };
    if y.is_none() {
        return true;
    }
    let ids = match section.get("Blocks") {
        Some(tag) => match tag.as_byte_array() {
            Some(ids) => ids,
            None => return true,
        },
        None => return true,
    };
    if ids.len() < 4096 {
        return false;
    }
    match section.get("Data") {
        Some(tag) => match tag.as_byte_array() {
            Some(d) => d.len() >= 2048,
            None => true,
        },
        None => true,
    }
}

/// Whether chunk bytes can be loaded: a complete NBT root whose `Level`,
/// if it has its coordinates and sections, lies within 2^27 chunks of the
/// origin and holds only readable sections.
pub fn chunk_nbt_loadable(nbt_data: &[u8]) -> (r: bool)
    ensures
        r == chunk_loadable(nbt_data@),
{
    if !nbt_root_readable(nbt_data) {
        return false;
    }
    let mut reader = NbtReader::new(nbt_data);
    assert(reader.rest() =~= nbt_data@);
    let (_, root) = reader.read_named_root();
    let level = match root.get("Level") {
        Some(level) => level,
        None => return true,
    };
    let chunk_x = match level.get("xPos") {
        Some(NbtTag::Int(v)) => *v,
        _ => return true,
    };
    let chunk_z = match level.get("zPos") {
        Some(NbtTag::Int(v)) => *v,
        _ => return true,
    };
    let sections = match level.get("Sections") {
        Some(tag) => match tag.as_list() {
            Some(list) => list,
            None => return true,
        },
        None => return true,
    };
    let ghost secs = models(sections@);
    proof {
        lemma_models_len(sections@);
        assert(chunk_parts(root.model()) == Some((chunk_x, chunk_z, secs)));
        assert(root.model() == root_dec(nbt_data@).unwrap().1);
    }
    if chunk_x < -0x800_0000 || chunk_x >= 0x800_0000 || chunk_z < -0x800_0000 || chunk_z >= 0x800_0000 {
        return false;
    }
    let mut k: usize = 0;
    while k < sections.len()
        invariant
            k <= sections@.len(),
            secs == models(sections@),
            secs.len() == sections@.len(),
            forall|j: int| 0 <= j < sections@.len() ==> #[trigger] secs[j] == sections@[j].model(),
            forall|j: int| 0 <= j < k ==> section_readable(#[trigger] secs[j]),
            root_dec(nbt_data@) is Some,
            chunk_parts(root_dec(nbt_data@).unwrap().1) == Some((chunk_x, chunk_z, secs)),
            -0x800_0000 <= chunk_x < 0x800_0000,
            -0x800_0000 <= chunk_z < 0x800_0000,
        decreases sections.len() - k,
    {
        if !section_tag_readable(&sections[k]) {
            assert(!section_readable(secs[k as int]));
            let ghost parts = (chunk_x, chunk_z, secs);
            assert(parts.2[k as int] == secs[k as int]);
            assert(!parts_readable(parts));
            assert(!chunk_loadable(nbt_data@));
            return false;
        }
        k = k + 1;
    }
    true
}

/// Loads the blocks of a chunk's NBT bytes into `out`, leaving out blocks
/// equal to what the generator produces at their height.
pub fn nbt_to_blocks(nbt_data: &[u8], out: &mut BlockMap, generator: &FlatWorldGenerator)
    requires
        chunk_loadable(nbt_data@),
    ensures
        final(out)@ == load_chunk(old(out)@, nbt_data@, Some(*generator)),
{
    load_chunk_blocks(nbt_data, out, Some(generator));
}

/// Loads every non-air block of a chunk's NBT bytes into `out`.
pub fn nbt_to_blocks_raw(nbt_data: &[u8], out: &mut BlockMap)
    requires
        chunk_loadable(nbt_data@),
    ensures
        final(out)@ == load_chunk(old(out)@, nbt_data@, None),
{
    load_chunk_blocks(nbt_data, out, None);
}

/// The block saved at a position: the stored one, else the generated one
/// for a chunk that was never saved, else air.
pub open spec fn saved_block(m: Map<BlockPos, Block>, g: FlatWorldGenerator, is_new: bool, p: BlockPos) -> Block {
    if m.contains_key(p) {
        m[p]
    } else if is_new {
        g.block_at(p.1)
    } else {
        air_block()
    }
}

/// The block ids of section `sy`, in YZX order.
pub open spec fn section_ids(m: Map<BlockPos, Block>, g: FlatWorldGenerator, is_new: bool, cx: i32, cz: i32, sy: int) -> Seq<u8> {
    Seq::new(4096, |i: int| saved_block(m, g, is_new, section_pos(cx, cz, sy, i)).id)
}

/// The metadata nibble saved at index `i` of section `sy`.
pub open spec fn section_meta(m: Map<BlockPos, Block>, g: FlatWorldGenerator, is_new: bool, cx: i32, cz: i32, sy: int, i: int) -> int {
    (saved_block(m, g, is_new, section_pos(cx, cz, sy, i)).metadata % 16) as int
}

/// The metadata of section `sy`, two nibbles a byte, the even index in the
/// low nibble.
pub open spec fn section_data(m: Map<BlockPos, Block>, g: FlatWorldGenerator, is_new: bool, cx: i32, cz: i32, sy: int) -> Seq<u8> {
    Seq::new(
        2048,
        |j: int| (section_meta(m, g, is_new, cx, cz, sy, 2 * j) + 16 * section_meta(m, g, is_new, cx, cz, sy, 2 * j + 1)) as u8,
    )
}

/// The tag of a saved section: its height, ids, metadata, and full light.
pub open spec fn section_value(sy: int, ids: Seq<u8>, data: Seq<u8>) -> NbtValue {
    NbtValue::Compound(section_entries(sy, ids, data))
}

/// The entries of a saved section's tag.
pub open spec fn section_entries(sy: int, ids: Seq<u8>, data: Seq<u8>) -> Seq<(Seq<char>, NbtValue)> {
    seq![
        ("Y"@, NbtValue::Byte(sy as i8)),
        ("Blocks"@, NbtValue::ByteArray(ids)),
        ("Data"@, NbtValue::ByteArray(data)),
        ("BlockLight"@, NbtValue::ByteArray(filled(0xFF, 2048))),
        ("SkyLight"@, NbtValue::ByteArray(filled(0xFF, 2048))),
    ]
}

/// Whether some id is not air.
pub open spec fn has_nonair(ids: Seq<u8>) -> bool {
    exists|i: int| 0 <= i < ids.len() && ids[i] != 0
}

/// The saved sections among the first `k`: section 0 always, the others
/// when they hold a block other than air.
pub open spec fn saved_sections(m: Map<BlockPos, Block>, g: FlatWorldGenerator, is_new: bool, cx: i32, cz: i32, k: int) -> Seq<NbtValue>
    decreases k,
{
    if k <= 0 {
        seq![]
    } else {
        let prev = saved_sections(m, g, is_new, cx, cz, k - 1);
        let ids = section_ids(m, g, is_new, cx, cz, k - 1);
        if k - 1 == 0 || has_nonair(ids) {
            prev.push(section_value(k - 1, ids, section_data(m, g, is_new, cx, cz, k - 1)))
        } else {
            prev
        }
    }
}

/// The block the height map sees: the stored one, else the generated one.
pub open spec fn height_block(m: Map<BlockPos, Block>, g: FlatWorldGenerator, p: BlockPos) -> Block {
    if m.contains_key(p) {
        m[p]
    } else {
        g.block_at(p.1)
    }
}

/// One above the highest non-air block of a column at or below `y`, 0
/// when there is none.
pub open spec fn height_from(m: Map<BlockPos, Block>, g: FlatWorldGenerator, wx: i32, wz: i32, y: int) -> int
    decreases y + 1,
{
    if y < 0 {
        0
    } else if height_block(m, g, (wx, y as u8, wz)).id != 0 {
        y + 1
    } else {
        height_from(m, g, wx, wz, y - 1)
    }
}

/// The height map, columns in ZX order, looking at heights 0 to 254.
pub open spec fn height_map(m: Map<BlockPos, Block>, g: FlatWorldGenerator, cx: i32, cz: i32) -> Seq<i32> {
    Seq::new(256, |c: int| height_from(m, g, (16 * cx + c % 16) as i32, (16 * cz + c / 16) as i32, 254) as i32)
}

/// The `Level` tag of a saved chunk.
pub open spec fn level_value(
    cx: i32,
    cz: i32,
    m: Map<BlockPos, Block>,
    g: FlatWorldGenerator,
    tiles: Seq<NbtValue>,
    is_new: bool,
) -> NbtValue {
    NbtValue::Compound(level_entries(cx, cz, m, g, tiles, is_new))
}

/// The entries of the `Level` tag of a saved chunk.
pub open spec fn level_entries(
    cx: i32,
    cz: i32,
    m: Map<BlockPos, Block>,
    g: FlatWorldGenerator,
    tiles: Seq<NbtValue>,
    is_new: bool,
) -> Seq<(Seq<char>, NbtValue)> {
        seq![
            ("xPos"@, NbtValue::Int(cx)),
            ("zPos"@, NbtValue::Int(cz)),
            ("LastUpdate"@, NbtValue::Long(0)),
            ("LightPopulated"@, NbtValue::Byte(1)),
            ("TerrainPopulated"@, NbtValue::Byte(1)),
            ("V"@, NbtValue::Byte(1)),
            ("InhabitedTime"@, NbtValue::Long(0)),
            ("Biomes"@, NbtValue::ByteArray(filled(1, 256))),
            ("HeightMap"@, NbtValue::IntArray(height_map(m, g, cx, cz))),
            ("Sections"@, NbtValue::List(10, saved_sections(m, g, is_new, cx, cz, 16))),
            ("Entities"@, NbtValue::List(10, seq![])),
            ("TileEntities"@, NbtValue::List(10, tiles)),
            ("TileTicks"@, NbtValue::List(10, seq![])),
        ]
}

/// The root tag of a saved chunk: a compound holding `Level`.
pub open spec fn chunk_value(
    cx: i32,
    cz: i32,
    m: Map<BlockPos, Block>,
    g: FlatWorldGenerator,
    tiles: Seq<NbtValue>,
    is_new: bool,
) -> NbtValue {
    NbtValue::Compound(seq![("Level"@, level_value(cx, cz, m, g, tiles, is_new))])
}

/// The block saved at a position.
fn saved_block_at(blocks: &BlockMap, g: &FlatWorldGenerator, is_new: bool, x: i32, y: u8, z: i32) -> (b: Block)
    ensures
        b == saved_block(blocks@, *g, is_new, (x, y, z)),
{
    match blocks.get(x, y, z) {
        Some(b) => b,
        None => if is_new {
            g.get(y)
        } else {
            Block::air()
        },
    }
}

/// The ids and metadata of a section, and whether an id is not air.
fn section_arrays(
    blocks: &BlockMap,
    g: &FlatWorldGenerator,
    is_new: bool,
    cx: i32,
    cz: i32,
    sy: usize,
) -> (r: (Vec<u8>, Vec<u8>, bool))
    requires
        -0x800_0000 <= cx < 0x800_0000,
        -0x800_0000 <= cz < 0x800_0000,
        sy < 16,
    ensures
        r.0@ == section_ids(blocks@, *g, is_new, cx, cz, sy as int),
        r.1@ == section_data(blocks@, *g, is_new, cx, cz, sy as int),
        r.2 == has_nonair(r.0@),
{
    let ghost m = blocks@;
    let mut ids: Vec<u8> = Vec::new();
    let mut nonair = false;
    let mut i: usize = 0;
    while i < 4096
        invariant
            i <= 4096,
            sy < 16,
            -0x800_0000 <= cx < 0x800_0000,
            -0x800_0000 <= cz < 0x800_0000,
            m == blocks@,
            ids@ == section_ids(m, *g, is_new, cx, cz, sy as int).take(i as int),
            nonair == has_nonair(ids@),
        decreases 4096 - i,
    {
        let (x, y, z) = section_position(cx, cz, sy, i);
        let b = saved_block_at(blocks, g, is_new, x, y, z);
        ids.push(b.id);
        if b.id != 0 {
            assert(ids@[i as int] != 0);
            nonair = true;
        }
        i = i + 1;
        assert(ids@ =~= section_ids(m, *g, is_new, cx, cz, sy as int).take(i as int));
        assert(nonair == has_nonair(ids@)) by {
            if !nonair {
                assert forall|j: int| 0 <= j < ids@.len() implies ids@[j] == 0 by {
                    if j < i - 1 {
                        assert(ids@[j] == ids@.take(i - 1)[j]);
                    }
                }
            }
        }
    }
    assert(ids@ =~= section_ids(m, *g, is_new, cx, cz, sy as int));
    let mut data: Vec<u8> = Vec::new();
    let mut j: usize = 0;
    while j < 2048
        invariant
            j <= 2048,
            sy < 16,
            -0x800_0000 <= cx < 0x800_0000,
            -0x800_0000 <= cz < 0x800_0000,
            m == blocks@,
            data@ == section_data(m, *g, is_new, cx, cz, sy as int).take(j as int),
        decreases 2048 - j,
    {
        let (x0, y0, z0) = section_position(cx, cz, sy, 2 * j);
        let (x1, y1, z1) = section_position(cx, cz, sy, 2 * j + 1);
        let m0 = saved_block_at(blocks, g, is_new, x0, y0, z0).metadata;
        let m1 = saved_block_at(blocks, g, is_new, x1, y1, z1).metadata;
        let low = m0 & 0x0F;
        let high = m1 & 0x0F;
        let byte = low | (high << 4u8);
        assert(low == m0 % 16 && high == m1 % 16) by (bit_vector)
            requires
                low == m0 & 0x0F,
                high == m1 & 0x0F,
        ;
        assert(byte == low + 16 * high) by (bit_vector)
            requires
                byte == low | (high << 4u8),
                low < 16,
                high < 16,
        ;
        data.push(byte);
        j = j + 1;
        assert(data@ =~= section_data(m, *g, is_new, cx, cz, sy as int).take(j as int));
    }
    assert(data@ =~= section_data(m, *g, is_new, cx, cz, sy as int));
    (ids, data, nonair)
}

/// Appends a named entry to compound entries.
fn push_entry(es: &mut Vec<(String, NbtTag)>, name: &str, tag: NbtTag)
    ensures
        entry_models(final(es)@) == entry_models(old(es)@).push((name@, tag.model())),
{
    let ghost t = tag;
    let e = (name.to_owned(), tag);
    proof {
        lemma_entry_models_push(es@, e);
    }
    es.push(e);
}

/// `n` copies of `b`.
fn filled_vec(b: u8, n: usize) -> (v: Vec<u8>)
    ensures
        v@ == filled(b, n as int),
{
    let mut v: Vec<u8> = Vec::new();
    push_filled(&mut v, b, n);
    assert(v@ =~= filled(b, n as int));
    v
}

/// The tag of a saved section.
fn section_tag(sy: u8, ids: Vec<u8>, data: Vec<u8>) -> (t: NbtTag)
    ensures
        t.model() == section_value(sy as int, ids@, data@),
{
    let mut es: Vec<(String, NbtTag)> = Vec::new();
    proof {
        reveal_with_fuel(entry_models, 1);
    }
    assert(entry_models(es@) =~= Seq::<(Seq<char>, NbtValue)>::empty());
    push_entry(&mut es, "Y", NbtTag::Byte(sy as i8));
    push_entry(&mut es, "Blocks", NbtTag::ByteArray(ids));
    push_entry(&mut es, "Data", NbtTag::ByteArray(data));
    push_entry(&mut es, "BlockLight", NbtTag::ByteArray(filled_vec(0xFF, 2048)));
    push_entry(&mut es, "SkyLight", NbtTag::ByteArray(filled_vec(0xFF, 2048)));
    assert(entry_models(es@) =~= seq![
        ("Y"@, NbtValue::Byte(sy as i8)),
        ("Blocks"@, NbtValue::ByteArray(ids@)),
        ("Data"@, NbtValue::ByteArray(data@)),
        ("BlockLight"@, NbtValue::ByteArray(filled(0xFF, 2048))),
        ("SkyLight"@, NbtValue::ByteArray(filled(0xFF, 2048))),
    ]);
    let t = NbtTag::Compound(es);
    t
}

/// One above the highest non-air block of a column at heights 0 to 254.
fn column_height(blocks: &BlockMap, g: &FlatWorldGenerator, wx: i32, wz: i32) -> (h: i32)
    ensures
        h == height_from(blocks@, *g, wx, wz, 254),
{
    let mut y: i32 = 254;
    while y >= 0
        invariant
            -1 <= y <= 254,
            height_from(blocks@, *g, wx, wz, 254) == height_from(blocks@, *g, wx, wz, y as int),
        decreases y + 1,
    {
        let b = match blocks.get(wx, y as u8, wz) {
            Some(b) => b,
            None => g.get(y as u8),
        };
        if b.id != 0 {
            return y + 1;
        }
        y = y - 1;
    }
    0
}

/// The NBT bytes of a chunk: its sections from the stored blocks, else the
/// generator's for a chunk never saved before, else air; the height map;
/// plains biomes; and the tile entities given.
#[verifier::rlimit(40)]
#[verifier::spinoff_prover]
pub fn chunk_to_nbt(
    chunk_x: i32,
    chunk_z: i32,
    blocks: &BlockMap,
    generator: &FlatWorldGenerator,
    tile_entities: Vec<NbtTag>,
    is_new_chunk: bool,
) -> (r: Vec<u8>)
    requires
        -0x800_0000 <= chunk_x < 0x800_0000,
        -0x800_0000 <= chunk_z < 0x800_0000,
    ensures
        r@ == root_enc(
            Seq::empty(),
            chunk_value(chunk_x, chunk_z, blocks@, *generator, models(tile_entities@), is_new_chunk),
        ),
{
    let ghost m = blocks@;
    let ghost g = *generator;
    let mut sections: Vec<NbtTag> = Vec::new();
    let mut sy: usize = 0;
    proof {
        reveal_with_fuel(models, 1);
    }
    assert(models(sections@) =~= saved_sections(m, g, is_new_chunk, chunk_x, chunk_z, 0));
    while sy < 16
        invariant
            sy <= 16,
            -0x800_0000 <= chunk_x < 0x800_0000,
            -0x800_0000 <= chunk_z < 0x800_0000,
            m == blocks@,
            g == *generator,
            models(sections@) == saved_sections(m, g, is_new_chunk, chunk_x, chunk_z, sy as int),
        decreases 16 - sy,
    {
        let (ids, data, nonair) = section_arrays(blocks, generator, is_new_chunk, chunk_x, chunk_z, sy);
        if nonair || sy == 0 {
            let t = section_tag(sy as u8, ids, data);
            proof {
                lemma_models_push(sections@, t);
            }
            sections.push(t);
        }
        sy = sy + 1;
    }
    let mut heights: Vec<i32> = Vec::new();
    let mut c: usize = 0;
    while c < 256
        invariant
            c <= 256,
            -0x800_0000 <= chunk_x < 0x800_0000,
            -0x800_0000 <= chunk_z < 0x800_0000,
            m == blocks@,
            g == *generator,
            heights@ == height_map(m, g, chunk_x, chunk_z).take(c as int),
        decreases 256 - c,
    {
        let wx = chunk_x * 16 + (c % 16) as i32;
        let wz = chunk_z * 16 + (c / 16) as i32;
        let h = column_height(blocks, generator, wx, wz);
        heights.push(h);
        c = c + 1;
        assert(heights@ =~= height_map(m, g, chunk_x, chunk_z).take(c as int));
    }
    assert(heights@ =~= height_map(m, g, chunk_x, chunk_z));
    let ghost tiles = models(tile_entities@);
    let mut es: Vec<(String, NbtTag)> = Vec::new();
    proof {
        reveal_with_fuel(entry_models, 1);
    }
    assert(entry_models(es@) =~= Seq::<(Seq<char>, NbtValue)>::empty());
    push_entry(&mut es, "xPos", NbtTag::Int(chunk_x));
    push_entry(&mut es, "zPos", NbtTag::Int(chunk_z));
    push_entry(&mut es, "LastUpdate", NbtTag::Long(0));
    push_entry(&mut es, "LightPopulated", NbtTag::Byte(1));
    push_entry(&mut es, "TerrainPopulated", NbtTag::Byte(1));
    push_entry(&mut es, "V", NbtTag::Byte(1));
    push_entry(&mut es, "InhabitedTime", NbtTag::Long(0));
    push_entry(&mut es, "Biomes", NbtTag::ByteArray(filled_vec(1, 256)));
    push_entry(&mut es, "HeightMap", NbtTag::IntArray(heights));
    push_entry(&mut es, "Sections", NbtTag::List(10, sections));
    push_entry(&mut es, "Entities", NbtTag::List(10, Vec::new()));
    push_entry(&mut es, "TileEntities", NbtTag::List(10, tile_entities));
    push_entry(&mut es, "TileTicks", NbtTag::List(10, Vec::new()));
    assert(models(Seq::<NbtTag>::empty()) =~= Seq::<NbtValue>::empty());
    assert(entry_models(es@) =~= seq![
        ("xPos"@, NbtValue::Int(chunk_x)),
        ("zPos"@, NbtValue::Int(chunk_z)),
        ("LastUpdate"@, NbtValue::Long(0)),
        ("LightPopulated"@, NbtValue::Byte(1)),
        ("TerrainPopulated"@, NbtValue::Byte(1)),
        ("V"@, NbtValue::Byte(1)),
        ("InhabitedTime"@, NbtValue::Long(0)),
        ("Biomes"@, NbtValue::ByteArray(filled(1, 256))),
        ("HeightMap"@, NbtValue::IntArray(height_map(m, g, chunk_x, chunk_z))),
        ("Sections"@, NbtValue::List(10, saved_sections(m, g, is_new_chunk, chunk_x, chunk_z, 16))),
        ("Entities"@, NbtValue::List(10, seq![])),
        ("TileEntities"@, NbtValue::List(10, tiles)),
        ("TileTicks"@, NbtValue::List(10, seq![])),
    ]);
    let level = NbtTag::Compound(es);
    let mut root_es: Vec<(String, NbtTag)> = Vec::new();
    assert(entry_models(root_es@) =~= Seq::<(Seq<char>, NbtValue)>::empty());
    push_entry(&mut root_es, "Level", level);
    assert(entry_models(root_es@) =~= seq![("Level"@, level_value(chunk_x, chunk_z, m, g, tiles, is_new_chunk))]);
    let root = NbtTag::Compound(root_es);
    assert(entry_models(root_es@) =~= seq![("Level"@, level_value(chunk_x, chunk_z, m, g, tiles, is_new_chunk))]);
    let mut out: Vec<u8> = Vec::new();
    write_named_root("", &root, &mut out);
    proof {
        reveal_strlit("");
    }
    assert(out@ =~= root_enc(Seq::empty(), chunk_value(chunk_x, chunk_z, m, g, tiles, is_new_chunk)));
    out
}

/// The block a chunk holds at height `y` of column (`wx`, `wz`) when it
/// is saved from the stored blocks `m`: the stored one, else the generated
/// one.
pub open spec fn column_block(m: Map<BlockPos, Block>, g: FlatWorldGenerator, wx: i32, y: int, wz: i32) -> Block {
    if m.contains_key((wx, y as u8, wz)) {
        m[(wx, y as u8, wz)]
    } else {
        g.block_at(y as u8)
    }
}

/// The height map sees a column's stored blocks, and the generated ones
/// where nothing is stored.
proof fn lemma_height_from(m: Map<BlockPos, Block>, g: FlatWorldGenerator, wx: i32, wz: i32, y: int)
    requires
        -1 <= y <= 254,
    ensures
        0 <= height_from(m, g, wx, wz, y) <= y + 1,
        height_from(m, g, wx, wz, y) > 0 ==> column_block(m, g, wx, height_from(m, g, wx, wz, y) - 1, wz).id != 0,
        forall|k: int|
            height_from(m, g, wx, wz, y) <= k <= y ==> (#[trigger] column_block(m, g, wx, k, wz)).id == 0,
    decreases y + 1,
{
    if y >= 0 {
        lemma_height_from(m, g, wx, wz, y - 1);
    }
}

/// Each entry of a saved chunk's height map is one above the highest block
/// of its column, heights 0 to 254, that is not air: the block stored at a
/// position where there is one, else the generated one; 0 when there is
/// none. Column `c` is at x `16 * cx + c % 16`, z `16 * cz + c / 16`.
pub proof fn law_height_map_is_highest_block(
    m: Map<BlockPos, Block>,
    g: FlatWorldGenerator,
    cx: i32,
    cz: i32,
    c: int,
)
    requires
        -0x800_0000 <= cx < 0x800_0000,
        -0x800_0000 <= cz < 0x800_0000,
        0 <= c < 256,
    ensures
        ({
            let wx = (16 * cx + c % 16) as i32;
            let wz = (16 * cz + c / 16) as i32;
            let h = height_map(m, g, cx, cz)[c] as int;
            &&& height_map(m, g, cx, cz).len() == 256
            &&& 0 <= h <= 255
            &&& h > 0 ==> column_block(m, g, wx, h - 1, wz).id != 0
            &&& forall|k: int|
                h <= k <= 254 ==> (#[trigger] column_block(m, g, wx, k, wz)).id == 0
        }),
{
    let wx = (16 * cx + c % 16) as i32;
    let wz = (16 * cz + c / 16) as i32;
    lemma_height_from(m, g, wx, wz, 254);
}

} // verus!
