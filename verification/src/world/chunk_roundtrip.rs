//! What loading gives back of a saved chunk.

use vstd::prelude::*;
use vstd::utf8::*;
use crate::world::anvil::{

    chunk_loadable, chunk_parts, chunk_value, has_nonair, in_section, level_entries, level_value, section_entries, load_chunk, load_sections,
    local_y, nibble, parts_readable, saved_block, saved_sections, section_block, section_blocks, section_data,
    section_ids, section_index, section_meta, section_parts, section_readable, section_value, skipped,
};
use crate::world::blocks::{Block, BlockPos};
use crate::world::chunk::{filled, section_pos};
use crate::world::generator::FlatWorldGenerator;
use crate::world::nbt::{entries_wf, entry_index, list_wf, lookup, root_dec, root_enc, value_type, value_wf, NbtValue, law_root_roundtrip};

verus! {

proof fn lemma_utf8_len(s: Seq<char>)
    ensures
        encode_utf8(s).len() <= 4 * s.len(),
    decreases s.len(),
{
    if s.len() > 0 {
        lemma_utf8_len(s.drop_first());
    }
}

proof fn lemma_entries_wf_all(es: Seq<(Seq<char>, NbtValue)>)
    requires
        forall|i: int| 0 <= i < es.len() ==> (#[trigger] es[i]).0.len() <= 100 && value_wf(es[i].1),
    ensures
        entries_wf(es),
    decreases es.len(),
{
    if es.len() > 0 {
        lemma_utf8_len(es[0].0);
        assert forall|i: int| 0 <= i < es.drop_first().len() implies (#[trigger] es.drop_first()[i]).0.len() <= 100
            && value_wf(es.drop_first()[i].1) by {
            assert(es.drop_first()[i] == es[i + 1]);
        }
        lemma_entries_wf_all(es.drop_first());
    }
}

proof fn lemma_list_wf_all(es: Seq<NbtValue>, t: u8)
    requires
        forall|i: int| 0 <= i < es.len() ==> value_type(#[trigger] es[i]) == t && value_wf(es[i]),
    ensures
        list_wf(es, t),
    decreases es.len(),
{
    if es.len() > 0 {
        assert forall|i: int| 0 <= i < es.drop_first().len() implies value_type(#[trigger] es.drop_first()[i]) == t
            && value_wf(es.drop_first()[i]) by {
            assert(es.drop_first()[i] == es[i + 1]);
        }
        lemma_list_wf_all(es.drop_first(), t);
    }
}

/// The first entry with a name is found at its index.
proof fn lemma_entry_at(es: Seq<(Seq<char>, NbtValue)>, key: Seq<char>, i: int)
    requires
        0 <= i < es.len(),
        es[i].0 == key,
        forall|j: int| 0 <= j < i ==> es[j].0 != key,
    ensures
        entry_index(es, key) == Some(i),
    decreases i,
{
    if i > 0 {
        assert forall|j: int| 0 <= j < i - 1 implies es.drop_first()[j].0 != key by {
            assert(es.drop_first()[j] == es[j + 1]);
        }
        lemma_entry_at(es.drop_first(), key, i - 1);
    }
}

proof fn lemma_literals()
    ensures
        "Y"@.len() == 1 && "Y"@[0] == 'Y',
        "Blocks"@.len() == 6 && "Blocks"@[0] == 'B' && "Blocks"@[1] == 'l',
        "Data"@.len() == 4 && "Data"@[0] == 'D',
        "BlockLight"@.len() == 10,
        "SkyLight"@.len() == 8,
        "Level"@.len() == 5,
        "xPos"@.len() == 4 && "xPos"@[0] == 'x',
        "zPos"@.len() == 4 && "zPos"@[0] == 'z',
        "LastUpdate"@.len() == 10 && "LastUpdate"@[0] == 'L',
        "LightPopulated"@.len() == 14,
        "TerrainPopulated"@.len() == 16,
        "V"@.len() == 1,
        "InhabitedTime"@.len() == 13,
        "Biomes"@.len() == 6 && "Biomes"@[1] == 'i',
        "HeightMap"@.len() == 9,
        "Sections"@.len() == 8 && "Sections"@[0] == 'S' && "Sections"@[1] == 'e',
        "Entities"@.len() == 8 && "Entities"@[0] == 'E',
        "TileEntities"@.len() == 12,
        "TileTicks"@.len() == 9,
{
    reveal_strlit("Y");
    reveal_strlit("Blocks");
    reveal_strlit("Data");
    reveal_strlit("BlockLight");
    reveal_strlit("SkyLight");
    reveal_strlit("Level");
    reveal_strlit("xPos");
    reveal_strlit("zPos");
    reveal_strlit("LastUpdate");
    reveal_strlit("LightPopulated");
    reveal_strlit("TerrainPopulated");
    reveal_strlit("V");
    reveal_strlit("InhabitedTime");
    reveal_strlit("Biomes");
    reveal_strlit("HeightMap");
    reveal_strlit("Sections");
    reveal_strlit("Entities");
    reveal_strlit("TileEntities");
    reveal_strlit("TileTicks");
}

/// A saved section is well formed and its parts are read back.
proof fn lemma_section_value(sy: int, ids: Seq<u8>, data: Seq<u8>)
    requires
        0 <= sy < 16,
        ids.len() == 4096,
        data.len() == 2048,
    ensures
        value_wf(section_value(sy, ids, data)),
        value_type(section_value(sy, ids, data)) == 10,
        section_parts(section_value(sy, ids, data)) == Some((sy as i8, ids, Some(data))),
        section_readable(section_value(sy, ids, data)),
{
    lemma_literals();
    let es = section_entries(sy, ids, data);
    assert forall|i: int| 0 <= i < es.len() implies (#[trigger] es[i]).0.len() <= 100 && value_wf(es[i].1) by {
        if i == 0 {
        } else if i == 1 {
        } else if i == 2 {
        } else if i == 3 {
        } else {
        }
    }
    lemma_entries_wf_all(es);
    lemma_entry_at(es, "Y"@, 0);
    lemma_entry_at(es, "Blocks"@, 1);
    lemma_entry_at(es, "Data"@, 2);
}

/// The saved sections are well formed compounds that can be read.
proof fn lemma_saved_sections(m: Map<BlockPos, Block>, g: FlatWorldGenerator, is_new: bool, cx: i32, cz: i32, k: int)
    requires
        0 <= k <= 16,
    ensures
        saved_sections(m, g, is_new, cx, cz, k).len() <= k,
        forall|i: int|
            0 <= i < saved_sections(m, g, is_new, cx, cz, k).len() ==> value_type(
                #[trigger] saved_sections(m, g, is_new, cx, cz, k)[i],
            ) == 10 && value_wf(saved_sections(m, g, is_new, cx, cz, k)[i]) && section_readable(
                saved_sections(m, g, is_new, cx, cz, k)[i],
            ),
    decreases k,
{
    if k > 0 {
        lemma_saved_sections(m, g, is_new, cx, cz, k - 1);
        lemma_section_value(k - 1, section_ids(m, g, is_new, cx, cz, k - 1), section_data(m, g, is_new, cx, cz, k - 1));
    }
}

/// A saved chunk is well formed, and its coordinates and sections are read
/// back.
proof fn lemma_chunk_value(
    cx: i32,
    cz: i32,
    m: Map<BlockPos, Block>,
    g: FlatWorldGenerator,
    tiles: Seq<NbtValue>,
    is_new: bool,
)
    requires
        list_wf(tiles, 10),
        tiles.len() <= i32::MAX,
    ensures
        value_wf(chunk_value(cx, cz, m, g, tiles, is_new)),
        chunk_parts(chunk_value(cx, cz, m, g, tiles, is_new)) == Some((cx, cz, saved_sections(m, g, is_new, cx, cz, 16))),
{
    lemma_literals();
    lemma_saved_sections(m, g, is_new, cx, cz, 16);
    let secs = saved_sections(m, g, is_new, cx, cz, 16);
    lemma_list_wf_all(secs, 10);
    lemma_list_wf_all(Seq::<NbtValue>::empty(), 10);
    let level = level_value(cx, cz, m, g, tiles, is_new);
    let es = level_entries(cx, cz, m, g, tiles, is_new);
    assert forall|i: int| 0 <= i < es.len() implies (#[trigger] es[i]).0.len() <= 100 && value_wf(es[i].1) by {
        if i == 0 {
        } else if i == 1 {
        } else if i == 2 {
        } else if i == 3 {
        } else if i == 4 {
        } else if i == 5 {
        } else if i == 6 {
        } else if i == 7 {
        } else if i == 8 {
        } else if i == 9 {
        } else if i == 10 {
        } else if i == 11 {
        } else {
        }
    }
    lemma_entries_wf_all(es);
    let rs = seq![("Level"@, level)];
    lemma_entries_wf_all(rs);
    lemma_entry_at(rs, "Level"@, 0);
    lemma_entry_at(es, "xPos"@, 0);
    lemma_entry_at(es, "zPos"@, 1);
    assert forall|j: int| 0 <= j < 9 implies es[j].0 != "Sections"@ by {
        if j == 0 {
            assert(es[j].0[0] != "Sections"@[0]);
        } else if j == 4 {
            assert(es[j].0.len() != "Sections"@.len());
        } else if j == 7 {
            assert(es[j].0[1] != "Sections"@[1]);
        } else {
            assert(es[j].0.len() != "Sections"@.len());
        }
    }
    lemma_entry_at(es, "Sections"@, 9);
}

/// A block as a section stores it: its id and the low four bits of its
/// metadata.
pub open spec fn stored_block(b: Block) -> Block {
    Block { id: b.id, metadata: (b.metadata % 16) as u8 }
}

/// The position lies in the column of chunk (`cx`, `cz`).
pub open spec fn in_column(cx: i32, cz: i32, p: BlockPos) -> bool {
    0 <= p.0 - 16 * cx < 16 && 0 <= p.2 - 16 * cz < 16
}

/// Section `sy` is saved.
pub open spec fn section_saved(m: Map<BlockPos, Block>, g: FlatWorldGenerator, is_new: bool, cx: i32, cz: i32, sy: int) -> bool {
    sy == 0 || has_nonair(section_ids(m, g, is_new, cx, cz, sy))
}

/// What loading the first `k` saved sections puts in an empty map.
pub open spec fn loaded_upto(m: Map<BlockPos, Block>, g: FlatWorldGenerator, is_new: bool, cx: i32, cz: i32, k: int, lg: Option<FlatWorldGenerator>) -> Map<BlockPos, Block> {
    Map::new(
        |p: BlockPos|
            in_column(cx, cz, p) && (p.1 as int) / 16 < k && section_saved(m, g, is_new, cx, cz, (p.1 as int) / 16)
                && !skipped(stored_block(saved_block(m, g, is_new, p)), p.1, lg),
        |p: BlockPos| stored_block(saved_block(m, g, is_new, p)),
    )
}

/// The positions of a section are those of the column at its heights, and
/// the section index of one gives it back.
proof fn lemma_section_cell(cx: i32, cz: i32, sy: int, p: BlockPos)
    requires
        0 <= sy < 16,
        -0x800_0000 <= cx < 0x800_0000,
        -0x800_0000 <= cz < 0x800_0000,
    ensures
        in_section(cx, cz, sy as i8, p) <==> in_column(cx, cz, p) && (p.1 as int) / 16 == sy,
        in_section(cx, cz, sy as i8, p) ==> 0 <= section_index(cx, cz, sy as i8, p) < 4096 && section_pos(
            cx,
            cz,
            sy,
            section_index(cx, cz, sy as i8, p),
        ) == p,
{
    let y = p.1 as int;
    let d = y - 16 * sy;
    assert(-256 < d < 256);
    if 0 <= d < 16 {
        assert(local_y(sy as i8, p.1) == d);
    } else if d < 0 {
        assert(local_y(sy as i8, p.1) == d + 256);
    } else {
        assert(local_y(sy as i8, p.1) == d);
    }
    if in_column(cx, cz, p) && y / 16 == sy {
        let lx = p.0 - 16 * cx;
        let lz = p.2 - 16 * cz;
        let i = d * 256 + lz * 16 + lx;
        assert(i % 16 == lx && (i / 16) % 16 == lz && i / 256 == d) by (nonlinear_arith)
            requires
                i == d * 256 + lz * 16 + lx,
                0 <= lx < 16,
                0 <= lz < 16,
                0 <= d < 16,
        ;
        assert(section_index(cx, cz, sy as i8, p) == i);
    }
}

/// The metadata nibble read back from a saved section.
proof fn lemma_saved_nibble(m: Map<BlockPos, Block>, g: FlatWorldGenerator, is_new: bool, cx: i32, cz: i32, sy: int, i: int)
    requires
        0 <= i < 4096,
    ensures
        nibble(section_data(m, g, is_new, cx, cz, sy), i) == section_meta(m, g, is_new, cx, cz, sy, i),
{
    let j = i / 2;
    let a = section_meta(m, g, is_new, cx, cz, sy, 2 * j);
    let b = section_meta(m, g, is_new, cx, cz, sy, 2 * j + 1);
    assert(0 <= a < 16 && 0 <= b < 16);
    assert(section_data(m, g, is_new, cx, cz, sy)[j] == (a + 16 * b) as u8);
    assert((a + 16 * b) % 16 == a && (a + 16 * b) / 16 == b) by (nonlinear_arith)
        requires
            0 <= a < 16,
            0 <= b < 16,
    ;
    assert(i == 2 * j || i == 2 * j + 1);
}

/// Loading one saved section gives its blocks as stored, but those the
/// generator makes at their height.
proof fn lemma_section_load(m: Map<BlockPos, Block>, g: FlatWorldGenerator, is_new: bool, cx: i32, cz: i32, sy: int, lg: Option<FlatWorldGenerator>)
    requires
        0 <= sy < 16,
        -0x800_0000 <= cx < 0x800_0000,
        -0x800_0000 <= cz < 0x800_0000,
    ensures
        section_blocks(
            cx,
            cz,
            sy as i8,
            section_ids(m, g, is_new, cx, cz, sy),
            Some(section_data(m, g, is_new, cx, cz, sy)),
            lg,
            4096,
        ) == Map::new(
            |p: BlockPos|
                in_column(cx, cz, p) && (p.1 as int) / 16 == sy && !skipped(
                    stored_block(saved_block(m, g, is_new, p)),
                    p.1,
                    lg,
                ),
            |p: BlockPos| stored_block(saved_block(m, g, is_new, p)),
        ),
{
    let ids = section_ids(m, g, is_new, cx, cz, sy);
    let data = section_data(m, g, is_new, cx, cz, sy);
    let a = section_blocks(cx, cz, sy as i8, ids, Some(data), lg, 4096);
    let b = Map::new(
        |p: BlockPos|
            in_column(cx, cz, p) && (p.1 as int) / 16 == sy && !skipped(
                stored_block(saved_block(m, g, is_new, p)),
                p.1,
                lg,
            ),
        |p: BlockPos| stored_block(saved_block(m, g, is_new, p)),
    );
    assert forall|p: BlockPos| #![auto] in_section(cx, cz, sy as i8, p) implies section_block(
        ids,
        Some(data),
        section_index(cx, cz, sy as i8, p),
    ) == stored_block(saved_block(m, g, is_new, p)) by {
        lemma_section_cell(cx, cz, sy, p);
        let i = section_index(cx, cz, sy as i8, p);
        lemma_saved_nibble(m, g, is_new, cx, cz, sy, i);
    }
    assert forall|p: BlockPos| #![auto] a.dom().contains(p) <==> b.dom().contains(p) by {
        lemma_section_cell(cx, cz, sy, p);
    }
    assert(a =~= b);
}

/// Loading the first `k` saved sections into an empty map gives
/// `loaded_upto`.
proof fn lemma_sections_load(m: Map<BlockPos, Block>, g: FlatWorldGenerator, is_new: bool, cx: i32, cz: i32, k: int, lg: Option<FlatWorldGenerator>)
    requires
        0 <= k <= 16,
        -0x800_0000 <= cx < 0x800_0000,
        -0x800_0000 <= cz < 0x800_0000,
    ensures
        load_sections(Map::empty(), cx, cz, saved_sections(m, g, is_new, cx, cz, k), lg) == loaded_upto(
            m,
            g,
            is_new,
            cx,
            cz,
            k,
            lg,
        ),
    decreases k,
{
    if k == 0 {
        assert(loaded_upto(m, g, is_new, cx, cz, 0, lg) =~= Map::empty());
    } else {
        lemma_sections_load(m, g, is_new, cx, cz, k - 1, lg);
        let prev = saved_sections(m, g, is_new, cx, cz, k - 1);
        let ids = section_ids(m, g, is_new, cx, cz, k - 1);
        let data = section_data(m, g, is_new, cx, cz, k - 1);
        if section_saved(m, g, is_new, cx, cz, k - 1) {
            let sv = section_value(k - 1, ids, data);
            lemma_section_value(k - 1, ids, data);
            assert(prev.push(sv).drop_last() =~= prev);
            lemma_section_load(m, g, is_new, cx, cz, k - 1, lg);
            assert(loaded_upto(m, g, is_new, cx, cz, k, lg) =~= loaded_upto(m, g, is_new, cx, cz, k - 1, lg).union_prefer_right(
                section_blocks(cx, cz, (k - 1) as i8, ids, Some(data), lg, 4096),
            ));
        } else {
            assert(loaded_upto(m, g, is_new, cx, cz, k, lg) =~= loaded_upto(m, g, is_new, cx, cz, k - 1, lg));
        }
    }
}

/// A block whose metadata fits in four bits, and air with metadata 0.
pub open spec fn normal_block(b: Block) -> bool {
    b.metadata < 16 && (b.id == 0 ==> b.metadata == 0)
}

/// The block of a world at a position: the stored one, else the generated
/// one.
pub open spec fn world_block(w: Map<BlockPos, Block>, g: FlatWorldGenerator, p: BlockPos) -> Block {
    if w.contains_key(p) {
        w[p]
    } else {
        g.block_at(p.1)
    }
}

/// The bytes `chunk_to_nbt` writes can be loaded by `nbt_to_blocks`, and
/// the world then holds, at every position of the chunk's column, the
/// block that was saved there; blocks need metadata within four bits and
/// air metadata 0 (sections store a nibble, and all-air sections are not
/// stored), and the generator no layer above the lowest section.
pub proof fn law_chunk_save_load(
    cx: i32,
    cz: i32,
    m: Map<BlockPos, Block>,
    g: FlatWorldGenerator,
    tiles: Seq<NbtValue>,
    is_new: bool,
    p: BlockPos,
)
    requires
        -0x800_0000 <= cx < 0x800_0000,
        -0x800_0000 <= cz < 0x800_0000,
        list_wf(tiles, 10),
        tiles.len() <= i32::MAX,
        g.layers().len() <= 16,
        forall|q: BlockPos| m.contains_key(q) ==> normal_block(#[trigger] m[q]),
        forall|y: u8| normal_block(#[trigger] g.block_at(y)),
        in_column(cx, cz, p),
    ensures
        chunk_loadable(root_enc(Seq::empty(), chunk_value(cx, cz, m, g, tiles, is_new))),
        world_block(load_chunk(Map::empty(), root_enc(Seq::empty(), chunk_value(cx, cz, m, g, tiles, is_new)), Some(g)), g, p)
            == saved_block(m, g, is_new, p),
{
    let v = chunk_value(cx, cz, m, g, tiles, is_new);
    let bytes = root_enc(Seq::empty(), v);
    lemma_chunk_value(cx, cz, m, g, tiles, is_new);
    law_root_roundtrip(Seq::empty(), v, Seq::empty());
    assert(bytes + Seq::<u8>::empty() =~= bytes);
    lemma_saved_sections(m, g, is_new, cx, cz, 16);
    lemma_sections_load(m, g, is_new, cx, cz, 16, Some(g));
    let saved = saved_block(m, g, is_new, p);
    assert(normal_block(saved)) by {
        if m.contains_key(p) {
        } else if is_new {
        } else {
        }
    }
    let sy = (p.1 as int) / 16;
    lemma_section_cell(cx, cz, sy, p);
    if !section_saved(m, g, is_new, cx, cz, sy) {
        let i = section_index(cx, cz, sy as i8, p);
        assert(section_ids(m, g, is_new, cx, cz, sy)[i] == saved.id);
        assert(saved.id == 0);
        assert(g.block_at(p.1) == Block { id: 0, metadata: 0 });
    }
}

/// The loader without a generator reads back, from the bytes
/// `chunk_to_nbt` writes, exactly the positions of the chunk's column
/// whose saved block is not air, each with the block saved there; blocks
/// need metadata within four bits, and the generator no layer above the
/// lowest section.
pub proof fn law_raw_chunk_save_load(
    cx: i32,
    cz: i32,
    m: Map<BlockPos, Block>,
    g: FlatWorldGenerator,
    tiles: Seq<NbtValue>,
    is_new: bool,
)
    requires
        -0x800_0000 <= cx < 0x800_0000,
        -0x800_0000 <= cz < 0x800_0000,
        list_wf(tiles, 10),
        tiles.len() <= i32::MAX,
        g.layers().len() <= 16,
        forall|q: BlockPos| m.contains_key(q) ==> (#[trigger] m[q]).metadata < 16,
        forall|y: u8| (#[trigger] g.block_at(y)).metadata < 16,
    ensures
        chunk_loadable(root_enc(Seq::empty(), chunk_value(cx, cz, m, g, tiles, is_new))),
        load_chunk(Map::empty(), root_enc(Seq::empty(), chunk_value(cx, cz, m, g, tiles, is_new)), None) == Map::new(
            |p: BlockPos| in_column(cx, cz, p) && saved_block(m, g, is_new, p).id != 0,
            |p: BlockPos| saved_block(m, g, is_new, p),
        ),
{
    let v = chunk_value(cx, cz, m, g, tiles, is_new);
    let bytes = root_enc(Seq::empty(), v);
    lemma_chunk_value(cx, cz, m, g, tiles, is_new);
    law_root_roundtrip(Seq::empty(), v, Seq::empty());
    assert(bytes + Seq::<u8>::empty() =~= bytes);
    lemma_saved_sections(m, g, is_new, cx, cz, 16);
    lemma_sections_load(m, g, is_new, cx, cz, 16, None);
    let want = Map::new(
        |p: BlockPos| in_column(cx, cz, p) && saved_block(m, g, is_new, p).id != 0,
        |p: BlockPos| saved_block(m, g, is_new, p),
    );
    let got = loaded_upto(m, g, is_new, cx, cz, 16, None);
    assert forall|p: BlockPos| #![auto] got.dom().contains(p) <==> want.dom().contains(p) by {
        let saved = saved_block(m, g, is_new, p);
        assert(saved.metadata < 16) by {
            if m.contains_key(p) {
            } else if is_new {
            } else {
            }
        }
        let sy = (p.1 as int) / 16;
        if in_column(cx, cz, p) {
            lemma_section_cell(cx, cz, sy, p);
            if !section_saved(m, g, is_new, cx, cz, sy) {
                let i = section_index(cx, cz, sy as i8, p);
                assert(section_ids(m, g, is_new, cx, cz, sy)[i] == saved.id);
            }
        }
    }
    assert forall|p: BlockPos| #![auto] got.dom().contains(p) implies got[p] == want[p] by {
        let saved = saved_block(m, g, is_new, p);
        assert(saved.metadata < 16) by {
            if m.contains_key(p) {
            } else if is_new {
            } else {
            }
        }
    }
    assert(got =~= want);
}

proof fn lemma_load_sections_over(
    m: Map<BlockPos, Block>,
    cx: i32,
    cz: i32,
    secs: Seq<NbtValue>,
    gen: Option<FlatWorldGenerator>,
)
    ensures
        load_sections(m, cx, cz, secs, gen) == m.union_prefer_right(load_sections(Map::empty(), cx, cz, secs, gen)),
    decreases secs.len(),
{
    if secs.len() == 0 {
        assert(m.union_prefer_right(Map::empty()) =~= m);
    } else {
        lemma_load_sections_over(m, cx, cz, secs.drop_last(), gen);
        let e = load_sections(Map::empty(), cx, cz, secs.drop_last(), gen);
        match section_parts(secs.last()) {
            Some((sy, ids, data)) => {
                let b = section_blocks(cx, cz, sy, ids, data, gen, 4096);
                assert(m.union_prefer_right(e).union_prefer_right(b) =~= m.union_prefer_right(e.union_prefer_right(b)));
            },
            None => {},
        }
    }
}

/// Loading the bytes `chunk_to_nbt` writes into a map of blocks sets, at
/// every position of the chunk's column whose saved block differs from the
/// generated one, the saved block, and keeps every other entry of the map
/// as it was; blocks need metadata within four bits and air metadata 0,
/// and the generator no layer above the lowest section.
pub proof fn law_chunk_load_into(
    cx: i32,
    cz: i32,
    m: Map<BlockPos, Block>,
    g: FlatWorldGenerator,
    tiles: Seq<NbtValue>,
    is_new: bool,
    out: Map<BlockPos, Block>,
)
    requires
        -0x800_0000 <= cx < 0x800_0000,
        -0x800_0000 <= cz < 0x800_0000,
        list_wf(tiles, 10),
        tiles.len() <= i32::MAX,
        g.layers().len() <= 16,
        forall|q: BlockPos| m.contains_key(q) ==> normal_block(#[trigger] m[q]),
        forall|y: u8| normal_block(#[trigger] g.block_at(y)),
    ensures
        load_chunk(out, root_enc(Seq::empty(), chunk_value(cx, cz, m, g, tiles, is_new)), Some(g))
            == out.union_prefer_right(
            Map::new(
                |p: BlockPos| in_column(cx, cz, p) && saved_block(m, g, is_new, p) != g.block_at(p.1),
                |p: BlockPos| saved_block(m, g, is_new, p),
            ),
        ),
{
    let v = chunk_value(cx, cz, m, g, tiles, is_new);
    let bytes = root_enc(Seq::empty(), v);
    lemma_chunk_value(cx, cz, m, g, tiles, is_new);
    law_root_roundtrip(Seq::empty(), v, Seq::empty());
    assert(bytes + Seq::<u8>::empty() =~= bytes);
    lemma_saved_sections(m, g, is_new, cx, cz, 16);
    lemma_sections_load(m, g, is_new, cx, cz, 16, Some(g));
    lemma_load_sections_over(out, cx, cz, saved_sections(m, g, is_new, cx, cz, 16), Some(g));
    let want = Map::new(
        |p: BlockPos| in_column(cx, cz, p) && saved_block(m, g, is_new, p) != g.block_at(p.1),
        |p: BlockPos| saved_block(m, g, is_new, p),
    );
    let got = loaded_upto(m, g, is_new, cx, cz, 16, Some(g));
    assert forall|p: BlockPos| #![auto] got.dom().contains(p) <==> want.dom().contains(p) by {
        let saved = saved_block(m, g, is_new, p);
        assert(normal_block(saved)) by {
            if m.contains_key(p) {
            } else if is_new {
            } else {
            }
        }
        let sy = (p.1 as int) / 16;
        if in_column(cx, cz, p) {
            lemma_section_cell(cx, cz, sy, p);
            if !section_saved(m, g, is_new, cx, cz, sy) {
                let i = section_index(cx, cz, sy as i8, p);
                assert(section_ids(m, g, is_new, cx, cz, sy)[i] == saved.id);
                assert(g.block_at(p.1) == Block { id: 0, metadata: 0 });
            }
        }
    }
    assert forall|p: BlockPos| #![auto] got.dom().contains(p) implies got[p] == want[p] by {
        let saved = saved_block(m, g, is_new, p);
        assert(normal_block(saved)) by {
            if m.contains_key(p) {
            } else if is_new {
            } else {
            }
        }
    }
    assert(got =~= want);
}

} // verus!
