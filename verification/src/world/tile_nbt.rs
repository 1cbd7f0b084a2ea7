//! Signs and chests as they are stored in a chunk's `TileEntities` list.

use vstd::prelude::*;
use crate::protocol::packets::play::inventory::Slot;
use crate::text::{push_str, replace_all, replace_all_of};
use crate::world::nbt::{
    entry_models, lemma_entry_models_push, lemma_models_len, lemma_models_push, lookup, models, root_dec, NbtReader,
    NbtTag, NbtValue,
};
use crate::world::playerdata::int_or;

verus! {

/// A block with contents of its own.
pub enum TileEntity {
    /// A sign and its four lines.
    Sign { lines: [String; 4] },
    /// A chest and its slots.
    Chest { items: Vec<Option<Slot>> },
}

/// Text with backslashes and double quotes escaped for a JSON string.
pub open spec fn escaped(s: Seq<char>) -> Seq<char> {
    replace_all(replace_all(s, seq!['\\'], seq!['\\', '\\']), seq!['"'], seq!['\\', '"'])
}

/// A sign line as stored: a JSON text component.
pub open spec fn sign_text(s: Seq<char>) -> Seq<char> {
    seq!['{', '"', 't', 'e', 'x', 't', '"', ':', '"'] + escaped(s) + seq!['"', '}']
}

/// A chest slot as stored.
pub open spec fn chest_item_value(slot: int, s: Slot) -> NbtValue {
    NbtValue::Compound(
        seq![
            ("Slot"@, NbtValue::Byte(slot as i8)),
            ("id"@, NbtValue::Int(s.item_id as i32)),
            ("Count"@, NbtValue::Byte(s.count as i8)),
            ("Damage"@, NbtValue::Short(s.metadata)),
        ],
    )
}

/// The filled slots of a chest as stored, with their indices.
pub open spec fn chest_items_value(items: Seq<Option<Slot>>) -> Seq<NbtValue>
    decreases items.len(),
{
    if items.len() == 0 {
        seq![]
    } else {
        let prev = chest_items_value(items.drop_last());
        match items.last() {
            Some(s) => prev.push(chest_item_value(items.len() - 1, s)),
            None => prev,
        }
    }
}

/// A tile entity at (`x`, `y`, `z`) as stored.
pub open spec fn tile_value(x: i32, y: i32, z: i32, tile: TileEntity) -> NbtValue {
    match tile {
        TileEntity::Sign { lines } => NbtValue::Compound(
            seq![
                ("id"@, NbtValue::String("Sign"@)),
                ("x"@, NbtValue::Int(x)),
                ("y"@, NbtValue::Int(y)),
                ("z"@, NbtValue::Int(z)),
                ("Text1"@, NbtValue::String(sign_text(lines@[0]@))),
                ("Text2"@, NbtValue::String(sign_text(lines@[1]@))),
                ("Text3"@, NbtValue::String(sign_text(lines@[2]@))),
                ("Text4"@, NbtValue::String(sign_text(lines@[3]@))),
            ],
        ),
        TileEntity::Chest { items } => NbtValue::Compound(
            seq![
                ("id"@, NbtValue::String("Chest"@)),
                ("x"@, NbtValue::Int(x)),
                ("y"@, NbtValue::Int(y)),
                ("z"@, NbtValue::Int(z)),
                ("Items"@, NbtValue::List(10, chest_items_value(items@))),
            ],
        ),
    }
}

fn push_entry(es: &mut Vec<(String, NbtTag)>, name: &str, tag: NbtTag)
    ensures
        entry_models(final(es)@) == entry_models(old(es)@).push((name@, tag.model())),
{
    let e = (name.to_owned(), tag);
    proof {
        lemma_entry_models_push(es@, e);
    }
    es.push(e);
}

/// A sign line as a JSON text component.
fn sign_line(line: &str) -> (r: String)
    ensures
        r@ == sign_text(line@),
{
    proof {
        reveal_strlit("\\");
        reveal_strlit("\\\\");
        reveal_strlit("\"");
        reveal_strlit("\\\"");
        reveal_strlit("{\"text\":\"");
        reveal_strlit("\"}");
    }
    let once = replace_all_of(line, "\\", "\\\\");
    let twice = replace_all_of(once.as_str(), "\"", "\\\"");
    let mut r = String::new();
    push_str(&mut r, "{\"text\":\"");
    push_str(&mut r, twice.as_str());
    push_str(&mut r, "\"}");
    assert("\\"@ =~= seq!['\\']);
    assert("\\\\"@ =~= seq!['\\', '\\']);
    assert("\""@ =~= seq!['"']);
    assert("\\\""@ =~= seq!['\\', '"']);
    assert("{\"text\":\""@ =~= seq!['{', '"', 't', 'e', 'x', 't', '"', ':', '"']);
    assert("\"}"@ =~= seq!['"', '}']);
    assert(r@ =~= sign_text(line@));
    r
}

/// The tag a tile entity at (`x`, `y`, `z`) is stored as.
pub fn tile_entity_to_nbt(x: i32, y: i32, z: i32, tile: &TileEntity) -> (r: Option<NbtTag>)
    ensures
        r matches Some(t) && t.model() == tile_value(x, y, z, *tile),
{
    let mut es: Vec<(String, NbtTag)> = Vec::new();
    proof {
        reveal_with_fuel(entry_models, 1);
    }
    assert(entry_models(es@) =~= Seq::<(Seq<char>, NbtValue)>::empty());
    match tile {
        TileEntity::Sign { lines } => {
            push_entry(&mut es, "id", NbtTag::String(String::from_str("Sign")));
            push_entry(&mut es, "x", NbtTag::Int(x));
            push_entry(&mut es, "y", NbtTag::Int(y));
            push_entry(&mut es, "z", NbtTag::Int(z));
            push_entry(&mut es, "Text1", NbtTag::String(sign_line(lines[0].as_str())));
            push_entry(&mut es, "Text2", NbtTag::String(sign_line(lines[1].as_str())));
            push_entry(&mut es, "Text3", NbtTag::String(sign_line(lines[2].as_str())));
            push_entry(&mut es, "Text4", NbtTag::String(sign_line(lines[3].as_str())));
            assert(entry_models(es@) =~= match tile_value(x, y, z, *tile) {
                NbtValue::Compound(e) => e,
                _ => seq![],
            });
        },
        TileEntity::Chest { items } => {
            let mut list: Vec<NbtTag> = Vec::new();
            let mut i: usize = 0;
            proof {
                reveal_with_fuel(models, 1);
            }
            assert(models(list@) =~= chest_items_value(items@.take(0)));
            while i < items.len()
                invariant
                    i <= items@.len(),
                    models(list@) == chest_items_value(items@.take(i as int)),
                decreases items.len() - i,
            {
                proof {
                    assert(items@.take(i + 1).drop_last() =~= items@.take(i as int));
                    assert(items@.take(i + 1).last() == items@[i as int]);
                }
                if let Some(s) = items[i] {
                    let mut ies: Vec<(String, NbtTag)> = Vec::new();
                    assert(entry_models(ies@) =~= Seq::<(Seq<char>, NbtValue)>::empty());
                    push_entry(&mut ies, "Slot", NbtTag::Byte(i as i8));
                    push_entry(&mut ies, "id", NbtTag::Int(s.item_id as i32));
                    push_entry(&mut ies, "Count", NbtTag::Byte(s.count as i8));
                    push_entry(&mut ies, "Damage", NbtTag::Short(s.metadata));
                    assert(entry_models(ies@) =~= seq![
                        ("Slot"@, NbtValue::Byte((i as int) as i8)),
                        ("id"@, NbtValue::Int(s.item_id as i32)),
                        ("Count"@, NbtValue::Byte(s.count as i8)),
                        ("Damage"@, NbtValue::Short(s.metadata)),
                    ]);
                    let t = NbtTag::Compound(ies);
                    assert(t.model() == chest_item_value(i as int, s));
                    proof {
                        lemma_models_push(list@, t);
                    }
                    list.push(t);
                }
                i = i + 1;
            }
            assert(items@.take(i as int) =~= items@);
            push_entry(&mut es, "id", NbtTag::String(String::from_str("Chest")));
            push_entry(&mut es, "x", NbtTag::Int(x));
            push_entry(&mut es, "y", NbtTag::Int(y));
            push_entry(&mut es, "z", NbtTag::Int(z));
            push_entry(&mut es, "Items", NbtTag::List(10, list));
            assert(entry_models(es@) =~= match tile_value(x, y, z, *tile) {
                NbtValue::Compound(e) => e,
                _ => seq![],
            });
        },
    }
    Some(NbtTag::Compound(es))
}

/// A tile entity read from a chunk: its position, its id, and its whole
/// tag.
pub struct RawTileEntity {
    pub x: i32,
    pub y: i32,
    pub z: i32,
    pub id: String,
    pub compound: NbtTag,
}

/// The tile entities of a list read back: those with a string `id`, their
/// position ints defaulting to 0.
pub open spec fn raw_tiles(entries: Seq<NbtValue>) -> Seq<(i32, i32, i32, Seq<char>, NbtValue)>
    decreases entries.len(),
{
    if entries.len() == 0 {
        seq![]
    } else {
        let prev = raw_tiles(entries.drop_last());
        let e = entries.last();
        match lookup(e, "id"@) {
            Some(NbtValue::String(id)) => prev.push(
                (int_or(lookup(e, "x"@), 0), int_or(lookup(e, "y"@), 0), int_or(lookup(e, "z"@), 0), id, e),
            ),
            _ => prev,
        }
    }
}

/// The tile entities of a chunk root: its `Level`'s `TileEntities` list.
pub open spec fn tile_entities_of(root: NbtValue) -> Seq<(i32, i32, i32, Seq<char>, NbtValue)> {
    match lookup(root, "Level"@) {
        Some(level) => match lookup(level, "TileEntities"@) {
            Some(NbtValue::List(_, es)) => raw_tiles(es),
            _ => seq![],
        },
        None => seq![],
    }
}

/// The value of a raw tile entity.
pub open spec fn raw_view(t: RawTileEntity) -> (i32, i32, i32, Seq<char>, NbtValue) {
    (t.x, t.y, t.z, t.id@, t.compound.model())
}

fn int_field(tag: &NbtTag, key: &str) -> (r: i32)
    ensures
        r == int_or(lookup(tag.model(), key@), 0),
{
    match tag.get(key) {
        Some(t) => match t.as_i32() {
            Some(v) => v,
            None => 0,
        },
        None => 0,
    }
}

/// The tile entities stored in a chunk's NBT bytes.
pub fn nbt_to_tile_entities(nbt_data: &[u8]) -> (r: Vec<RawTileEntity>)
    requires
        root_dec(nbt_data@) is Some,
    ensures
        r@.len() == tile_entities_of(root_dec(nbt_data@).unwrap().1).len(),
        forall|i: int|
            0 <= i < r@.len() ==> raw_view(#[trigger] r@[i]) == tile_entities_of(root_dec(nbt_data@).unwrap().1)[i],
{
    let mut reader = NbtReader::new(nbt_data);
    assert(reader.rest() =~= nbt_data@);
    let (_, root) = reader.read_named_root();
    let mut out: Vec<RawTileEntity> = Vec::new();
    let level = match root.get("Level") {
        Some(level) => level,
        None => return out,
    };
    let list = match level.get("TileEntities") {
        Some(t) => match t.as_list() {
            Some(list) => list,
            None => return out,
        },
        None => return out,
    };
    let ghost es = models(list@);
    proof {
        lemma_models_len(list@);
    }
    assert(tile_entities_of(root.model()) == raw_tiles(es));
    let mut i: usize = 0;
    while i < list.len()
        invariant
            i <= list@.len(),
            es == models(list@),
            es.len() == list@.len(),
            forall|j: int| 0 <= j < list@.len() ==> #[trigger] es[j] == list@[j].model(),
            out@.len() == raw_tiles(es.take(i as int)).len(),
            forall|j: int| 0 <= j < out@.len() ==> raw_view(#[trigger] out@[j]) == raw_tiles(es.take(i as int))[j],
        decreases list.len() - i,
    {
        proof {
            assert(es.take(i + 1).drop_last() =~= es.take(i as int));
            assert(es.take(i + 1).last() == list@[i as int].model());
        }
        let entry = &list[i];
        let id = match entry.get("id") {
            Some(t) => t.as_string(),
            None => None,
        };
        if let Some(id) = id {
            let x = int_field(entry, "x");
            let y = int_field(entry, "y");
            let z = int_field(entry, "z");
            let raw = RawTileEntity { x, y, z, id: id.to_owned(), compound: entry.duplicate() };
            let ghost before = out@;
            out.push(raw);
            assert forall|j: int| 0 <= j < out@.len() implies raw_view(#[trigger] out@[j]) == raw_tiles(
                es.take(i + 1),
            )[j] by {
                if j < before.len() {
                    assert(out@[j] == before[j]);
                }
            }
        }
        i = i + 1;
    }
    assert(es.take(i as int) =~= es);
    out
}

} // verus!
