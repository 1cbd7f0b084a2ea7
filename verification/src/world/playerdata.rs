//! A player's saved state: position, facing, health, food, game mode and
//! inventory, stored as gzip-compressed NBT.

use vstd::prelude::*;
use crate::world::compression::{gzip_compress, gzip_compressed, gzip_decompress, gzip_decompressed};
use crate::world::nbt::{
    entry_index, entry_models, lemma_entry_models_push, lemma_models_len, lemma_models_push, lookup, models, root_dec, root_enc,
    write_named_root, NbtReader, NbtTag, NbtValue,
};
use crate::world::nbt_check::nbt_root_readable;

verus! {

/// A player's saved state. Floating-point numbers are kept as their
/// IEEE-754 bits: `x`, `y` and `z` of `f64`, the others of `f32`. Each
/// inventory item is (slot, item id, count, damage).
#[derive(Debug)]
pub struct PlayerData {
    pub x: u64,
    pub y: u64,
    pub z: u64,
    pub yaw: u32,
    pub pitch: u32,
    pub health: u32,
    pub food: i32,
    pub food_saturation: u32,
    pub gamemode: u8,
    pub inventory: Vec<(i16, i16, u8, i16)>,
}

/// The value of a `PlayerData`.
pub struct PlayerModel {
    pub x: u64,
    pub y: u64,
    pub z: u64,
    pub yaw: u32,
    pub pitch: u32,
    pub health: u32,
    pub food: i32,
    pub food_saturation: u32,
    pub gamemode: u8,
    pub inventory: Seq<(i16, i16, u8, i16)>,
}

impl View for PlayerData {
    type V = PlayerModel;

    open spec fn view(&self) -> PlayerModel {
        PlayerModel {
            x: self.x,
            y: self.y,
            z: self.z,
            yaw: self.yaw,
            pitch: self.pitch,
            health: self.health,
            food: self.food,
            food_saturation: self.food_saturation,
            gamemode: self.gamemode,
            inventory: self.inventory@,
        }
    }
}

/// The bits of 0.5 as an `f64`.
pub open spec fn half_bits() -> u64 {
    0x3FE0_0000_0000_0000
}

/// The bits of 4.5 as an `f64`.
pub open spec fn four_and_half_bits() -> u64 {
    0x4012_0000_0000_0000
}

/// The bits of 90.0 as an `f32`.
pub open spec fn ninety_bits() -> u32 {
    0x42B4_0000
}

/// The bits of 20.0 as an `f32`.
pub open spec fn twenty_bits() -> u32 {
    0x41A0_0000
}

/// The bits of 5.0 as an `f32`.
pub open spec fn five_bits() -> u32 {
    0x40A0_0000
}

/// A new player: at (0.5, 4.5, 0.5) facing yaw 90, full health and food,
/// saturation 5, survival, nothing carried.
pub open spec fn default_player() -> PlayerModel {
    PlayerModel {
        x: half_bits(),
        y: four_and_half_bits(),
        z: half_bits(),
        yaw: ninety_bits(),
        pitch: 0,
        health: twenty_bits(),
        food: 20,
        food_saturation: five_bits(),
        gamemode: 0,
        inventory: seq![],
    }
}

impl Default for PlayerData {
    fn default() -> (r: Self)
        ensures
            r@ == default_player(),
    {
        PlayerData {
            x: 0x3FE0_0000_0000_0000,
            y: 0x4012_0000_0000_0000,
            z: 0x3FE0_0000_0000_0000,
            yaw: 0x42B4_0000,
            pitch: 0,
            health: 0x41A0_0000,
            food: 20,
            food_saturation: 0x40A0_0000,
            gamemode: 0,
            inventory: Vec::new(),
        }
    }
}

/// An inventory item as stored: its slot and count as bytes, its id as an
/// int, its damage as a short.
pub open spec fn item_value(it: (i16, i16, u8, i16)) -> NbtValue {
    NbtValue::Compound(
        seq![
            ("Slot"@, NbtValue::Byte(it.0 as i8)),
            ("id"@, NbtValue::Int(it.1 as i32)),
            ("Count"@, NbtValue::Byte(it.2 as i8)),
            ("Damage"@, NbtValue::Short(it.3)),
        ],
    )
}

/// The items that are stored: all but those of id -1.
pub open spec fn saved_items(inv: Seq<(i16, i16, u8, i16)>) -> Seq<NbtValue>
    decreases inv.len(),
{
    if inv.len() == 0 {
        seq![]
    } else {
        let r = saved_items(inv.drop_last());
        if inv.last().1 == -1 {
            r
        } else {
            r.push(item_value(inv.last()))
        }
    }
}

/// The root tag a player is saved as.
pub open spec fn player_root(d: PlayerModel) -> NbtValue {
    NbtValue::Compound(
        seq![
            ("Pos"@, NbtValue::List(6, seq![NbtValue::Double(d.x), NbtValue::Double(d.y), NbtValue::Double(d.z)])),
            ("Rotation"@, NbtValue::List(5, seq![NbtValue::Float(d.yaw), NbtValue::Float(d.pitch)])),
            ("Health"@, NbtValue::Float(d.health)),
            ("foodLevel"@, NbtValue::Int(d.food)),
            ("foodSaturationLevel"@, NbtValue::Float(d.food_saturation)),
            ("playerGameType"@, NbtValue::Byte(d.gamemode as i8)),
            ("Inventory"@, NbtValue::List(10, saved_items(d.inventory))),
        ],
    )
}

pub open spec fn double_or(v: Option<NbtValue>, d: u64) -> u64 {
    match v {
        Some(NbtValue::Double(x)) => x,
        _ => d,
    }
}

pub open spec fn float_or(v: Option<NbtValue>, d: u32) -> u32 {
    match v {
        Some(NbtValue::Float(x)) => x,
        _ => d,
    }
}

pub open spec fn int_or(v: Option<NbtValue>, d: i32) -> i32 {
    match v {
        Some(NbtValue::Int(x)) => x,
        _ => d,
    }
}

pub open spec fn byte_or(v: Option<NbtValue>, d: i8) -> i8 {
    match v {
        Some(NbtValue::Byte(x)) => x,
        _ => d,
    }
}

pub open spec fn short_or(v: Option<NbtValue>, d: i16) -> i16 {
    match v {
        Some(NbtValue::Short(x)) => x,
        _ => d,
    }
}

/// An item read back: slot byte (0 if missing), id int (-1), count byte
/// (0) and damage short (0).
pub open spec fn decoded_item(item: NbtValue) -> (i16, i16, u8, i16) {
    (
        byte_or(lookup(item, "Slot"@), 0) as i16,
        int_or(lookup(item, "id"@), -1i32) as i16,
        byte_or(lookup(item, "Count"@), 0) as u8,
        short_or(lookup(item, "Damage"@), 0),
    )
}

/// The lists a reader indexes are long enough: three coordinates in `Pos`
/// and two angles in `Rotation`, where those are lists.
pub open spec fn player_nbt_ok(root: NbtValue) -> bool {
    &&& (lookup(root, "Pos"@) matches Some(NbtValue::List(_, es)) ==> es.len() >= 3)
    &&& (lookup(root, "Rotation"@) matches Some(NbtValue::List(_, es)) ==> es.len() >= 2)
}

/// The player a root tag holds: `None` without a `Pos` list; each missing
/// or mistyped field takes its default. The game mode is read as an int.
pub open spec fn decoded_player(root: NbtValue) -> Option<PlayerModel> {
    match lookup(root, "Pos"@) {
        Some(NbtValue::List(_, pos)) => {
            let (yaw, pitch) = match lookup(root, "Rotation"@) {
                Some(NbtValue::List(_, r)) => (float_or(Some(r[0]), ninety_bits()), float_or(Some(r[1]), 0)),
                _ => (ninety_bits(), 0u32),
            };
            Some(
                PlayerModel {
                    x: double_or(Some(pos[0]), half_bits()),
                    y: double_or(Some(pos[1]), four_and_half_bits()),
                    z: double_or(Some(pos[2]), half_bits()),
                    yaw,
                    pitch,
                    health: float_or(lookup(root, "Health"@), twenty_bits()),
                    food: int_or(lookup(root, "foodLevel"@), 20),
                    food_saturation: float_or(lookup(root, "foodSaturationLevel"@), five_bits()),
                    gamemode: int_or(lookup(root, "playerGameType"@), 0) as u8,
                    inventory: match lookup(root, "Inventory"@) {
                        Some(NbtValue::List(_, items)) => items.map_values(|it: NbtValue| decoded_item(it)),
                        _ => seq![],
                    },
                },
            )
        },
        _ => None,
    }
}

fn push_entry(es: &mut Vec<(String, NbtTag)>, name: &str, tag: NbtTag)
    ensures
        entry_models(final(es)@) == entry_models(old(es)@).push((name@, tag.model())),
{
    let e = (name.to_owned(), tag);
    proof {
        lemma_entry_models_push(es@, e);
    }
    es.push(e);
}

/// The tag of an item.
fn item_tag(it: (i16, i16, u8, i16)) -> (t: NbtTag)
    ensures
        t.model() == item_value(it),
{
    let mut es: Vec<(String, NbtTag)> = Vec::new();
    proof {
        reveal_with_fuel(entry_models, 1);
    }
    assert(entry_models(es@) =~= Seq::<(Seq<char>, NbtValue)>::empty());
    push_entry(&mut es, "Slot", NbtTag::Byte(it.0 as i8));
    push_entry(&mut es, "id", NbtTag::Int(it.1 as i32));
    push_entry(&mut es, "Count", NbtTag::Byte(it.2 as i8));
    push_entry(&mut es, "Damage", NbtTag::Short(it.3));
    assert(entry_models(es@) =~= seq![
        ("Slot"@, NbtValue::Byte(it.0 as i8)),
        ("id"@, NbtValue::Int(it.1 as i32)),
        ("Count"@, NbtValue::Byte(it.2 as i8)),
        ("Damage"@, NbtValue::Short(it.3)),
    ]);
    NbtTag::Compound(es)
}

/// The NBT bytes a player is saved as: the named root "" holding the
/// position, rotation, health, food, game mode (as a byte) and the items
/// whose id is not -1.
pub fn player_data_nbt(data: &PlayerData) -> (r: Vec<u8>)
    ensures
        r@ == root_enc(Seq::empty(), player_root(data@)),
{
    let mut items: Vec<NbtTag> = Vec::new();
    let mut i: usize = 0;
    proof {
        reveal_with_fuel(models, 1);
    }
    assert(models(items@) =~= saved_items(data.inventory@.take(0)));
    while i < data.inventory.len()
        invariant
            i <= data.inventory@.len(),
            models(items@) == saved_items(data.inventory@.take(i as int)),
        decreases data.inventory.len() - i,
    {
        let it = data.inventory[i];
        proof {
            assert(data.inventory@.take(i + 1).drop_last() =~= data.inventory@.take(i as int));
            assert(data.inventory@.take(i + 1).last() == it);
        }
        if it.1 != -1 {
            let t = item_tag(it);
            proof {
                lemma_models_push(items@, t);
            }
            items.push(t);
        }
        i = i + 1;
    }
    assert(data.inventory@.take(i as int) =~= data.inventory@);
    let mut pos: Vec<NbtTag> = Vec::new();
    pos.push(NbtTag::Double(data.x));
    pos.push(NbtTag::Double(data.y));
    pos.push(NbtTag::Double(data.z));
    let mut rot: Vec<NbtTag> = Vec::new();
    rot.push(NbtTag::Float(data.yaw));
    rot.push(NbtTag::Float(data.pitch));
    proof {
        reveal_with_fuel(models, 4);
    }
    assert(models(pos@) =~= seq![NbtValue::Double(data.x), NbtValue::Double(data.y), NbtValue::Double(data.z)]);
    assert(models(rot@) =~= seq![NbtValue::Float(data.yaw), NbtValue::Float(data.pitch)]);
    let mut es: Vec<(String, NbtTag)> = Vec::new();
    proof {
        reveal_with_fuel(entry_models, 1);
    }
    assert(entry_models(es@) =~= Seq::<(Seq<char>, NbtValue)>::empty());
    push_entry(&mut es, "Pos", NbtTag::List(6, pos));
    push_entry(&mut es, "Rotation", NbtTag::List(5, rot));
    push_entry(&mut es, "Health", NbtTag::Float(data.health));
    push_entry(&mut es, "foodLevel", NbtTag::Int(data.food));
    push_entry(&mut es, "foodSaturationLevel", NbtTag::Float(data.food_saturation));
    push_entry(&mut es, "playerGameType", NbtTag::Byte(data.gamemode as i8));
    push_entry(&mut es, "Inventory", NbtTag::List(10, items));
    assert(entry_models(es@) =~= seq![
        ("Pos"@, NbtValue::List(6, seq![NbtValue::Double(data.x), NbtValue::Double(data.y), NbtValue::Double(data.z)])),
        ("Rotation"@, NbtValue::List(5, seq![NbtValue::Float(data.yaw), NbtValue::Float(data.pitch)])),
        ("Health"@, NbtValue::Float(data.health)),
        ("foodLevel"@, NbtValue::Int(data.food)),
        ("foodSaturationLevel"@, NbtValue::Float(data.food_saturation)),
        ("playerGameType"@, NbtValue::Byte(data.gamemode as i8)),
        ("Inventory"@, NbtValue::List(10, saved_items(data.inventory@))),
    ]);
    let root = NbtTag::Compound(es);
    assert(root.model() == player_root(data@));
    let mut out: Vec<u8> = Vec::new();
    write_named_root("", &root, &mut out);
    proof {
        reveal_strlit("");
    }
    assert(out@ =~= root_enc(Seq::empty(), player_root(data@)));
    out
}

/// The bytes of a player's file: the player's NBT, gzip-compressed.
pub fn save_player_data_bytes(data: &PlayerData) -> (r: Vec<u8>)
    ensures
        r@ == gzip_compressed(root_enc(Seq::empty(), player_root(data@))),
        gzip_decompressed(r@) == Some(root_enc(Seq::empty(), player_root(data@))),
{
    let nbt = player_data_nbt(data);
    gzip_compress(nbt.as_slice())
}

/// Whether NBT bytes hold a root tag a player can be read from.
pub fn player_nbt_readable(nbt: &[u8]) -> (r: bool)
    ensures
        r == (root_dec(nbt@) is Some && player_nbt_ok(root_dec(nbt@).unwrap().1)),
{
    if !nbt_root_readable(nbt) {
        return false;
    }
    let mut reader = NbtReader::new(nbt);
    assert(reader.rest() =~= nbt@);
    let (_, root) = reader.read_named_root();
    let pos_ok = match root.get("Pos") {
        Some(tag) => match tag.as_list() {
            Some(es) => {
                proof {
                    lemma_models_len(es@);
                }
                es.len() >= 3
            },
            None => true,
        },
        None => true,
    };
    let rot_ok = match root.get("Rotation") {
        Some(tag) => match tag.as_list() {
            Some(es) => {
                proof {
                    lemma_models_len(es@);
                }
                es.len() >= 2
            },
            None => true,
        },
        None => true,
    };
    pos_ok && rot_ok
}

fn double_of(t: &NbtTag, d: u64) -> (r: u64)
    ensures
        r == double_or(Some(t.model()), d),
{
    match t {
        NbtTag::Double(v) => *v,
        _ => d,
    }
}

fn float_of(t: &NbtTag, d: u32) -> (r: u32)
    ensures
        r == float_or(Some(t.model()), d),
{
    match t {
        NbtTag::Float(v) => *v,
        _ => d,
    }
}

/// The float a compound holds under `key`, else `d`.
fn float_at(root: &NbtTag, key: &str, d: u32) -> (r: u32)
    ensures
        r == float_or(lookup(root.model(), key@), d),
{
    match root.get(key) {
        Some(t) => float_of(t, d),
        None => d,
    }
}

/// An item read from its tag.
fn decode_item(item: &NbtTag) -> (r: (i16, i16, u8, i16))
    ensures
        r == decoded_item(item.model()),
{
    let slot = match item.get("Slot") {
        Some(t) => match t.as_i8() {
            Some(v) => v,
            None => 0,
        },
        None => 0,
    };
    let id = match item.get("id") {
        Some(t) => match t.as_i32() {
            Some(v) => v,
            None => -1,
        },
        None => -1,
    };
    let count = match item.get("Count") {
        Some(t) => match t.as_i8() {
            Some(v) => v,
            None => 0,
        },
        None => 0,
    };
    let damage = match item.get("Damage") {
        Some(t) => match t.as_i16_val() {
            Some(v) => v,
            None => 0,
        },
        None => 0,
    };
    (slot as i16, id as i16, count as u8, damage)
}

/// The player held by NBT bytes; `None` without a `Pos` list.
pub fn player_data_from_nbt(nbt: &[u8]) -> (r: Option<PlayerData>)
    requires
        root_dec(nbt@) is Some,
        player_nbt_ok(root_dec(nbt@).unwrap().1),
    ensures
        r is Some <==> decoded_player(root_dec(nbt@).unwrap().1) is Some,
        r matches Some(p) ==> decoded_player(root_dec(nbt@).unwrap().1) == Some(p@),
{
    let mut reader = NbtReader::new(nbt);
    assert(reader.rest() =~= nbt@);
    let (_, root) = reader.read_named_root();
    let pos = match root.get("Pos") {
        Some(tag) => match tag.as_list() {
            Some(es) => es,
            None => return None,
        },
        None => return None,
    };
    proof {
        lemma_models_len(pos@);
    }
    let x = double_of(&pos[0], 0x3FE0_0000_0000_0000);
    let y = double_of(&pos[1], 0x4012_0000_0000_0000);
    let z = double_of(&pos[2], 0x3FE0_0000_0000_0000);
    let (yaw, pitch) = match root.get("Rotation") {
        Some(tag) => match tag.as_list() {
            Some(r) => {
                proof {
                    lemma_models_len(r@);
                }
                (float_of(&r[0], 0x42B4_0000), float_of(&r[1], 0))
            },
            None => (0x42B4_0000, 0),
        },
        None => (0x42B4_0000, 0),
    };
    let health = float_at(&root, "Health", 0x41A0_0000);
    let food = match root.get("foodLevel") {
        Some(t) => match t.as_i32() {
            Some(v) => v,
            None => 20,
        },
        None => 20,
    };
    let food_saturation = float_at(&root, "foodSaturationLevel", 0x40A0_0000);
    let gamemode = match root.get("playerGameType") {
        Some(t) => match t.as_i32() {
            Some(v) => v,
            None => 0,
        },
        None => 0,
    } as u8;
    let mut inventory: Vec<(i16, i16, u8, i16)> = Vec::new();
    let ghost items_model: Seq<NbtValue> = match lookup(root.model(), "Inventory"@) {
        Some(NbtValue::List(_, items)) => items,
        _ => seq![],
    };
    match root.get("Inventory") {
        Some(tag) => match tag.as_list() {
            Some(items) => {
                proof {
                    lemma_models_len(items@);
                }
                let mut i: usize = 0;
                while i < items.len()
                    invariant
                        i <= items@.len(),
                        items_model == models(items@),
                        items_model.len() == items@.len(),
                        forall|j: int| 0 <= j < items@.len() ==> #[trigger] items_model[j] == items@[j].model(),
                        inventory@ == items_model.take(i as int).map_values(|it: NbtValue| decoded_item(it)),
                    decreases items.len() - i,
                {
                    let it = decode_item(&items[i]);
                    inventory.push(it);
                    i = i + 1;
                    assert(inventory@ =~= items_model.take(i as int).map_values(|it: NbtValue| decoded_item(it)));
                }
                assert(items_model.take(i as int) =~= items_model);
            },
            None => {},
        },
        None => {},
    }
    assert(inventory@ =~= match lookup(root.model(), "Inventory"@) {
        Some(NbtValue::List(_, items)) => items.map_values(|it: NbtValue| decoded_item(it)),
        _ => seq![],
    });
    Some(PlayerData { x, y, z, yaw, pitch, health, food, food_saturation, gamemode, inventory })
}

/// The player a player file holds: its gzip stream inflated and read as
/// NBT. `None` when the bytes do not inflate, when the NBT cannot be read
/// (bytes on which the reader runs out of input, or a `Pos` or `Rotation`
/// list too short to index), or when it holds no `Pos` list.
pub fn load_player_data_bytes(compressed: &[u8]) -> (r: Option<PlayerData>)
    ensures
        match gzip_decompressed(compressed@) {
            Some(n) => if root_dec(n) is Some && player_nbt_ok(root_dec(n).unwrap().1) {
                (r is Some <==> decoded_player(root_dec(n).unwrap().1) is Some) && (r matches Some(p)
                    ==> decoded_player(root_dec(n).unwrap().1) == Some(p@))
            } else {
                r is None
            },
            None => r is None,
        },
{
    let nbt = match gzip_decompress(compressed) {
        Some(n) => n,
        None => return None,
    };
    if !player_nbt_readable(&nbt) {
        return None;
    }
    player_data_from_nbt(&nbt)
}

proof fn lemma_item_roundtrip(it: (i16, i16, u8, i16))
    requires
        -128 <= it.0 <= 127,
    ensures
        decoded_item(item_value(it)) == it,
{
    reveal_strlit("Slot");
    reveal_strlit("id");
    reveal_strlit("Count");
    reveal_strlit("Damage");
    reveal_with_fuel(entry_index, 5);
    let c = it.2;
    assert((c as i8) as u8 == c) by (bit_vector);
    let es = seq![
        ("Slot"@, NbtValue::Byte(it.0 as i8)),
        ("id"@, NbtValue::Int(it.1 as i32)),
        ("Count"@, NbtValue::Byte(it.2 as i8)),
        ("Damage"@, NbtValue::Short(it.3)),
    ];
    assert(es.drop_first()[0].0 == "id"@);
    assert(es.drop_first().drop_first()[0].0 == "Count"@);
    assert(es.drop_first().drop_first().drop_first()[0].0 == "Damage"@);
}

/// The items of an inventory that saving keeps: those whose id is not -1,
/// in their order.
pub open spec fn kept_items(inv: Seq<(i16, i16, u8, i16)>) -> Seq<(i16, i16, u8, i16)> {
    inv.filter(|it: (i16, i16, u8, i16)| it.1 != -1)
}

/// The stored items read back are the kept items, where each kept slot
/// fits a byte.
proof fn lemma_saved_items_decode(inv: Seq<(i16, i16, u8, i16)>)
    requires
        forall|i: int| 0 <= i < inv.len() && (#[trigger] inv[i]).1 != -1 ==> -128 <= inv[i].0 <= 127,
    ensures
        saved_items(inv).map_values(|it: NbtValue| decoded_item(it)) == kept_items(inv),
    decreases inv.len(),
{
    reveal_with_fuel(Seq::<(i16, i16, u8, i16)>::filter, 1);
    if inv.len() == 0 {
        assert(saved_items(inv).map_values(|it: NbtValue| decoded_item(it)) =~= kept_items(inv));
    } else {
        let init = inv.drop_last();
        assert forall|i: int| 0 <= i < init.len() && (#[trigger] init[i]).1 != -1 implies -128 <= init[i].0
            <= 127 by {
            assert(init[i] == inv[i]);
        }
        lemma_saved_items_decode(init);
        assert(inv.last() == inv[inv.len() - 1]);
        assert(kept_items(inv) == if inv.last().1 != -1 {
            kept_items(init).push(inv.last())
        } else {
            kept_items(init)
        });
        if inv.last().1 != -1 {
            lemma_item_roundtrip(inv.last());
            assert(saved_items(inv).map_values(|it: NbtValue| decoded_item(it)) =~= saved_items(init).map_values(
                |it: NbtValue| decoded_item(it),
            ).push(decoded_item(item_value(inv.last()))));
        }
    }
}

/// Reading back what was saved gives the player again, except what saving
/// drops: the game mode is written as a byte but read as an int, so it
/// comes back 0, and items of id -1 are left out. Where every kept item's
/// slot fits a byte, everything else comes back exactly.
pub proof fn law_player_roundtrip(d: PlayerModel)
    requires
        forall|i: int|
            0 <= i < d.inventory.len() && (#[trigger] d.inventory[i]).1 != -1 ==> -128 <= d.inventory[i].0 <= 127,
    ensures
        decoded_player(player_root(d)) == Some(
            PlayerModel {
                x: d.x,
                y: d.y,
                z: d.z,
                yaw: d.yaw,
                pitch: d.pitch,
                health: d.health,
                food: d.food,
                food_saturation: d.food_saturation,
                gamemode: 0,
                inventory: kept_items(d.inventory),
            },
        ),
{
    reveal_strlit("Pos");
    reveal_strlit("Rotation");
    reveal_strlit("Health");
    reveal_strlit("foodLevel");
    reveal_strlit("foodSaturationLevel");
    reveal_strlit("playerGameType");
    reveal_strlit("Inventory");
    reveal_with_fuel(entry_index, 8);
    let root = player_root(d);
    let es = match root {
        NbtValue::Compound(es) => es,
        _ => seq![],
    };
    assert(es.drop_first()[0].0 == "Rotation"@);
    assert(es.drop_first().drop_first()[0].0 == "Health"@);
    assert(es.drop_first().drop_first().drop_first()[0].0 == "foodLevel"@);
    assert(es.drop_first().drop_first().drop_first().drop_first()[0].0 == "foodSaturationLevel"@);
    assert(es.drop_first().drop_first().drop_first().drop_first().drop_first()[0].0 == "playerGameType"@);
    assert(es.drop_first().drop_first().drop_first().drop_first().drop_first().drop_first()[0].0 == "Inventory"@);
    lemma_saved_items_decode(d.inventory);
    let items = saved_items(d.inventory);
    let t1 = es.drop_first();
    let t2 = t1.drop_first();
    let t3 = t2.drop_first();
    let t4 = t3.drop_first();
    let t5 = t4.drop_first();
    let t6 = t5.drop_first();
    assert(entry_index(t6, "Inventory"@) == Some(0int));
    assert(t5[0].0 != "Inventory"@);
    assert(entry_index(t5, "Inventory"@) == Some(1int));
    assert(t4[0].0 != "Inventory"@);
    assert(entry_index(t4, "Inventory"@) == Some(2int));
    assert("foodLevel"@[0] != "Inventory"@[0]);
    assert(t3[0].0 != "Inventory"@);
    assert(entry_index(t3, "Inventory"@) == Some(3int));
    assert(t2[0].0 != "Inventory"@);
    assert(entry_index(t2, "Inventory"@) == Some(4int));
    assert(t1[0].0 != "Inventory"@);
    assert(entry_index(t1, "Inventory"@) == Some(5int));
    assert(es[0].0 != "Inventory"@);
    assert(entry_index(es, "Inventory"@) == Some(6int));
    assert(lookup(root, "Inventory"@) == Some(NbtValue::List(10, items)));
    assert(lookup(root, "playerGameType"@) == Some(NbtValue::Byte(d.gamemode as i8)));
}

} // verus!
