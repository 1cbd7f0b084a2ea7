//! The `level.dat` file of a new world.

use vstd::prelude::*;
use crate::world::compression::{gzip_compress, gzip_compressed, gzip_decompress, gzip_decompressed};
use crate::world::nbt_check::nbt_root_readable;
use crate::world::nbt::{
    entry_models, lemma_entry_models_push, lookup, root_dec, root_enc, with_entry, write_named_root, NbtReader, NbtTag,
    NbtValue,
};

verus! {

/// The `Data` entries of a new world's `level.dat`: its name, the Anvil
/// version 19133, seed 0, spawn at the origin facing down (pitch 90.0,
/// stored as its IEEE-754 bits), time 0 at day time 6000, survival, easy,
/// commands allowed, not hardcore.
pub open spec fn level_data_entries(world_name: Seq<char>) -> Seq<(Seq<char>, NbtValue)> {
    seq![
        ("LevelName"@, NbtValue::String(world_name)),
        ("version"@, NbtValue::Int(19133)),
        ("DataVersion"@, NbtValue::Int(0)),
        ("RandomSeed"@, NbtValue::Long(0)),
        ("SpawnX"@, NbtValue::Int(0)),
        ("SpawnY"@, NbtValue::Int(0)),
        ("SpawnZ"@, NbtValue::Int(0)),
        ("SpawnYaw"@, NbtValue::Float(0)),
        ("SpawnPitch"@, NbtValue::Float(0x42B4_0000)),
        ("Time"@, NbtValue::Long(0)),
        ("DayTime"@, NbtValue::Long(6000)),
        ("GameType"@, NbtValue::Int(0)),
        ("Difficulty"@, NbtValue::Byte(1)),
        ("allowCommands"@, NbtValue::Byte(1)),
        ("hardcore"@, NbtValue::Byte(0)),
    ]
}

/// The root tag of a new world's `level.dat`: a compound holding `Data`.
pub open spec fn level_root(world_name: Seq<char>) -> NbtValue {
    NbtValue::Compound(seq![("Data"@, NbtValue::Compound(level_data_entries(world_name)))])
}

fn push_entry(es: &mut Vec<(String, NbtTag)>, name: &str, tag: NbtTag)
    ensures
        entry_models(final(es)@) == entry_models(old(es)@).push((name@, tag.model())),
{
    let e = (name.to_owned(), tag);
    proof {
        lemma_entry_models_push(es@, e);
    }
    es.push(e);
}

/// The bytes of a new world's `level.dat`: the named root "" written as
/// NBT, then gzip-compressed.
#[verifier::rlimit(40)]
#[verifier::spinoff_prover]
pub fn level_dat_bytes(world_name: &str) -> (r: Vec<u8>)
    ensures
        r@ == gzip_compressed(root_enc(Seq::empty(), level_root(world_name@))),
        gzip_decompressed(r@) == Some(root_enc(Seq::empty(), level_root(world_name@))),
{
    let mut es: Vec<(String, NbtTag)> = Vec::new();
    proof {
        reveal_with_fuel(entry_models, 1);
    }
    assert(entry_models(es@) =~= Seq::<(Seq<char>, NbtValue)>::empty());
    push_entry(&mut es, "LevelName", NbtTag::String(world_name.to_owned()));
    push_entry(&mut es, "version", NbtTag::Int(19133));
    push_entry(&mut es, "DataVersion", NbtTag::Int(0));
    push_entry(&mut es, "RandomSeed", NbtTag::Long(0));
    push_entry(&mut es, "SpawnX", NbtTag::Int(0));
    push_entry(&mut es, "SpawnY", NbtTag::Int(0));
    push_entry(&mut es, "SpawnZ", NbtTag::Int(0));
    push_entry(&mut es, "SpawnYaw", NbtTag::Float(0));
    push_entry(&mut es, "SpawnPitch", NbtTag::Float(0x42B4_0000));
    push_entry(&mut es, "Time", NbtTag::Long(0));
    push_entry(&mut es, "DayTime", NbtTag::Long(6000));
    push_entry(&mut es, "GameType", NbtTag::Int(0));
    push_entry(&mut es, "Difficulty", NbtTag::Byte(1));
    push_entry(&mut es, "allowCommands", NbtTag::Byte(1));
    push_entry(&mut es, "hardcore", NbtTag::Byte(0));
    assert(entry_models(es@) =~= level_data_entries(world_name@));
    let mut root_es: Vec<(String, NbtTag)> = Vec::new();
    assert(entry_models(root_es@) =~= Seq::<(Seq<char>, NbtValue)>::empty());
    push_entry(&mut root_es, "Data", NbtTag::Compound(es));
    assert(entry_models(root_es@) =~= seq![("Data"@, NbtValue::Compound(level_data_entries(world_name@)))]);
    let root = NbtTag::Compound(root_es);
    let mut nbt: Vec<u8> = Vec::new();
    write_named_root("", &root, &mut nbt);
    proof {
        reveal_strlit("");
    }
    assert(nbt@ =~= root_enc(Seq::empty(), level_root(world_name@)));
    gzip_compress(nbt.as_slice())
}

/// The `Data` compound after a new spawn point is set: the block
/// coordinates as ints, the angles as floats (their IEEE-754 bits).
pub open spec fn data_with_spawn(data: NbtValue, x: i32, y: i32, z: i32, yaw: u32, pitch: u32) -> NbtValue {
    with_entry(
        with_entry(
            with_entry(
                with_entry(with_entry(data, "SpawnX"@, NbtValue::Int(x)), "SpawnY"@, NbtValue::Int(y)),
                "SpawnZ"@,
                NbtValue::Int(z),
            ),
            "SpawnYaw"@,
            NbtValue::Float(yaw),
        ),
        "SpawnPitch"@,
        NbtValue::Float(pitch),
    )
}

/// A `level.dat` root with a new spawn point in its `Data`; unchanged
/// without `Data`.
pub open spec fn root_with_spawn(root: NbtValue, x: i32, y: i32, z: i32, yaw: u32, pitch: u32) -> NbtValue {
    match lookup(root, "Data"@) {
        Some(data) => with_entry(root, "Data"@, data_with_spawn(data, x, y, z, yaw, pitch)),
        None => root,
    }
}

/// The NBT bytes of a `level.dat` after setting its spawn point: the root
/// read, its `Data` updated, the root written back under its name.
pub fn with_spawn_point(nbt: &[u8], x: i32, y: i32, z: i32, yaw: u32, pitch: u32) -> (r: Vec<u8>)
    requires
        root_dec(nbt@) is Some,
    ensures
        r@ == root_enc(
            root_dec(nbt@).unwrap().0,
            root_with_spawn(root_dec(nbt@).unwrap().1, x, y, z, yaw, pitch),
        ),
{
    let mut reader = NbtReader::new(nbt);
    assert(reader.rest() =~= nbt@);
    let (root_name, mut root) = reader.read_named_root();
    let ghost r0 = root.model();
    let data = match root.get("Data") {
        Some(d) => Some(d.duplicate()),
        None => None,
    };
    if let Some(mut data) = data {
        data.set("SpawnX", NbtTag::Int(x));
        data.set("SpawnY", NbtTag::Int(y));
        data.set("SpawnZ", NbtTag::Int(z));
        data.set("SpawnYaw", NbtTag::Float(yaw));
        data.set("SpawnPitch", NbtTag::Float(pitch));
        root.set("Data", data);
    }
    assert(root.model() == root_with_spawn(r0, x, y, z, yaw, pitch));
    let mut out: Vec<u8> = Vec::new();
    write_named_root(root_name.as_str(), &root, &mut out);
    out
}

/// The spawn point a `level.dat` root holds: `SpawnX`, `SpawnY`, `SpawnZ`,
/// `SpawnYaw` and `SpawnPitch` of `Data`, each read as an int; `None` when
/// one is missing or of another type.
pub open spec fn spawn_of(root: NbtValue) -> Option<(i32, i32, i32, i32, i32)> {
    match lookup(root, "Data"@) {
        Some(data) => match (
            lookup(data, "SpawnX"@),
            lookup(data, "SpawnY"@),
            lookup(data, "SpawnZ"@),
            lookup(data, "SpawnYaw"@),
            lookup(data, "SpawnPitch"@),
        ) {
            (
                Some(NbtValue::Int(x)),
                Some(NbtValue::Int(y)),
                Some(NbtValue::Int(z)),
                Some(NbtValue::Int(yaw)),
                Some(NbtValue::Int(pitch)),
            ) => Some((x, y, z, yaw, pitch)),
            _ => None,
        },
        None => None,
    }
}

fn int_at(tag: &NbtTag, key: &str) -> (r: Option<i32>)
    ensures
        r == (match lookup(tag.model(), key@) {
            Some(NbtValue::Int(v)) => Some(v),
            _ => None,
        }),
{
    match tag.get(key) {
        Some(t) => t.as_i32(),
        None => None,
    }
}

/// The spawn point of a `level.dat`'s NBT bytes, each part read as an int.
pub fn spawn_point_of(nbt: &[u8]) -> (r: Option<(i32, i32, i32, i32, i32)>)
    requires
        root_dec(nbt@) is Some,
    ensures
        r == spawn_of(root_dec(nbt@).unwrap().1),
{
    let mut reader = NbtReader::new(nbt);
    assert(reader.rest() =~= nbt@);
    let (_, root) = reader.read_named_root();
    let data = match root.get("Data") {
        Some(d) => d,
        None => return None,
    };
    let x = match int_at(data, "SpawnX") {
        Some(v) => v,
        None => return None,
    };
    let y = match int_at(data, "SpawnY") {
        Some(v) => v,
        None => return None,
    };
    let z = match int_at(data, "SpawnZ") {
        Some(v) => v,
        None => return None,
    };
    let yaw = match int_at(data, "SpawnYaw") {
        Some(v) => v,
        None => return None,
    };
    let pitch = match int_at(data, "SpawnPitch") {
        Some(v) => v,
        None => return None,
    };
    Some((x, y, z, yaw, pitch))
}

/// The spawn point of a `level.dat` file's bytes: inflated and read as
/// NBT. `None` when they do not inflate, when the NBT cannot be read, or
/// when a part is missing or not an int.
pub fn level_spawn_point(compressed: &[u8]) -> (r: Option<(i32, i32, i32, i32, i32)>)
    ensures
        match gzip_decompressed(compressed@) {
            Some(n) => if root_dec(n) is Some {
                r == spawn_of(root_dec(n).unwrap().1)
            } else {
                r is None
            },
            None => r is None,
        },
{
    let nbt = match gzip_decompress(compressed) {
        Some(n) => n,
        None => return None,
    };
    if !nbt_root_readable(&nbt) {
        return None;
    }
    spawn_point_of(&nbt)
}

/// A `level.dat` file's bytes with a new spawn point: inflated, its `Data`
/// updated, written back and compressed again. `None` when the bytes do
/// not inflate or the NBT cannot be read.
pub fn level_dat_with_spawn(compressed: &[u8], x: i32, y: i32, z: i32, yaw: u32, pitch: u32) -> (r: Option<
    Vec<u8>,
>)
    ensures
        match gzip_decompressed(compressed@) {
            Some(n) => if root_dec(n) is Some {
                r matches Some(v) && v@ == gzip_compressed(
                    root_enc(root_dec(n).unwrap().0, root_with_spawn(root_dec(n).unwrap().1, x, y, z, yaw, pitch)),
                )
            } else {
                r is None
            },
            None => r is None,
        },
{
    let nbt = match gzip_decompress(compressed) {
        Some(n) => n,
        None => return None,
    };
    if !nbt_root_readable(&nbt) {
        return None;
    }
    let updated = with_spawn_point(&nbt, x, y, z, yaw, pitch);
    Some(gzip_compress(updated.as_slice()))
}

} // verus!
