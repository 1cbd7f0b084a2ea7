use coral::world::chunk::{build_chunk_data_18_from_map, ChunkData};
use coral::protocol::packets::play::inventory::Slot;
use coral::world::anvil::{chunk_nbt_loadable, chunk_to_nbt};
use coral::world::tile_nbt::{nbt_to_tile_entities, tile_entity_to_nbt, TileEntity};
use coral::world::blocks::{Block, BlockMap};
use coral::world::generator::FlatWorldGenerator;
use coral::world::level::{level_dat_bytes, spawn_point_of, with_spawn_point};
use coral::world::nbt::{write_named_root, NbtReader, NbtTag};
use coral::world::nbt_check::{nbt_root_readable, payload_size};
use coral::world::playerdata::{
    load_player_data_bytes, player_data_from_nbt, player_data_nbt, player_nbt_readable, save_player_data_bytes,
    PlayerData,
};
use coral::world::region::RegionFile;
use coral::world::world_blocks::WorldBlocks;
use std::io::Read;
use std::path::Path;

fn gunzip(bytes: &[u8]) -> Vec<u8> {
    let mut dec = flate2::read::GzDecoder::new(bytes);
    let mut out = Vec::new();
    dec.read_to_end(&mut out).unwrap();
    out
}

fn root_bytes(tag: &NbtTag) -> Vec<u8> {
    let mut out = Vec::new();
    write_named_root("", tag, &mut out);
    out
}

#[test]
fn readable_roots_are_recognised() {
    let root = NbtTag::Compound(vec![
        ("a".to_string(), NbtTag::Int(5)),
        ("l".to_string(), NbtTag::List(3, vec![NbtTag::Int(1), NbtTag::Int(2)])),
        ("s".to_string(), NbtTag::String("hi".to_string())),
    ]);
    let bytes = root_bytes(&root);
    assert!(nbt_root_readable(&bytes));
    for cut in 0..bytes.len() {
        assert!(!nbt_root_readable(&bytes[..cut]), "prefix of {} bytes", cut);
    }
    assert_eq!(payload_size(&[0, 0, 0, 7], 0, 3), Some(4));
    assert_eq!(payload_size(&[0, 0, 0], 0, 3), None);
    assert_eq!(payload_size(&[0xff, 0xff, 0xff, 0xff], 0, 7), None);
    assert_eq!(payload_size(&[0, 0, 0, 2, 9, 9], 0, 7), Some(6));
    assert_eq!(payload_size(&[], 0, 0), Some(0));
}

#[test]
fn chunk_bytes_checked_before_loading() {
    let g = FlatWorldGenerator::new();
    let nbt = chunk_to_nbt(0, 0, &BlockMap::new(), &g, Vec::new(), true);
    assert!(chunk_nbt_loadable(&nbt));
    assert!(!chunk_nbt_loadable(&nbt[..nbt.len() - 1]));
    let short_blocks = NbtTag::Compound(vec![(
        "Level".to_string(),
        NbtTag::Compound(vec![
            ("xPos".to_string(), NbtTag::Int(0)),
            ("zPos".to_string(), NbtTag::Int(0)),
            (
                "Sections".to_string(),
                NbtTag::List(
                    10,
                    vec![NbtTag::Compound(vec![
                        ("Y".to_string(), NbtTag::Byte(0)),
                        ("Blocks".to_string(), NbtTag::ByteArray(vec![1; 10])),
                    ])],
                ),
            ),
        ]),
    )]);
    assert!(!chunk_nbt_loadable(&root_bytes(&short_blocks)));
    let far = NbtTag::Compound(vec![(
        "Level".to_string(),
        NbtTag::Compound(vec![
            ("xPos".to_string(), NbtTag::Int(0x800_0000)),
            ("zPos".to_string(), NbtTag::Int(0)),
            ("Sections".to_string(), NbtTag::List(10, Vec::new())),
        ]),
    )]);
    assert!(!chunk_nbt_loadable(&root_bytes(&far)));
    let no_level = NbtTag::Compound(vec![("x".to_string(), NbtTag::Int(1))]);
    assert!(chunk_nbt_loadable(&root_bytes(&no_level)));
}

#[test]
fn chunks_cached_from_region_bytes() {
    let g = FlatWorldGenerator::new();
    let mut blocks = BlockMap::new();
    blocks.insert(2, 9, 3, Block::new(1, 0));
    let nbt = chunk_to_nbt(0, 0, &blocks, &g, Vec::new(), true);
    let region = RegionFile::new(Path::new("w"), 0, 0);
    let file = region.write_chunk_bytes(Vec::new(), 0, 0, &nbt, 7).unwrap();
    let mut w = WorldBlocks::new();
    assert_eq!(w.cache_from_region(1, 0, &file), None);
    assert_eq!(w.cache_from_region(0, 0, &file), Some(nbt.clone()));
    assert_eq!(w.get_chunk_nbt(0, 0), Some(nbt.clone()));
    assert_eq!(w.get(2, 9, 3, &g).id, 1);
    // Once cached, the region bytes are not looked at again.
    assert_eq!(w.cache_from_region(0, 0, &[]), Some(nbt));
}

fn sample_player() -> PlayerData {
    PlayerData {
        x: 10.5f64.to_bits(),
        y: 64.0f64.to_bits(),
        z: (-3.25f64).to_bits(),
        yaw: 45.0f32.to_bits(),
        pitch: (-10.0f32).to_bits(),
        health: 18.5f32.to_bits(),
        food: 17,
        food_saturation: 2.0f32.to_bits(),
        gamemode: 0,
        inventory: vec![(0, 276, 1, 12), (9, 4, 64, 0), (36, -1, 5, 0)],
    }
}

#[test]
fn player_data_saves_and_loads() {
    let p = sample_player();
    let bytes = save_player_data_bytes(&p);
    assert_eq!(gunzip(&bytes), player_data_nbt(&p));
    let back = load_player_data_bytes(&bytes).unwrap();
    assert_eq!(f64::from_bits(back.x), 10.5);
    assert_eq!(f64::from_bits(back.z), -3.25);
    assert_eq!(f32::from_bits(back.yaw), 45.0);
    assert_eq!(f32::from_bits(back.pitch), -10.0);
    assert_eq!(f32::from_bits(back.health), 18.5);
    assert_eq!(back.food, 17);
    assert_eq!(back.gamemode, 0);
    // The item of id -1 is not saved.
    assert_eq!(back.inventory, vec![(0, 276, 1, 12), (9, 4, 64, 0)]);
}

#[test]
fn player_game_mode_comes_back_as_survival() {
    let mut p = sample_player();
    p.gamemode = 1;
    let back = load_player_data_bytes(&save_player_data_bytes(&p)).unwrap();
    assert_eq!(back.gamemode, 0);
}

#[test]
fn player_defaults_and_bad_files() {
    let d = PlayerData::default();
    assert_eq!(f64::from_bits(d.x), 0.5);
    assert_eq!(f64::from_bits(d.y), 4.5);
    assert_eq!(f32::from_bits(d.yaw), 90.0);
    assert_eq!(f32::from_bits(d.health), 20.0);
    assert_eq!(d.food, 20);
    assert_eq!(f32::from_bits(d.food_saturation), 5.0);
    assert!(load_player_data_bytes(b"not gzip").is_none());
    let no_pos = root_bytes(&NbtTag::Compound(vec![("Health".to_string(), NbtTag::Float(1))]));
    assert!(player_nbt_readable(&no_pos));
    assert!(player_data_from_nbt(&no_pos).is_none());
    let short_pos = root_bytes(&NbtTag::Compound(vec![("Pos".to_string(), NbtTag::List(6, vec![NbtTag::Double(0)]))]));
    assert!(!player_nbt_readable(&short_pos));
    let only_pos = root_bytes(&NbtTag::Compound(vec![(
        "Pos".to_string(),
        NbtTag::List(3, vec![NbtTag::Int(1), NbtTag::Int(2), NbtTag::Int(3)]),
    )]));
    let p = player_data_from_nbt(&only_pos).unwrap();
    assert_eq!(f64::from_bits(p.x), 0.5);
    assert_eq!(f32::from_bits(p.yaw), 90.0);
    assert_eq!(p.food, 20);
    assert!(p.inventory.is_empty());
}

#[test]
fn spawn_point_written_into_level_dat() {
    let nbt = gunzip(&level_dat_bytes("world"));
    let updated = with_spawn_point(&nbt, 10, 70, -5, 90.0f32.to_bits(), 0);
    let mut reader = NbtReader::new(&updated);
    let (name, root) = reader.read_named_root();
    assert_eq!(name, "");
    let data = root.get("Data").unwrap();
    assert_eq!(data.get("SpawnX").unwrap().as_i32(), Some(10));
    assert_eq!(data.get("SpawnY").unwrap().as_i32(), Some(70));
    assert_eq!(data.get("SpawnZ").unwrap().as_i32(), Some(-5));
    assert_eq!(data.get("LevelName").unwrap().as_string(), Some("world"));
    // The angles are written as floats but read as ints, so no spawn point
    // is read back.
    assert_eq!(spawn_point_of(&updated), None);
    let ints = root_bytes(&NbtTag::Compound(vec![(
        "Data".to_string(),
        NbtTag::Compound(vec![
            ("SpawnX".to_string(), NbtTag::Int(1)),
            ("SpawnY".to_string(), NbtTag::Int(2)),
            ("SpawnZ".to_string(), NbtTag::Int(3)),
            ("SpawnYaw".to_string(), NbtTag::Int(4)),
            ("SpawnPitch".to_string(), NbtTag::Int(5)),
        ]),
    )]));
    assert_eq!(spawn_point_of(&ints), Some((1, 2, 3, 4, 5)));
}

#[test]
fn tile_entities_stored_and_read_back() {
    let sign = TileEntity::Sign {
        lines: ["Hi \"you\"".to_string(), "a\\b".to_string(), String::new(), "x".to_string()],
    };
    let tag = tile_entity_to_nbt(1, 2, 3, &sign).unwrap();
    assert_eq!(tag.get("id").unwrap().as_string(), Some("Sign"));
    assert_eq!(tag.get("Text1").unwrap().as_string(), Some("{\"text\":\"Hi \\\"you\\\"\"}"));
    assert_eq!(tag.get("Text2").unwrap().as_string(), Some("{\"text\":\"a\\\\b\"}"));
    assert_eq!(tag.get("Text3").unwrap().as_string(), Some("{\"text\":\"\"}"));
    let mut items: Vec<Option<Slot>> = vec![None; 27];
    items[4] = Some(Slot { item_id: 264, count: 3, metadata: 0 });
    let chest = TileEntity::Chest { items };
    let ctag = tile_entity_to_nbt(-5, 64, 9, &chest).unwrap();
    let list = ctag.get("Items").unwrap().as_list().unwrap();
    assert_eq!(list.len(), 1);
    assert_eq!(list[0].get("Slot").unwrap().as_i8(), Some(4));
    assert_eq!(list[0].get("id").unwrap().as_i32(), Some(264));

    let g = FlatWorldGenerator::new();
    let nbt = chunk_to_nbt(0, 0, &BlockMap::new(), &g, vec![tag, ctag, NbtTag::Compound(Vec::new())], true);
    let tiles = nbt_to_tile_entities(&nbt);
    assert_eq!(tiles.len(), 2);
    assert_eq!((tiles[0].x, tiles[0].y, tiles[0].z, tiles[0].id.as_str()), (1, 2, 3, "Sign"));
    assert_eq!((tiles[1].x, tiles[1].y, tiles[1].z, tiles[1].id.as_str()), (-5, 64, 9, "Chest"));
    assert!(tiles[1].compound.get("Items").is_some());
}

#[test]
fn nbt_get_mut_changes_in_place() {
    let mut root = NbtTag::Compound(vec![
        ("Data".to_string(), NbtTag::Compound(vec![("SpawnX".to_string(), NbtTag::Int(0))])),
        ("Other".to_string(), NbtTag::Int(7)),
    ]);
    if let Some(data) = root.get_mut("Data") {
        data.set("SpawnX", NbtTag::Int(12));
        data.set("SpawnY", NbtTag::Int(64));
    }
    let data = root.get("Data").unwrap();
    assert_eq!(data.get("SpawnX").unwrap().as_i32(), Some(12));
    assert_eq!(data.get("SpawnY").unwrap().as_i32(), Some(64));
    assert_eq!(root.get("Other").unwrap().as_i32(), Some(7));
    assert!(root.get_mut("Missing").is_none());
    assert!(NbtTag::Int(3).get_mut("Data").is_none());
}

#[test]
fn chunk_packets_lay_changed_blocks_over_the_cached_chunk() {
    let g = FlatWorldGenerator::new();
    let mut saved = BlockMap::new();
    saved.insert(2, 9, 3, Block::new(1, 0));
    saved.insert(4, 40, 4, Block::new(5, 2));
    let nbt = chunk_to_nbt(0, 0, &saved, &g, Vec::new(), true);
    let mut expected = BlockMap::new();
    coral::world::anvil::nbt_to_blocks_raw(&nbt, &mut expected);
    let mut w = WorldBlocks::new();
    w.cache_chunk(0, 0, nbt);
    w.set(2, 9, 3, Block::new(4, 0), &g);
    w.set(20, 9, 3, Block::new(4, 0), &g);
    let packet = ChunkData::build(0, 0, 5, &w, &g);
    assert_eq!(expected.get(2, 9, 3).map(|b| b.id), Some(1));
    expected.insert(2, 9, 3, Block::new(4, 0));
    let (data, mask) = build_chunk_data_18_from_map(0, 0, &expected);
    assert_eq!(packet.data, data);
    assert_eq!(packet.primary_bitmask, mask);
    assert_eq!(packet.primary_bitmask, 0b101);
    let fresh = ChunkData::build(1, 0, 47, &WorldBlocks::new(), &g);
    assert_eq!(fresh.primary_bitmask, 1);
    assert_eq!(fresh.chunk_x, 1);
}
