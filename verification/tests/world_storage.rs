use coral::world::anvil::{chunk_to_nbt, nbt_to_blocks, nbt_to_blocks_raw};
use coral::world::blocks::{Block, BlockMap};
use coral::world::chunk::{block_state, build_chunk_data_17_from_map, build_chunk_data_18_from_map, ChunkData, UnloadChunk};
use coral::world::generator::FlatWorldGenerator;
use coral::world::level::level_dat_bytes;
use coral::world::nbt::{write_named_root, NbtReader, NbtTag};
use coral::world::region::RegionFile;
use coral::world::time::TimeUpdate;
use coral::protocol::packets::PacketOut;
use coral::protocol::writer::Writer;
use std::io::Read;
use std::path::Path;

fn same(a: Option<Block>, b: (u8, u8)) -> bool {
    match a {
        Some(x) => x.id == b.0 && x.metadata == b.1,
        None => false,
    }
}

#[test]
fn nbt_write_and_read_back() {
    let root = NbtTag::Compound(vec![
        ("a".to_string(), NbtTag::Int(-5)),
        ("b".to_string(), NbtTag::String("hé".to_string())),
        ("c".to_string(), NbtTag::List(1, vec![NbtTag::Byte(1), NbtTag::Byte(2)])),
        ("d".to_string(), NbtTag::IntArray(vec![1, 2, 3])),
        ("e".to_string(), NbtTag::Float(0x3f80_0000)),
    ]);
    let mut out = Vec::new();
    write_named_root("root", &root, &mut out);
    assert_eq!(out[0], 10);
    let mut reader = NbtReader::new(&out);
    let (name, tag) = reader.read_named_root();
    assert_eq!(name, "root");
    assert_eq!(tag.get("a").unwrap().as_i32(), Some(-5));
    assert_eq!(tag.get("b").unwrap().as_string(), Some("hé"));
    assert_eq!(tag.get("c").unwrap().as_list().unwrap().len(), 2);
    assert_eq!(tag.get("c").unwrap().as_list().unwrap()[1].as_i8(), Some(2));
    assert!(tag.get("zz").is_none());
    assert_eq!(tag.type_id(), 10);
}

#[test]
fn nbt_set_replaces_or_appends() {
    let mut t = NbtTag::Compound(vec![("x".to_string(), NbtTag::Int(1))]);
    t.set("x", NbtTag::Int(2));
    t.set("y", NbtTag::Short(3));
    assert_eq!(t.get("x").unwrap().as_i32(), Some(2));
    assert_eq!(t.get("y").unwrap().as_i16_val(), Some(3));
    let copy = t.clone();
    assert_eq!(copy.get("y").unwrap().as_i16_val(), Some(3));
}

#[test]
fn chunk_save_then_load() {
    let g = FlatWorldGenerator::new();
    let mut blocks = BlockMap::new();
    blocks.insert(3, 10, 5, Block::new(1, 0));
    blocks.insert(0, 0, 0, Block::new(0, 0));
    blocks.insert(15, 200, 15, Block::new(35, 14));
    let nbt = chunk_to_nbt(0, 0, &blocks, &g, Vec::new(), true);
    let mut loaded = BlockMap::new();
    nbt_to_blocks(&nbt, &mut loaded, &g);
    assert!(same(loaded.get(3, 10, 5), (1, 0)));
    assert!(same(loaded.get(0, 0, 0), (0, 0)));
    assert!(same(loaded.get(15, 200, 15), (35, 14)));
    // generated blocks equal to the generator are left out
    assert!(loaded.get(5, 1, 5).is_none());
    let mut raw = BlockMap::new();
    nbt_to_blocks_raw(&nbt, &mut raw);
    assert!(same(raw.get(5, 3, 5), (2, 0)));
    assert!(raw.get(5, 50, 5).is_none());
}

#[test]
fn chunk_payloads() {
    let mut blocks = BlockMap::new();
    blocks.insert(0, 0, 0, Block::new(7, 0));
    let (data, mask) = build_chunk_data_18_from_map(0, 0, &blocks);
    assert_eq!(mask, 1);
    assert_eq!(data.len(), 8192 + 2048 + 2048 + 256);
    assert_eq!((data[0], data[1]), (0x70, 0x00));
    let d17 = build_chunk_data_17_from_map(0, 0, &blocks);
    assert_eq!(d17.len(), 4096 + 2048 + 2048 + 2048 + 256);
    assert_eq!(d17[0], 7);
    assert_eq!(block_state(Block::new(2, 17)), (2 << 4) | 1);
}

#[test]
fn chunk_packets() {
    let p = ChunkData { chunk_x: 1, chunk_z: 2, client_protocol: 47, data: vec![9, 9], primary_bitmask: 1 };
    let mut w = Writer::new();
    p.encode(&mut w).unwrap();
    assert_eq!(w.data, vec![0x21, 0, 0, 0, 1, 0, 0, 0, 2, 1, 0, 1, 2, 9, 9]);
    let p17 = ChunkData { chunk_x: 0, chunk_z: 0, client_protocol: 5, data: vec![0u8; 100], primary_bitmask: 1 };
    let mut w = Writer::new();
    p17.encode(&mut w).unwrap();
    assert_eq!(&w.data[..14], &[0x21, 0, 0, 0, 0, 0, 0, 0, 0, 1, 0, 1, 0, 0]);
    let n = i32::from_be_bytes([w.data[14], w.data[15], w.data[16], w.data[17]]) as usize;
    assert_eq!(w.data.len(), 18 + n);
    let mut dec = flate2::read::DeflateDecoder::new(&w.data[18..]);
    let mut out = Vec::new();
    dec.read_to_end(&mut out).unwrap();
    assert_eq!(out, vec![0u8; 100]);
    assert!(n < 100);
    let mut w = Writer::new();
    UnloadChunk { chunk_x: 1, chunk_z: -1 }.encode(&mut w).unwrap();
    assert_eq!(w.data, vec![0x21, 0, 0, 0, 1, 0xff, 0xff, 0xff, 0xff, 1, 0, 0, 0]);
    let mut w = Writer::new();
    TimeUpdate { world_age: 1, time_of_day: 6000 }.encode(&mut w).unwrap();
    assert_eq!(w.data, vec![0x03, 0, 0, 0, 0, 0, 0, 0, 1, 0, 0, 0, 0, 0, 0, 0x17, 0x70]);
}

#[test]
fn region_write_then_read() {
    let region = RegionFile::new(Path::new("w"), 0, -1);
    assert_eq!(RegionFile::file_name(0, -1), "r.0.-1.mca");
    let nbt: Vec<u8> = (0..5000u32).map(|i| (i % 7) as u8 + 1).collect();
    let file = region.write_chunk_bytes(Vec::new(), 3, 4, &nbt, 1234).unwrap();
    assert!(file.len() >= 8192 + 4096);
    assert_eq!(file.len() % 4096, 0);
    let header = (3 + 4 * 32) * 4;
    assert_eq!(&file[header..header + 3], &[0, 0, 2]);
    assert_eq!(&file[header + 4096..header + 4100], &1234u32.to_be_bytes());
    assert!(RegionFile::record_is_sliceable(&file, 3, 4));
    assert_eq!(RegionFile::chunk_from_bytes(&file, 3, 4), Some(nbt.clone()));
    assert_eq!(RegionFile::chunk_from_bytes(&file, 4, 4), None);
    let other: Vec<u8> = vec![42u8; 10];
    let file2 = region.write_chunk_bytes(file, 5, 4, &other, 1).unwrap();
    assert_eq!(RegionFile::chunk_from_bytes(&file2, 3, 4), Some(nbt.clone()));
    assert_eq!(RegionFile::chunk_from_bytes(&file2, 3, 4 + 32), Some(nbt));
    assert_eq!(RegionFile::chunk_from_bytes(&file2, 5, 4), Some(other.clone()));
    let file3 = region.write_chunk_bytes(file2, 35, 4, &other, 2).unwrap();
    assert_eq!(RegionFile::chunk_from_bytes(&file3, 3, 4), Some(other));
}

#[test]
fn region_short_file_reads_nothing() {
    assert_eq!(RegionFile::chunk_from_bytes(&[0u8; 100], 0, 0), None);
}

#[test]
fn level_dat_is_gzipped_nbt() {
    let bytes = level_dat_bytes("world");
    let mut dec = flate2::read::GzDecoder::new(&bytes[..]);
    let mut nbt = Vec::new();
    dec.read_to_end(&mut nbt).unwrap();
    let mut reader = NbtReader::new(&nbt);
    let (name, root) = reader.read_named_root();
    assert_eq!(name, "");
    let data = root.get("Data").unwrap();
    assert_eq!(data.get("LevelName").unwrap().as_string(), Some("world"));
    assert_eq!(data.get("version").unwrap().as_i32(), Some(19133));
}

#[test]
fn region_file_path_and_name() {
    let r = coral::world::region::RegionFile::new(std::path::Path::new("world"), -1, 2);
    assert_eq!(r.file_name, "r.-1.2.mca");
    assert_eq!(r.path, std::path::Path::new("world").join("region").join("r.-1.2.mca"));
}
