use coral::protocol::checks::{handshake_readable, i64_field_readable, string_field_readable};
use coral::protocol::frame::{frame_is_readable, frame_packet};
use coral::protocol::packets::handshake::{EnumProtocol, PacketHandshake};
use coral::protocol::packets::play::inventory::{Inventory, Slot};
use coral::protocol::writer::Writer;
use coral::tile_window::chest_click;
use coral::world::blocks::Block;
use coral::world::chunk::{build_chunk_data_17, build_chunk_data_18};
use coral::world::generator::FlatWorldGenerator;
use coral::world::world_blocks::WorldBlocks;

#[test]
fn chunk_payloads_from_the_world() {
    let g = FlatWorldGenerator::new();
    let mut w = WorldBlocks::new();
    w.set(1, 5, 2, Block::new(35, 14), &g);
    let d18 = build_chunk_data_18(0, 0, &w, &g);
    assert_eq!(d18.len(), 8192 + 2048 + 2048 + 256);
    // Bedrock at (0, 0, 0): state 7 << 4.
    assert_eq!((d18[0], d18[1]), (0x70, 0));
    let i = 5 * 256 + 2 * 16 + 1;
    let state: u16 = (35 << 4) | 14;
    assert_eq!((d18[2 * i], d18[2 * i + 1]), ((state & 0xff) as u8, (state >> 8) as u8));
    assert_eq!(d18[8192], 0xFF);
    assert_eq!(d18[d18.len() - 1], 1);
    let d17 = build_chunk_data_17(0, 0, &w, &g);
    assert_eq!(d17.len(), 4096 + 2048 * 3 + 256);
    assert_eq!(d17[0], 7);
    assert_eq!(d17[3 * 256], 2);
    assert_eq!(d17[i], 35);
    assert_eq!(d17[4096], 0);
    assert_eq!(d17[4096 + 2048], 0xFF);
}

fn total(chest: &[Option<Slot>], inv: &Inventory, cursor: &Option<Slot>, id: i16) -> u32 {
    let count = |s: &Option<Slot>| match s {
        Some(x) if x.item_id == id => x.count as u32,
        _ => 0,
    };
    chest.iter().map(count).sum::<u32>() + inv.slots.iter().map(count).sum::<u32>() + count(cursor)
}

#[test]
fn shift_clicks_keep_every_item() {
    let mut chest: Vec<Option<Slot>> = vec![None; 27];
    chest[3] = Some(Slot { item_id: 4, count: 50, metadata: 0 });
    let mut inv = Inventory::new();
    for k in 0..36 {
        inv.slots[k] = Some(Slot { item_id: 4, count: 63, metadata: 0 });
    }
    let mut cursor: Option<Slot> = None;
    let before = total(&chest, &inv, &cursor, 4);
    chest_click(&mut chest, &mut inv, &mut cursor, 3, 1).unwrap();
    assert_eq!(total(&chest, &inv, &cursor, 4), before);
    assert_eq!(chest[3].unwrap().count, 14);
    chest_click(&mut chest, &mut inv, &mut cursor, 27, 1).unwrap();
    assert_eq!(total(&chest, &inv, &cursor, 4), before);
}

#[test]
fn inbound_fields_checked_before_reading() {
    let mut w = Writer::new();
    w.write_varint(47);
    w.write_string("localhost");
    w.write_u16(25565);
    w.write_varint(2);
    let body = &w.data[..];
    assert_eq!(PacketHandshake::decode(body).unwrap().requested_protocol, EnumProtocol::Login);
    assert!(handshake_readable(body));
    assert!(!handshake_readable(&body[..body.len() - 1]));
    assert!(string_field_readable(&[3, b'a', b'b', b'c']));
    assert!(!string_field_readable(&[3, b'a', b'b']));
    assert!(!string_field_readable(&[2, 0xff, 0xfe]));
    assert!(i64_field_readable(&[0; 8]));
    assert!(!i64_field_readable(&[0; 7]));
    let frame = frame_packet(&[0, 1, 2], -1).unwrap();
    assert!(frame_is_readable(&frame, -1));
    assert!(frame_is_readable(&[], -1));
    assert!(!frame_is_readable(&[0xff, 0xff, 0xff, 0xff, 0xff, 0xff], -1));
    assert!(!frame_is_readable(&[0xff, 0xff, 0xff, 0xff, 0x0f], -1));
}
