use coral::config::{ChatConfig, ServerConfig, WorldConfig};
use coral::entity::{Entity, EntityTrait, Tickable};
use coral::protocol::frame::{decode_frame, frame_packet, FrameDecode};
use coral::protocol::properties::{Property, PropertyMap};
use coral::random::XorShift;
use coral::protocol::packets::play::inventory::{Inventory, Slot};
use coral::tile_window::{chest_click, insert_into_chest, insert_into_inventory, slot_tuple};

#[test]
fn config_defaults() {
    let s = ServerConfig::default();
    assert_eq!(s.motd, "Coral Rust Minecraft Server\nTest Server");
    assert_eq!(s.port, 25565);
    assert_eq!(s.max_player, 20);
    assert!(s.online_mode);
    assert_eq!(s.player_sample_amount, 12);
    assert_eq!(s.default_gamemode, 0);
    assert!(!s.whitelisted);
    assert_eq!(ChatConfig::default().format, "<{username}> {message}");
    assert_eq!(WorldConfig::default().difficulty, 0);
}

#[test]
fn entities() {
    let e = Entity::new(7);
    assert_eq!(e.id(), 7);
    assert_eq!(Entity::tick_rate(), 3);
    Entity::tick();
}

#[test]
fn frames_uncompressed_and_compressed() {
    let packet = vec![0x00, 1, 2, 3];
    let f = frame_packet(&packet, -1).unwrap();
    assert_eq!(f, vec![4, 0, 1, 2, 3]);
    match decode_frame(&f, -1) {
        FrameDecode::Packet { consumed, id, body } => {
            assert_eq!((consumed, id), (5, 0));
            assert_eq!(body, vec![1, 2, 3]);
        }
        _ => panic!("expected a packet"),
    }
    let small = frame_packet(&packet, 256).unwrap();
    assert_eq!(small, vec![5, 0, 0, 1, 2, 3]);
    let big: Vec<u8> = std::iter::once(0x21u8).chain(std::iter::repeat(7u8).take(1000)).collect();
    let f = frame_packet(&big, 256).unwrap();
    assert!(f.len() < big.len());
    let mut stream = f.clone();
    stream.extend_from_slice(&[9, 9]);
    match decode_frame(&stream, 256) {
        FrameDecode::Packet { consumed, id, body } => {
            assert_eq!(consumed, f.len());
            assert_eq!(id, 0x21);
            assert_eq!(body, big[1..].to_vec());
        }
        _ => panic!("expected a packet"),
    }
    assert!(matches!(decode_frame(&f[..f.len() - 1], 256), FrameDecode::Incomplete));
    assert!(matches!(decode_frame(&[], 256), FrameDecode::Incomplete));
    assert!(matches!(decode_frame(&[3, 5, 1, 2], 0), FrameDecode::Corrupt));
    assert!(matches!(decode_frame(&[1, 0x80], -1), FrameDecode::Malformed));
}

#[test]
fn property_map() {
    let mut m = PropertyMap::new();
    assert!(m.get("textures").is_none());
    m.insert("textures".to_string(), Property { name: "textures".to_string(), value: "a".to_string() });
    m.insert("textures".to_string(), Property { name: "textures".to_string(), value: "b".to_string() });
    m.insert("other".to_string(), Property { name: "o".to_string(), value: "c".to_string() });
    assert_eq!(m.get("textures").unwrap().len(), 2);
    assert_eq!(m.get("textures").unwrap()[1].value, "b");
    assert_eq!(m.delegate().len(), 2);
    let removed = m.remove("textures").unwrap();
    assert_eq!(removed.len(), 2);
    assert!(m.get("textures").is_none());
    assert!(m.remove("textures").is_none());
    m.delegate_mut().clear();
    assert!(m.get("other").is_none());
    m.insert("k".to_string(), Property { name: "k".to_string(), value: "v".to_string() });
    m.clear();
    assert!(m.get("k").is_none());
}

#[test]
fn xorshift() {
    let mut r = XorShift::from_seed(1);
    let s0: u64 = 0x9E3779B97F4A7C16;
    let mut x = s0;
    x ^= x << 13;
    x ^= x >> 7;
    x ^= x << 17;
    assert_eq!(r.next(), x);
    let mut r = XorShift::from_seed(5);
    for _ in 0..100 {
        let v = r.random_in_range(10, 20);
        assert!((10..=20).contains(&v));
    }
    assert_eq!(r.random_in_range(0, u64::MAX) , 0);
    let mut t = XorShift::new();
    let _ = t.next();
}

#[test]
fn chest_windows() {
    let mut chest: Vec<Option<Slot>> = vec![None; 27];
    chest[0] = Some(Slot { item_id: 1, count: 60, metadata: 0 });
    let mut inv = Inventory::new();
    let mut cursor = Some(Slot { item_id: 5, count: 3, metadata: 0 });
    let view = chest_click(&mut chest, &mut inv, &mut cursor, 0, 0).unwrap();
    assert_eq!(view[0], (5, 3, 0));
    assert_eq!(cursor.unwrap().count, 60);
    assert_eq!(slot_tuple(&chest[1]), (-1, 0, 0));
    assert!(chest_click(&mut chest, &mut inv, &mut cursor, 99, 0).is_none());
    let view = chest_click(&mut chest, &mut inv, &mut cursor, 0, 1).unwrap();
    assert_eq!(view[0], (-1, 0, 0));
    assert_eq!(inv.slots[0].unwrap().item_id, 5);
    let view = chest_click(&mut chest, &mut inv, &mut cursor, 54, 1).unwrap();
    assert_eq!(view[0], (5, 3, 0));
    assert!(inv.slots[0].is_none());
    let left = insert_into_chest(&mut chest, Slot { item_id: 5, count: 62, metadata: 0 });
    assert!(left.is_none());
    assert_eq!(chest[0].unwrap().count, 64);
    assert_eq!(chest[1].unwrap().count, 1);
    let mut full = Inventory::new();
    for i in 0..36 {
        full.slots[i] = Some(Slot { item_id: 9, count: 64, metadata: 0 });
    }
    let back = insert_into_inventory(&mut full, Slot { item_id: 8, count: 2, metadata: 0 });
    assert_eq!(back.unwrap().count, 2);
}
