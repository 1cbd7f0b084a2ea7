use coral::protocol::packets::handshake::{EnumProtocol, KeepAlive, PacketHandshake};
use coral::protocol::packets::login::{EncryptionRequest, EncryptionResponse, LoginDisconnect, LoginStart, PlayDisconnect};
use coral::protocol::packets::play::block::{BlockChange, HeldItemChange, PlayerBlockPlacement, PlayerDig};
use coral::protocol::packets::play::chat::{ChatMessage, ChatMessageOut};
use coral::protocol::packets::play::entity::{
    DestroyEntities, EntityHeadLook, EntityLook, EntityLookAndMove, EntityRelativeMove,
};
use coral::protocol::packets::play::inventory::{
    ClickWindow, CloseWindow, ConfirmTransaction, Inventory, OpenWindow, SetSlot,
};
use coral::protocol::packets::play::player_list::PlayerListItem17;
use coral::protocol::packets::play::{
    pack_block_position, unpack_block_position, PlayerOnGround, PluginMessage, SpawnPosition, SpawnPosition17,
};
use coral::protocol::packets::status::{Ping, Pong, Request, Response};
use coral::protocol::packets::{PacketKey, PacketOut, ProtocolError};
use coral::protocol::writer::Writer;

fn bytes_of<P: PacketOut>(p: &P) -> Vec<u8> {
    let mut w = Writer::new();
    p.encode(&mut w).unwrap();
    w.data
}

#[test]
fn handshake_decodes_and_reencodes() {
    let mut w = Writer::new();
    w.write_varint(47);
    w.write_string("localhost");
    w.write_u16(25565);
    w.write_varint(2);
    let bytes = w.data.clone();
    let h = PacketHandshake::decode(&bytes).unwrap();
    assert_eq!(h.protocol_version, 47);
    assert_eq!(h.requested_protocol, EnumProtocol::Login);
    assert_eq!(bytes_of(&h), bytes);
}

#[test]
fn handshake_unknown_state_and_trailing_bytes() {
    let mut w = Writer::new();
    w.write_varint(5);
    w.write_string("a");
    w.write_u16(1);
    w.write_varint(7);
    assert_eq!(PacketHandshake::decode(&w.data).unwrap_err(), ProtocolError::UnknownProtocol(7));
    let mut w = Writer::new();
    w.write_varint(5);
    w.write_string("a");
    w.write_u16(1);
    w.write_varint(1);
    w.write_byte(9);
    w.write_byte(9);
    assert_eq!(PacketHandshake::decode(&w.data).unwrap_err(), ProtocolError::BytesRemaining(2));
}

#[test]
fn protocol_ids() {
    assert_eq!(EnumProtocol::Handshaking.to_id(), 0);
    assert_eq!(EnumProtocol::Status.to_id(), 1);
    assert_eq!(EnumProtocol::Login.to_id(), 2);
    assert_eq!(EnumProtocol::Play.to_id(), 3);
    let k = PacketKey { state: EnumProtocol::Play, id: 0x17 };
    assert_eq!(k, PacketKey { state: EnumProtocol::Play, id: 0x17 });
}

#[test]
fn keepalive_roundtrip() {
    let k = KeepAlive { id: 300 };
    let bytes = bytes_of(&k);
    assert_eq!(bytes, vec![0x00, 0xac, 0x02]);
    assert_eq!(KeepAlive::decode(&bytes).unwrap().id, 300);
}

#[test]
fn login_start_and_disconnects() {
    let p = LoginStart { username: "Steve".to_string() };
    let bytes = bytes_of(&p);
    assert_eq!(bytes[0], 0x00);
    assert_eq!(LoginStart::decode(&bytes[1..]).unwrap().username, "Steve");
    let d = LoginDisconnect::new("bye");
    let b = bytes_of(&d);
    let mut expect = vec![0x00, 14];
    expect.extend_from_slice(b"{\"text\":\"bye\"}");
    assert_eq!(b, expect);
    let pd = PlayDisconnect::new("x");
    assert_eq!(bytes_of(&pd)[0], 0x40);
}

#[test]
fn encryption_packets() {
    let req = EncryptionRequest { server_id: String::new(), public_key: vec![1, 2, 3], verify_token: vec![9] };
    assert_eq!(bytes_of(&req), vec![0x01, 0x00, 3, 1, 2, 3, 1, 9]);
    let resp = EncryptionResponse::decode(&[2, 7, 8, 1, 5]).unwrap();
    assert_eq!(resp.shared_secret, vec![7, 8]);
    assert_eq!(resp.verify_token, vec![5]);
}

#[test]
fn status_packets() {
    assert!(Request::decode(&[]).is_ok());
    assert_eq!(Request::decode(&[1]).unwrap_err(), ProtocolError::ExtraBytes);
    assert_eq!(bytes_of(&Request), vec![0x00]);
    let ping = Ping { time: 42 };
    let b = bytes_of(&ping);
    assert_eq!(b, vec![0, 0, 0, 0, 0, 0, 0, 42]);
    assert_eq!(Ping::decode(&b).unwrap().time, 42);
    let mut extra = b.clone();
    extra.push(0);
    assert_eq!(Ping::decode(&extra).unwrap_err(), ProtocolError::ExtraBytes);
    assert_eq!(bytes_of(&Pong { time: 1 }), vec![0x01, 0, 0, 0, 0, 0, 0, 0, 1]);
    let r = Response::from_json("{}".to_string());
    assert_eq!(bytes_of(&r), vec![0x00, 2, b'{', b'}']);
    let back = Response::decode(&[2, b'{', b'}']).unwrap();
    assert_eq!(bytes_of(&back), vec![0x00, 2, b'{', b'}']);
}

#[test]
fn position_packing() {
    let p = pack_block_position(-1, 64, 5);
    assert_eq!(unpack_block_position(p), (-1, 64, 5));
    let p = pack_block_position(33554431, 255, -33554432);
    assert_eq!(unpack_block_position(p), (33554431, 255, -33554432));
    assert_eq!(pack_block_position(1, 2, 3), (1i64 << 38) | (2i64 << 26) | 3);
}

#[test]
fn block_packets() {
    let mut body = vec![2u8];
    body.extend_from_slice(&pack_block_position(10, 70, -3).to_be_bytes());
    body.push(1);
    let dig = PlayerDig::decode(&body).unwrap();
    assert_eq!((dig.status, dig.x, dig.y, dig.z, dig.face), (2, 10, 70, -3, 1));

    let mut body = Vec::new();
    body.extend_from_slice(&pack_block_position(1, 2, 3).to_be_bytes());
    body.push(4);
    body.extend_from_slice(&(-1i16).to_be_bytes());
    let place = PlayerBlockPlacement::decode(&body).unwrap();
    assert_eq!((place.x, place.y, place.z, place.face, place.held_item_id), (1, 2, 3, 4, -1));
    assert_eq!(place.held_item_count, 0);

    let mut body = Vec::new();
    body.extend_from_slice(&pack_block_position(1, 2, 3).to_be_bytes());
    body.push(4);
    body.extend_from_slice(&(5i16).to_be_bytes());
    body.extend_from_slice(&[3, 0, 7, 8, 9, 10]);
    let place = PlayerBlockPlacement::decode(&body).unwrap();
    assert_eq!(
        (place.held_item_count, place.held_item_damage, place.cursor_x, place.cursor_y, place.cursor_z),
        (3, 7, 8, 9, 10)
    );

    assert_eq!(HeldItemChange::decode(&[0, 4]).unwrap().slot, 4);

    let change = BlockChange { x: 1, y: 2, z: 3, block_id: 1, block_metadata: 2 };
    let mut expect = vec![0x23];
    expect.extend_from_slice(&pack_block_position(1, 2, 3).to_be_bytes());
    expect.push(0x12);
    assert_eq!(bytes_of(&change), expect);
}

#[test]
fn chat_packets() {
    let m = ChatMessage::decode(&[2, b'h', b'i']).unwrap();
    assert_eq!(m.message, "hi");
    assert_eq!(bytes_of(&m), vec![0x01, 2, b'h', b'i']);
    let out = ChatMessageOut::from_json("{}");
    assert_eq!(bytes_of(&out), vec![0x02, 2, b'{', b'}', 0]);
}

#[test]
fn entity_packets() {
    assert_eq!(
        bytes_of(&EntityRelativeMove { entity_id: 5, dx: -1, dy: 2, dz: 0, on_ground: true }),
        vec![0x15, 5, 0xff, 2, 0, 1]
    );
    assert_eq!(
        bytes_of(&EntityLookAndMove { entity_id: 1, dx: 1, dy: 1, dz: 1, yaw: 64, pitch: 0, on_ground: false }),
        vec![0x17, 1, 1, 1, 1, 64, 0, 0]
    );
    assert_eq!(bytes_of(&EntityLook { entity_id: 2, yaw: 3, pitch: 4, on_ground: true }), vec![0x16, 2, 3, 4, 1]);
    assert_eq!(bytes_of(&DestroyEntities { entity_ids: vec![1, 300] }), vec![0x13, 2, 1, 0xac, 0x02]);
    assert_eq!(bytes_of(&EntityHeadLook { entity_id: 9, head_yaw: 128 }), vec![0x19, 9, 128]);
}

#[test]
fn window_packets() {
    assert_eq!(CloseWindow::decode(&[3]).unwrap().window_id, 3);
    assert_eq!(bytes_of(&CloseWindow { window_id: 3 }), vec![0x2E, 3]);
    let click = ClickWindow::decode(&[1, 0, 5, 0, 0, 7, 1, 0xff, 0xff]).unwrap();
    assert_eq!(
        (click.window_id, click.slot, click.button, click.action_number, click.mode, click.clicked_item_id),
        (1, 5, 0, 7, 1, -1)
    );
    let open = OpenWindow {
        window_id: 1,
        window_type: "minecraft:chest".to_string(),
        title: "C".to_string(),
        slot_count: 27,
    };
    let b = bytes_of(&open);
    assert_eq!(b[0], 0x2D);
    assert_eq!(*b.last().unwrap(), 0);
    assert_eq!(b[b.len() - 2], 27);
    assert_eq!(
        bytes_of(&ConfirmTransaction { window_id: 0, action_number: 2, accepted: true }),
        vec![0x32, 0, 0, 2, 1]
    );
    assert_eq!(
        bytes_of(&SetSlot { window_id: -1, slot: 1, item_id: -1, count: 0, metadata: 0 }),
        vec![0x2F, 0xff, 0, 1, 0xff, 0xff]
    );
    assert_eq!(
        bytes_of(&SetSlot { window_id: 0, slot: 36, item_id: 1, count: 64, metadata: 2 }),
        vec![0x2F, 0, 0, 36, 0, 1, 64, 0, 2, 0]
    );
}

#[test]
fn inventory_adds_items() {
    let mut inv = Inventory::new();
    assert!(inv.slots.iter().all(|s| s.is_none()));
    assert_eq!(inv.add_item_get_slot(1, 10, 0), Some(36));
    assert_eq!(inv.add_item_get_slot(1, 60, 0), Some(36));
    assert_eq!(inv.slots[0].unwrap().count, 64);
    assert_eq!(inv.add_item_get_slot(2, 1, 0), Some(37));
    for _ in 0..40 {
        inv.add_item_get_slot(3, 64, 0);
    }
    assert_eq!(inv.add_item_get_slot(4, 1, 0), None);
}

#[test]
fn play_misc_packets() {
    let sp = SpawnPosition { x: 1, y: 2, z: 3 };
    let mut expect = vec![0x05];
    expect.extend_from_slice(&pack_block_position(1, 2, 3).to_be_bytes());
    assert_eq!(bytes_of(&sp), expect);
    assert_eq!(
        bytes_of(&SpawnPosition17 { x: 1, y: -1, z: 2 }),
        vec![0x05, 0, 0, 0, 1, 0xff, 0xff, 0xff, 0xff, 0, 0, 0, 2]
    );
    let brand = PluginMessage::brand("Coral");
    assert_eq!(brand.channel, "MC|Brand");
    assert_eq!(brand.data, vec![5, b'C', b'o', b'r', b'a', b'l']);
    let b = bytes_of(&brand);
    assert_eq!(b[0], 0x3F);
    let m = PluginMessage::decode(&[2, b'a', b'b', 7, 8]).unwrap();
    assert_eq!(m.channel, "ab");
    assert_eq!(m.data, vec![7, 8]);
    assert!(PlayerOnGround::decode(&[1]).unwrap().on_ground);
    assert_eq!(
        bytes_of(&PlayerListItem17 { username: "a".to_string(), online: true, ping: -1 }),
        vec![0xC9, 0x01, 1, b'a', 1, 0xff, 0xff]
    );
}
