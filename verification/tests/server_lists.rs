use coral::server::banlist::{BanList, BannedPlayer};
use coral::server::ops::OpsFile;
use coral::server::whitelist::{WhitelistEntry, WhitelistFile};
use coral::server::{next_entity_id, EntityIdCounter, EntityType};

const U: u128 = 0xa1a2a3a4b1b2c1c2d1d2d3d4d5d6d7d8;

#[test]
fn ban_and_unban_player() {
    let mut list = BanList { players: Vec::new(), ips: Vec::new() };
    assert!(list.is_player_banned(U).is_none());
    list.ban_player(U, "Steve", "griefing", "Server");
    let entry = list.is_player_banned(U).unwrap();
    assert_eq!(entry.uuid, "a1a2a3a4-b1b2-c1c2-d1d2-d3d4d5d6d7d8");
    assert_eq!(entry.name, "Steve");
    assert_eq!(entry.expires, "forever");
    assert_eq!(entry.reason, "griefing");
    assert!(entry.created.ends_with(" +0000"));
    list.ban_player(U, "Steve2", "again", "Server");
    assert_eq!(list.players.len(), 1);
    assert_eq!(list.is_player_banned(U).unwrap().name, "Steve2");
    assert!(list.unban_player(U));
    assert!(!list.unban_player(U));
    assert!(list.is_player_banned(U).is_none());
}

#[test]
fn ban_keeps_other_players() {
    let other = BannedPlayer {
        uuid: "x".to_string(),
        name: "x".to_string(),
        created: String::new(),
        source: String::new(),
        expires: String::new(),
        reason: String::new(),
    };
    let mut list = BanList { players: vec![other], ips: Vec::new() };
    list.ban_player(1, "a", "r", "s");
    assert_eq!(list.players.len(), 2);
    assert_eq!(list.players[0].uuid, "x");
    assert_eq!(list.players[1].uuid, "00000000-0000-0000-0000-000000000001");
}

#[test]
fn ban_and_unban_ip() {
    let mut list = BanList { players: Vec::new(), ips: Vec::new() };
    list.ban_ip("127.0.0.1", "spam", "Console");
    assert_eq!(list.is_ip_banned("127.0.0.1").unwrap().reason, "spam");
    assert!(list.is_ip_banned("10.0.0.1").is_none());
    assert!(list.unban_ip("127.0.0.1"));
    assert!(!list.unban_ip("127.0.0.1"));
}

#[test]
fn timestamp_format() {
    assert_eq!(BanList::format_timestamp(0), "1970-01-01 00:00:00 +0000");
    assert_eq!(BanList::format_timestamp(3661), "1970-01-01 12:01:01 +0000");
    assert_eq!(BanList::format_timestamp(86400 * 365), "1971-01-01 00:00:00 +0000");
}

#[test]
fn operators() {
    let mut ops = OpsFile { entries: Vec::new() };
    assert!(!ops.is_op(U));
    assert_eq!(ops.get_level(U), 0);
    ops.add(U, "Admin", 4);
    assert!(ops.is_op(U));
    assert_eq!(ops.get_level(U), 4);
    ops.add(U, "Admin", 2);
    assert_eq!(ops.entries.len(), 1);
    assert_eq!(ops.get_level(U), 2);
    assert!(ops.remove(U));
    assert!(!ops.remove(U));
    assert!(!ops.is_op(U));
}

#[test]
fn whitelist() {
    let mut wl = WhitelistFile { entries: Vec::new() };
    wl.add(U, "Alex".to_string());
    assert!(wl.is_whitelisted(U));
    assert!(!wl.is_whitelisted(U + 1));
    assert_eq!(wl.entries[0].name(), "Alex");
    wl.entries.push(WhitelistEntry::new("y".to_string(), "Y".to_string()));
    assert!(wl.remove(U));
    assert_eq!(wl.entries.len(), 1);
}

#[test]
fn entity_ids_count_up() {
    let mut c = EntityIdCounter::new();
    assert_eq!(next_entity_id(&mut c), 1);
    assert_eq!(next_entity_id(&mut c), 2);
    let mut top = EntityIdCounter { next: i32::MAX };
    assert_eq!(next_entity_id(&mut top), i32::MAX);
    assert_eq!(top.next, i32::MIN);
    assert_ne!(EntityType::Player, EntityType::Mob);
}
