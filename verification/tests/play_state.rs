use coral::play_state::{
    abilities_for, chat_route, join_plan, join_window, ChatRoute, JoinStep, PlayAction, PlayEvent, PlayState,
};
use coral::protocol::packets::play::inventory::Slot;
use coral::server::banlist::BannedIp;
use coral::server::join::login_refusal;
use coral::server::offline_uuid;
use coral::text::contains_str;

fn stack(item_id: i16, count: u8) -> Slot {
    Slot { item_id, count, metadata: 0 }
}

#[test]
fn offline_uuids_are_name_based_in_the_dns_namespace() {
    let expected = uuid::Uuid::new_v3(&uuid::Uuid::NAMESPACE_DNS, b"OfflinePlayer:Notch");
    assert_eq!(offline_uuid("Notch"), expected.as_u128());
    assert_eq!(uuid::Uuid::from_u128(offline_uuid("Notch")).get_version_num(), 3);
    assert_ne!(offline_uuid("Notch"), offline_uuid("notch"));
}

#[test]
fn login_refusals_in_order() {
    assert_eq!(login_refusal(false, 100, 20, None).unwrap(), "Unsupported version. Use 1.8.x");
    assert_eq!(login_refusal(true, 21, 20, None).unwrap(), "Server is full!");
    assert!(login_refusal(true, 20, 20, None).is_none());
    let ban = BannedIp {
        ip: "1.2.3.4".to_string(),
        created: String::new(),
        source: String::new(),
        expires: "forever".to_string(),
        reason: "spam".to_string(),
    };
    assert_eq!(
        login_refusal(true, 0, 20, Some(&ban)).unwrap(),
        "§cYou are IP banned from this server!\n§7Reason: §fspam"
    );
}

#[test]
fn digging_by_game_mode() {
    let mut creative = PlayState::new(1);
    assert_eq!(
        creative.play_step(PlayEvent::Dig { status: 0, x: 1, y: 4, z: 2 }),
        vec![PlayAction::SetBlock { x: 1, y: 4, z: 2, id: 0, metadata: 0 }]
    );
    let mut survival = PlayState::new(0);
    survival.play_step(PlayEvent::Dig { status: 0, x: 1, y: 4, z: 2 });
    assert_eq!(survival.breaking_block, Some((1, 4, 2)));
    assert_eq!(
        survival.play_step(PlayEvent::Dig { status: 2, x: 0, y: 0, z: 0 }),
        vec![PlayAction::BreakBlock { x: 1, y: 4, z: 2 }, PlayAction::BreakAnimation { x: 1, y: 4, z: 2, stage: 10 }]
    );
    assert!(survival.play_step(PlayEvent::Dig { status: 1, x: 0, y: 0, z: 0 }).is_empty());
    let mut adventure = PlayState::new(2);
    assert!(adventure.play_step(PlayEvent::Dig { status: 0, x: 1, y: 4, z: 2 }).is_empty());
}

#[test]
fn dropping_and_placing() {
    let mut s = PlayState::new(0);
    s.inventory.slots[2] = Some(stack(4, 2));
    assert_eq!(s.play_step(PlayEvent::HeldItemChange { slot: 12 }), vec![PlayAction::HeldSlotChanged { slot: 8 }]);
    s.play_step(PlayEvent::HeldItemChange { slot: 2 });
    assert_eq!(s.held_item, 4);
    let actions = s.play_step(PlayEvent::Dig { status: 4, x: 0, y: 0, z: 0 });
    assert_eq!(actions[0], PlayAction::SetSlot { slot: 38, item_id: 4, count: 1, metadata: 0 });
    assert_eq!(actions[1], PlayAction::DropItem { item_id: 4, count: 1, metadata: 0 });
    assert_eq!(actions[2], PlayAction::SendHeldSlot { slot: 2 });
    let actions = s.play_step(PlayEvent::Place { x: 5, y: 10, z: 5, face: 5, held_item_id: 4 });
    assert_eq!(
        actions,
        vec![
            PlayAction::SetSlot { slot: 38, item_id: -1, count: 0, metadata: 0 },
            PlayAction::HeldItem { item_id: 4 },
            PlayAction::SetBlock { x: 6, y: 10, z: 5, id: 4, metadata: 0 },
        ]
    );
    assert!(s.inventory.slots[2].is_none());
    // nothing left to spend: nothing placed
    assert!(s.play_step(PlayEvent::Place { x: 5, y: 10, z: 5, face: 1, held_item_id: 4 }).is_empty());
    // above the world
    let mut c = PlayState::new(1);
    assert!(c.play_step(PlayEvent::Place { x: 0, y: 255, z: 0, face: 1, held_item_id: 1 }).is_empty());
    assert_eq!(c.play_step(PlayEvent::Place { x: 0, y: 0, z: 0, face: 0, held_item_id: 1 }), vec![]);
    assert_eq!(c.play_step(PlayEvent::Place { x: 0, y: 3, z: 0, face: 2, held_item_id: 1 }).len(), 2);
}

#[test]
fn keep_alive_and_swing() {
    let mut s = PlayState::new(0);
    s.pending_keep_alive = Some(7);
    assert!(s.play_step(PlayEvent::KeepAlive { id: 8 }).is_empty());
    assert!(s.pending_keep_alive.is_none());
    s.pending_keep_alive = Some(7);
    assert_eq!(s.play_step(PlayEvent::KeepAlive { id: 7 }), vec![PlayAction::LatencyMeasured]);
    assert_eq!(s.play_step(PlayEvent::ArmAnimation), vec![PlayAction::Animation]);
}

#[test]
fn joining_steps() {
    let plan = join_plan(5, 1, 2, 20, 47);
    assert_eq!(plan.len(), 6 + 25 + 8);
    assert_eq!(plan[1], JoinStep::JoinGame { entity_id: 5, gamemode: 1, difficulty: 2, max_players: 20 });
    assert_eq!(plan[3], JoinStep::PlayerList { modern: true });
    assert_eq!(plan[6], JoinStep::Chunk { x: -2, z: -2 });
    assert_eq!(plan[7], JoinStep::Chunk { x: -2, z: -1 });
    assert_eq!(plan[30], JoinStep::Chunk { x: 2, z: 2 });
    assert_eq!(plan[38], JoinStep::Weather);
    assert_eq!(join_plan(5, 0, 0, 20, 5)[4], JoinStep::SpawnPosition { modern: false, x: 0, y: 64, z: 0 });
    assert_eq!((abilities_for(0), abilities_for(1), abilities_for(3)), (0, 15, 7));
    let mut s = PlayState::new(0);
    s.inventory.slots[0] = Some(stack(1, 3));
    s.inventory.slots[40] = Some(stack(2, 1));
    let w = join_window(&s.inventory);
    assert_eq!(w.len(), 46);
    assert_eq!(w[0], (1, 3, 0));
    assert_eq!(w[40], (-1, 0, 0));
}

#[test]
fn chat_routes() {
    assert_eq!(chat_route("/help", None), ChatRoute::Command);
    assert_eq!(chat_route("hello", None), ChatRoute::Broadcast);
    let long = "x".repeat(150);
    assert_eq!(chat_route(&long, None), ChatRoute::Ignore);
    assert_eq!(chat_route(&long, Some("fml,forge")), ChatRoute::Broadcast);
    assert_eq!(chat_route(&long, Some("vanilla")), ChatRoute::Ignore);
    assert!(contains_str("fabric-loader", "fabric"));
    assert!(!contains_str("fab", "fabric"));
    assert!(contains_str("abc", ""));
}

#[test]
fn creative_inventory_sets_slots_in_creative_only() {
    let mut survival = PlayState::new(0);
    let ev = PlayEvent::CreativeInventory { slot: 36, item_id: 5, count: 3, damage: 1 };
    assert!(survival.play_step(ev).is_empty());
    assert_eq!(survival.inventory.slots[36], None);
    let mut c = PlayState::new(1);
    assert!(c.play_step(PlayEvent::CreativeInventory { slot: 100, item_id: 310, count: 1, damage: 0 }).is_empty());
    assert_eq!(c.inventory.slots[36], Some(stack(310, 1)));
    assert!(c.play_step(PlayEvent::CreativeInventory { slot: 81, item_id: 4, count: 2, damage: 0 }).is_empty());
    assert_eq!(c.inventory.slots[41], Some(stack(4, 2)));
    assert_eq!(
        c.play_step(PlayEvent::CreativeInventory { slot: 0, item_id: 7, count: 64, damage: 0 }),
        vec![PlayAction::HeldItem { item_id: 7 }]
    );
    assert_eq!(c.held_item, 7);
    assert!(c.play_step(PlayEvent::CreativeInventory { slot: 0, item_id: -1, count: 0, damage: 0 }).len() == 1);
    assert_eq!(c.inventory.slots[0], None);
    assert!(c.play_step(PlayEvent::CreativeInventory { slot: 50, item_id: 7, count: 1, damage: 0 }).is_empty());
}

#[test]
fn clicks_respawns_sneaking_sprinting_and_attacks() {
    let mut s = PlayState::new(0);
    assert_eq!(
        s.play_step(PlayEvent::ClickWindow { window_id: 2, action_number: 9 }),
        vec![PlayAction::ConfirmTransaction { window_id: 2, action_number: 9, accepted: true }]
    );
    assert!(s.play_step(PlayEvent::ClientStatus { action: 0 }).is_empty());
    s.is_dead = true;
    s.food = 3;
    assert_eq!(s.play_step(PlayEvent::ClientStatus { action: 0 }), vec![PlayAction::Respawn { gamemode: 0 }]);
    assert!(!s.is_dead);
    assert_eq!(s.food, 20);
    assert_eq!(
        s.play_step(PlayEvent::EntityAction { action: 0 }),
        vec![PlayAction::FlagsChanged { sneaking: true, sprinting: false }]
    );
    assert_eq!(
        s.play_step(PlayEvent::EntityAction { action: 3 }),
        vec![PlayAction::FlagsChanged { sneaking: true, sprinting: true }]
    );
    s.food = 6;
    assert_eq!(s.play_step(PlayEvent::EntityAction { action: 3 }), vec![PlayAction::DenySprint]);
    assert_eq!(
        s.play_step(PlayEvent::EntityAction { action: 4 }),
        vec![PlayAction::FlagsChanged { sneaking: true, sprinting: false }]
    );
    assert!(s.play_step(PlayEvent::EntityAction { action: 2 }).is_empty());
    assert_eq!(
        s.play_step(PlayEvent::UseEntity { target: 12, action: 1 }),
        vec![PlayAction::Attack { target: 12, reach: 3 }]
    );
    assert!(s.play_step(PlayEvent::UseEntity { target: 12, action: 0 }).is_empty());
    let mut c = PlayState::new(1);
    assert_eq!(c.play_step(PlayEvent::UseEntity { target: 1, action: 1 }), vec![PlayAction::Attack { target: 1, reach: 5 }]);
    let mut spectator = PlayState::new(3);
    assert!(spectator.play_step(PlayEvent::UseEntity { target: 1, action: 1 }).is_empty());
}
