use coral::protocol::packets::play::inventory::{Inventory, Slot};
use coral::world::time::{world_clock_tick, ClockAction};
use coral::play::{block_break_sound, material_meets, ping_to_bar};
use coral::world::blocks::ToolMaterial;

#[test]
fn ping_bars() {
    assert_eq!(ping_to_bar(-5), 5);
    assert_eq!(ping_to_bar(0), 5);
    assert_eq!(ping_to_bar(1), 0);
    assert_eq!(ping_to_bar(149), 0);
    assert_eq!(ping_to_bar(150), 1);
    assert_eq!(ping_to_bar(599), 2);
    assert_eq!(ping_to_bar(999), 3);
    assert_eq!(ping_to_bar(1000), 4);
}

#[test]
fn tool_materials() {
    assert!(material_meets(ToolMaterial::Iron, ToolMaterial::Stone));
    assert!(material_meets(ToolMaterial::Gold, ToolMaterial::Wood));
    assert!(!material_meets(ToolMaterial::Gold, ToolMaterial::Stone));
    assert!(material_meets(ToolMaterial::Wood, ToolMaterial::Any));
    assert!(!material_meets(ToolMaterial::Iron, ToolMaterial::Diamond));
}

#[test]
fn break_sounds() {
    assert_eq!(block_break_sound(2), "dig.grass");
    assert_eq!(block_break_sound(15), "dig.stone");
    assert_eq!(block_break_sound(54), "dig.wood");
    assert_eq!(block_break_sound(102), "dig.glass");
    assert_eq!(block_break_sound(80), "dig.snow");
    assert_eq!(block_break_sound(200), "dig.stone");
}

#[test]
fn world_clock() {
    assert_eq!(world_clock_tick(0, 0, 0, 0), (1, 1, ClockAction::Nothing));
    assert_eq!(world_clock_tick(19, 100, 0, 0), (20, 101, ClockAction::Send));
    assert_eq!(world_clock_tick(5, 23999, 0, 0), (6, 0, ClockAction::Nothing));
    // everybody asleep at night: morning at once
    assert_eq!(world_clock_tick(7, 13000, 2, 2), (8, 0, ClockAction::WakeAndSend));
    // not everybody asleep: the night goes on
    assert_eq!(world_clock_tick(7, 13000, 2, 1), (8, 13001, ClockAction::Nothing));
    // in bed by day: nothing happens
    assert_eq!(world_clock_tick(7, 1000, 1, 1), (8, 1001, ClockAction::Nothing));
    assert_eq!(world_clock_tick(7, 23459, 1, 1).2, ClockAction::WakeAndSend);
    assert_eq!(world_clock_tick(7, 23460, 1, 1).1, 23461);
}

#[test]
fn arrows_and_wear() {
    use_inventory();
}

fn use_inventory() {
    let mut inv = Inventory::new();
    inv.slots[3] = Some(Slot { item_id: 262, count: 2, metadata: 0 });
    inv.slots[7] = Some(Slot { item_id: 262, count: 5, metadata: 0 });
    inv.consume_arrow_from_inventory();
    assert_eq!(inv.slots[3].unwrap().count, 1);
    inv.consume_arrow_from_inventory();
    assert!(inv.slots[3].is_none());
    assert_eq!(inv.slots[7].unwrap().count, 5);
    let mut empty = Inventory::new();
    empty.consume_arrow_from_inventory();
    assert!(empty.slots.iter().all(|s| s.is_none()));

    inv.slots[0] = Some(Slot { item_id: 257, count: 1, metadata: 248 });
    assert!(!inv.damage_item(0, 1, Some(251)));
    assert_eq!(inv.slots[0].unwrap().metadata, 249);
    assert!(!inv.damage_item(0, 1, None));
    assert!(inv.damage_item(0, 2, Some(251)));
    assert!(inv.slots[0].is_none());
    assert!(!inv.damage_item(0, 2, Some(251)));
}
