use coral::furnace::Furnace;
use coral::protocol::packets::play::inventory::{Inventory, Slot};
use coral::tile_window::{chest_click, next_window_id, window_slots, WindowKind, WindowTile};

fn stack(item_id: i16, count: u8) -> Slot {
    Slot { item_id, count, metadata: 0 }
}

fn loaded_furnace() -> Furnace {
    let mut f = Furnace::new();
    f.input = Some(stack(15, 2));
    f.fuel = Some(stack(263, 1));
    f
}

#[test]
fn furnace_lights_and_smelts_one_item_in_200_ticks() {
    let mut f = loaded_furnace();
    let (lit, changed) = f.tick(Some((265, 0)), Some(1600));
    assert_eq!(lit, Some(62));
    assert!(changed);
    assert_eq!(f.burn_ticks, 1599);
    assert_eq!(f.burn_ticks_total, 1600);
    assert_eq!(f.cook_ticks, 1);
    assert!(f.fuel.is_none());
    for _ in 1..199 {
        let (lit, _) = f.tick(Some((265, 0)), None);
        assert_eq!(lit, None);
    }
    assert_eq!(f.cook_ticks, 199);
    assert!(f.output.is_none());
    f.tick(Some((265, 0)), None);
    assert_eq!(f.cook_ticks, 0);
    assert_eq!(f.output, Some(stack(265, 1)));
    assert_eq!(f.input, Some(stack(15, 1)));
    assert_eq!(f.burn_ticks, 1400);
}

#[test]
fn cold_furnace_loses_progress() {
    let mut f = Furnace::new();
    f.cook_ticks = 5;
    assert_eq!(f.tick(None, None), (None, true));
    assert_eq!(f.cook_ticks, 3);
    f.cook_ticks = 1;
    f.tick(None, None);
    assert_eq!(f.cook_ticks, 0);
    assert_eq!(f.tick(None, None), (None, false));
}

#[test]
fn furnace_goes_out_when_its_fuel_ends() {
    let mut f = Furnace::new();
    f.burn_ticks = 1;
    f.cook_ticks = 10;
    assert_eq!(f.tick(None, None), (Some(61), true));
    assert_eq!(f.burn_ticks, 0);
    assert_eq!(f.cook_ticks, 8);
}

#[test]
fn furnace_does_not_smelt_onto_another_output() {
    let mut f = loaded_furnace();
    f.output = Some(stack(1, 5));
    assert_eq!(f.tick(Some((265, 0)), Some(1600)), (None, false));
    assert_eq!(f.fuel, Some(stack(263, 1)));
}

#[test]
fn furnace_window_clicks() {
    let mut f = Furnace::new();
    let mut inv = Inventory::new();
    inv.slots[0] = Some(stack(263, 4));
    inv.slots[1] = Some(stack(15, 8));
    let mut cursor = None;
    // shift-click coal from the hotbar: it burns, so it goes to the fuel slot
    let v = f.click(&mut inv, &mut cursor, 30, 1, true).unwrap();
    assert_eq!(v, vec![(-1, 0, 0), (263, 4, 0), (-1, 0, 0)]);
    assert!(inv.slots[0].is_none());
    // shift-click ore: it does not burn, so it goes to the input slot
    let v = f.click(&mut inv, &mut cursor, 31, 1, false).unwrap();
    assert_eq!(v[0], (15, 8, 0));
    // clicking the output with something held takes the output and drops what was held
    f.output = Some(stack(265, 3));
    cursor = Some(stack(4, 1));
    let v = f.click(&mut inv, &mut cursor, 2, 0, false).unwrap();
    assert_eq!(v[2], (-1, 0, 0));
    assert_eq!(cursor, Some(stack(265, 3)));
    // shift-click the input back into the inventory
    f.click(&mut inv, &mut cursor, 0, 1, false).unwrap();
    assert!(f.input.is_none());
    assert_eq!(inv.slots[0], Some(stack(15, 8)));
    assert!(f.click(&mut inv, &mut cursor, 39, 0, false).is_none());
}

#[test]
fn window_open_and_close_count_viewers() {
    let mut chest = WindowTile::empty_chest();
    assert!(chest.has_window());
    let d = chest.open().unwrap();
    assert!(d.kind == WindowKind::Chest);
    assert_eq!(d.slot_count, 27);
    assert_eq!(d.title, "Chest");
    assert_eq!(d.container_slots.len(), 27);
    chest.open().unwrap();
    assert_eq!(chest.close(), 1);
    assert_eq!(chest.close(), 0);
    assert_eq!(chest.close(), 0);

    let mut furnace = WindowTile::Furnace(Furnace::new());
    let d = furnace.open().unwrap();
    assert!(d.kind == WindowKind::Furnace);
    assert_eq!(d.title, "Furnace");
    assert_eq!(d.container_slots, vec![(-1, 0, 0); 3]);

    let mut sign = WindowTile::Sign { lines: [String::new(), String::new(), String::new(), String::new()] };
    assert!(!sign.has_window());
    assert!(sign.open().is_none());
    assert_eq!(sign.close(), 0);
    let mut inv = Inventory::new();
    let mut cursor = None;
    assert!(sign.click(&mut inv, &mut cursor, 0, 0, false).is_none());
}

#[test]
fn chest_window_other_modes_resend_without_change() {
    let mut chest: Vec<Option<Slot>> = vec![None; 27];
    let mut inv = Inventory::new();
    let mut cursor = None;
    let v = chest_click(&mut chest, &mut inv, &mut cursor, 99, 4).unwrap();
    assert_eq!(v.len(), 27);
    assert!(chest_click(&mut chest, &mut inv, &mut cursor, 99, 1).is_none());
}

#[test]
fn window_ids_and_slots() {
    assert_eq!(next_window_id(0), 1);
    assert_eq!(next_window_id(5), 6);
    assert_eq!(next_window_id(255), 1);
    let mut inv = Inventory::new();
    inv.slots[0] = Some(stack(1, 1));
    inv.slots[9] = Some(stack(2, 1));
    let all = window_slots(vec![(7, 1, 0)], &inv);
    assert_eq!(all.len(), 1 + 36);
    assert_eq!(all[1], (2, 1, 0));
    assert_eq!(all[1 + 27], (1, 1, 0));
}
