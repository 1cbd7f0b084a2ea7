//! Furnaces: their window and their smelting, tick by tick.

use vstd::prelude::*;
use crate::protocol::packets::play::inventory::{Inventory, Slot};
use crate::tile_window::{
    insert_into_inventory, insert_stack, item_total, law_insert_stack_conserves, lemma_total_update, slot_count, slot_tuple,
    slot_view,
};

verus! {

/// A furnace: what it smelts, what it burns, what it has made, how long the
/// fuel burning now lasts (and lasted at first), how far the item smelting
/// now has come, and how many players have its window open.
pub struct Furnace {
    pub input: Option<Slot>,
    pub fuel: Option<Slot>,
    pub output: Option<Slot>,
    pub burn_ticks: i32,
    pub burn_ticks_total: i32,
    pub cook_ticks: i32,
    pub viewers: u8,
}

/// The input, fuel and output slots.
pub type FurnaceSlots = (Option<Slot>, Option<Slot>, Option<Slot>);

/// The slots of a furnace.
pub open spec fn furnace_slots(f: Furnace) -> FurnaceSlots {
    (f.input, f.fuel, f.output)
}

/// Slot `i` of a furnace: 0 the input, 1 the fuel, 2 the output.
pub open spec fn furnace_part(f: FurnaceSlots, i: int) -> Option<Slot> {
    if i == 0 {
        f.0
    } else if i == 1 {
        f.1
    } else {
        f.2
    }
}

/// The slots with slot `i` replaced.
pub open spec fn with_part(f: FurnaceSlots, i: int, v: Option<Slot>) -> FurnaceSlots {
    if i == 0 {
        (v, f.1, f.2)
    } else if i == 1 {
        (f.0, v, f.2)
    } else {
        (f.0, f.1, v)
    }
}

/// Where a window slot of an open furnace is: in the furnace (slots 0 to
/// 2), the main inventory (3 to 29) or the hotbar (30 to 38).
pub open spec fn furnace_slot(slot: i16) -> Option<(bool, int)> {
    if 0 <= slot <= 2 {
        Some((true, slot as int))
    } else if 3 <= slot <= 29 {
        Some((false, slot - 3 + 9))
    } else if 30 <= slot <= 38 {
        Some((false, slot - 30))
    } else {
        None
    }
}

/// A click in a furnace window: the furnace's slots, the inventory and the
/// cursor after it, or `None` for a slot outside the window.
///
/// A plain click (mode 0) swaps the cursor with the clicked slot, but on the
/// output slot the output goes to the cursor and what the cursor held is
/// gone. A shift click (mode 1) moves a furnace slot's stack into the
/// inventory, keeping there what does not fit; it moves an inventory stack
/// into the empty fuel slot when `is_fuel` says it burns, else into the empty
/// input slot, else leaves it. Other modes change nothing.
pub open spec fn furnace_clicked(
    f: FurnaceSlots,
    inv: Seq<Option<Slot>>,
    cursor: Option<Slot>,
    slot: i16,
    mode: u8,
    is_fuel: bool,
) -> Option<(FurnaceSlots, Seq<Option<Slot>>, Option<Slot>)> {
    match furnace_slot(slot) {
        None => None,
        Some((in_furnace, idx)) => Some(
            if mode == 0 {
                if in_furnace {
                    if idx == 2 {
                        (with_part(f, 2, None), inv, f.2)
                    } else {
                        (with_part(f, idx, cursor), inv, furnace_part(f, idx))
                    }
                } else {
                    (f, inv.update(idx, cursor), inv[idx])
                }
            } else if mode == 1 {
                if in_furnace {
                    match furnace_part(f, idx) {
                        None => (f, inv, cursor),
                        Some(stack) => {
                            let (inv2, left) = insert_stack(inv, 36, stack);
                            (with_part(f, idx, left), inv2, cursor)
                        },
                    }
                } else {
                    match inv[idx] {
                        None => (f, inv, cursor),
                        Some(stack) => if is_fuel && f.1 is None {
                            (with_part(f, 1, Some(stack)), inv.update(idx, None), cursor)
                        } else if f.0 is None {
                            (with_part(f, 0, Some(stack)), inv.update(idx, None), cursor)
                        } else {
                            (f, inv, cursor)
                        },
                    }
                }
            } else {
                (f, inv, cursor)
            },
        ),
    }
}

/// The three furnace slots as the protocol sends them.
pub open spec fn furnace_view(f: FurnaceSlots) -> Seq<(i16, u8, i16)> {
    seq![slot_view(f.0), slot_view(f.1), slot_view(f.2)]
}

fn resolve_furnace_slot(slot: i16) -> (r: Option<(bool, usize)>)
    ensures
        r matches Some((c, i)) ==> furnace_slot(slot) == Some((c, i as int)) && i < 36,
        r is None ==> furnace_slot(slot) is None,
{
    if 0 <= slot && slot <= 2 {
        Some((true, slot as usize))
    } else if 3 <= slot && slot <= 29 {
        Some((false, (slot - 3 + 9) as usize))
    } else if 30 <= slot && slot <= 38 {
        Some((false, (slot - 30) as usize))
    } else {
        None
    }
}

impl Furnace {
    /// An unlit, empty furnace with no viewers.
    pub fn new() -> (r: Self)
        ensures
            furnace_slots(r) == (None::<Slot>, None::<Slot>, None::<Slot>),
            r.burn_ticks == 0 && r.burn_ticks_total == 0 && r.cook_ticks == 0 && r.viewers == 0,
    {
        Furnace { input: None, fuel: None, output: None, burn_ticks: 0, burn_ticks_total: 0, cook_ticks: 0, viewers: 0 }
    }

    fn take_part(&mut self, idx: usize) -> (r: Option<Slot>)
        requires
            idx < 3,
        ensures
            r == furnace_part(furnace_slots(*old(self)), idx as int),
            furnace_slots(*final(self)) == with_part(furnace_slots(*old(self)), idx as int, None),
            final(self).burn_ticks == old(self).burn_ticks,
            final(self).burn_ticks_total == old(self).burn_ticks_total,
            final(self).cook_ticks == old(self).cook_ticks,
            final(self).viewers == old(self).viewers,
    {
        if idx == 0 {
            let it = self.input;
            self.input = None;
            it
        } else if idx == 1 {
            let it = self.fuel;
            self.fuel = None;
            it
        } else {
            let it = self.output;
            self.output = None;
            it
        }
    }

    fn put_part(&mut self, idx: usize, v: Option<Slot>)
        requires
            idx < 3,
        ensures
            furnace_slots(*final(self)) == with_part(furnace_slots(*old(self)), idx as int, v),
            final(self).burn_ticks == old(self).burn_ticks,
            final(self).burn_ticks_total == old(self).burn_ticks_total,
            final(self).cook_ticks == old(self).cook_ticks,
            final(self).viewers == old(self).viewers,
    {
        if idx == 0 {
            self.input = v;
        } else if idx == 1 {
            self.fuel = v;
        } else {
            self.output = v;
        }
    }

    /// A click in this furnace's window, as `furnace_clicked` says, with
    /// `is_fuel` telling whether the stack in the clicked inventory slot
    /// burns. Gives back the furnace's three slots after, or `None` for a
    /// slot outside the window; its timers and viewers stay.
    pub fn click(&mut self, inventory: &mut Inventory, cursor: &mut Option<Slot>, slot: i16, mode: u8, is_fuel: bool) -> (r:
        Option<Vec<(i16, u8, i16)>>)
        ensures
            match furnace_clicked(furnace_slots(*old(self)), old(inventory).slots@, *old(cursor), slot, mode, is_fuel) {
                None => r is None && *final(self) == *old(self) && final(inventory).slots@ == old(inventory).slots@
                    && *final(cursor) == *old(cursor),
                Some((f, inv, c)) => r matches Some(v) && v@ == furnace_view(f) && furnace_slots(*final(self)) == f
                    && final(inventory).slots@ == inv && *final(cursor) == c,
            },
            final(self).burn_ticks == old(self).burn_ticks,
            final(self).burn_ticks_total == old(self).burn_ticks_total,
            final(self).cook_ticks == old(self).cook_ticks,
            final(self).viewers == old(self).viewers,
    {
        let (in_furnace, idx) = match resolve_furnace_slot(slot) {
            Some(p) => p,
            None => {
                return None;
            },
        };
        if mode == 0 {
            if in_furnace {
                let slot_item = self.take_part(idx);
                if idx == 2 {
                    *cursor = slot_item;
                } else {
                    self.put_part(idx, *cursor);
                    *cursor = slot_item;
                }
            } else {
                let slot_item = inventory.slots[idx];
                inventory.slots[idx] = *cursor;
                *cursor = slot_item;
            }
        } else if mode == 1 {
            if in_furnace {
                let moving = self.take_part(idx);
                match moving {
                    Some(stack) => {
                        let leftover = insert_into_inventory(inventory, stack);
                        self.put_part(idx, leftover);
                    },
                    None => {
                        self.put_part(idx, None);
                    },
                }
            } else {
                match inventory.slots[idx] {
                    Some(stack) => {
                        if is_fuel && self.fuel.is_none() {
                            self.fuel = Some(stack);
                            inventory.slots[idx] = None;
                        } else if self.input.is_none() {
                            self.input = Some(stack);
                            inventory.slots[idx] = None;
                        }
                    },
                    None => {},
                }
            }
        }
        let mut v: Vec<(i16, u8, i16)> = Vec::new();
        v.push(slot_tuple(&self.input));
        v.push(slot_tuple(&self.fuel));
        v.push(slot_tuple(&self.output));
        assert(v@ =~= furnace_view(furnace_slots(*self)));
        Some(v)
    }
}

/// Whether the furnace can smelt its input this tick: `smelt` is what that
/// input smelts into, and the output slot is empty or holds fewer than 64
/// of it.
pub open spec fn can_smelt(f: Furnace, smelt: Option<(i16, i16)>) -> bool {
    &&& f.input is Some
    &&& smelt matches Some((rid, rmeta))
    &&& match f.output {
        None => true,
        Some(o) => o.item_id == rid && o.metadata == rmeta && o.count < 64,
    }
}

/// A stack with one item fewer, or nothing when it held one.
pub open spec fn one_fewer(s: Slot) -> Option<Slot> {
    if s.count == 1 {
        None
    } else {
        Some(Slot { count: (s.count - 1) as u8, ..s })
    }
}

/// A furnace that has burnt out and can smelt lights its next fuel item,
/// when `burn` says how long that burns.
pub open spec fn refuelled(f: Furnace, smelt: Option<(i16, i16)>, burn: Option<i32>) -> Furnace {
    if f.burn_ticks == 0 && can_smelt(f, smelt) && f.fuel is Some && burn is Some {
        Furnace { burn_ticks: burn.unwrap(), burn_ticks_total: burn.unwrap(), fuel: one_fewer(f.fuel.unwrap()), ..f }
    } else {
        f
    }
}

/// One tick of burning and smelting after refuelling, where `can` says
/// whether the furnace can smelt: while it burns, it burns one tick less and
/// either advances the smelting, turning one input item into one more
/// output item when it reaches 200, or, unable to smelt, loses two ticks of
/// progress; a cold furnace loses two ticks of progress. Also whether
/// anything was shown to change.
pub open spec fn cooked(f: Furnace, can: bool, smelt: Option<(i16, i16)>) -> (Furnace, bool) {
    if f.burn_ticks > 0 {
        let g = Furnace { burn_ticks: (f.burn_ticks - 1) as i32, ..f };
        if can {
            if f.cook_ticks + 1 >= 200 {
                let (rid, rmeta) = smelt.unwrap();
                let out = match f.output {
                    Some(o) => Some(Slot { count: (o.count + 1) as u8, ..o }),
                    None => Some(Slot { item_id: rid, count: 1, metadata: rmeta }),
                };
                (Furnace { cook_ticks: 0, output: out, input: one_fewer(f.input.unwrap()), ..g }, true)
            } else {
                (Furnace { cook_ticks: (f.cook_ticks + 1) as i32, ..g }, true)
            }
        } else {
            (Furnace { cook_ticks: if f.cook_ticks - 2 < 0 { 0 } else { (f.cook_ticks - 2) as i32 }, ..g }, true)
        }
    } else if f.cook_ticks > 0 {
        (Furnace { cook_ticks: if f.cook_ticks - 2 < 0 { 0 } else { (f.cook_ticks - 2) as i32 }, ..f }, true)
    } else {
        (f, false)
    }
}

/// One tick of a furnace: the furnace after it, the block id it turns into
/// when it lights (62) or goes out (61), and whether its window should be
/// updated.
pub open spec fn furnace_ticked(f: Furnace, smelt: Option<(i16, i16)>, burn: Option<i32>) -> (Furnace, Option<u8>, bool) {
    let (g, changed) = cooked(refuelled(f, smelt, burn), can_smelt(f, smelt), smelt);
    let lit = if (f.burn_ticks > 0) != (g.burn_ticks > 0) {
        Some(if g.burn_ticks > 0 { 62u8 } else { 61u8 })
    } else {
        None
    };
    (g, lit, changed)
}

/// The ticks on which no count or timer leaves its range: no empty fuel or
/// input stack is used up, and the smelting progress neither passes the
/// largest `i32` nor goes below the smallest.
pub open spec fn tick_in_range(f: Furnace, smelt: Option<(i16, i16)>, burn: Option<i32>) -> bool {
    let r = refuelled(f, smelt, burn);
    &&& (f.burn_ticks == 0 && can_smelt(f, smelt) && burn is Some && f.fuel is Some) ==> f.fuel.unwrap().count > 0
    &&& (r.burn_ticks > 0 && can_smelt(f, smelt)) ==> r.cook_ticks < i32::MAX && (r.cook_ticks + 1 >= 200
        ==> f.input.unwrap().count > 0)
    &&& (r.burn_ticks > 0 && !can_smelt(f, smelt)) ==> r.cook_ticks >= i32::MIN + 2
}

impl Furnace {
    /// One tick of this furnace, as `furnace_ticked` says, where `smelt` is
    /// what its input smelts into and `burn` how long its fuel burns (`None`
    /// where they do not smelt or burn).
    pub fn tick(&mut self, smelt: Option<(i16, i16)>, burn: Option<i32>) -> (r: (Option<u8>, bool))
        requires
            tick_in_range(*old(self), smelt, burn),
        ensures
            furnace_ticked(*old(self), smelt, burn) == (*final(self), r.0, r.1),
    {
        let was_burning = self.burn_ticks > 0;
        let can = match (self.input, smelt) {
            (Some(_), Some((rid, rmeta))) => match self.output {
                None => true,
                Some(o) => o.item_id == rid && o.metadata == rmeta && o.count < 64,
            },
            _ => false,
        };
        if self.burn_ticks == 0 && can {
            match (self.fuel, burn) {
                (Some(fl), Some(b)) => {
                    self.burn_ticks = b;
                    self.burn_ticks_total = b;
                    let n = fl.count - 1;
                    self.fuel = if n == 0 {
                        None
                    } else {
                        Some(Slot { item_id: fl.item_id, count: n, metadata: fl.metadata })
                    };
                },
                _ => {},
            }
        }
        let mut changed = false;
        if self.burn_ticks > 0 {
            self.burn_ticks = self.burn_ticks - 1;
            if can {
                self.cook_ticks = self.cook_ticks + 1;
                if self.cook_ticks >= 200 {
                    self.cook_ticks = 0;
                    match smelt {
                        Some((rid, rmeta)) => {
                            self.output = match self.output {
                                Some(o) => Some(Slot { item_id: o.item_id, count: o.count + 1, metadata: o.metadata }),
                                None => Some(Slot { item_id: rid, count: 1, metadata: rmeta }),
                            };
                        },
                        None => {},
                    }
                    match self.input {
                        Some(inp) => {
                            let n = inp.count - 1;
                            self.input = if n == 0 {
                                None
                            } else {
                                Some(Slot { item_id: inp.item_id, count: n, metadata: inp.metadata })
                            };
                        },
                        None => {},
                    }
                }
            } else {
                let c = self.cook_ticks - 2;
                self.cook_ticks = if c < 0 { 0 } else { c };
            }
            changed = true;
        } else if self.cook_ticks > 0 {
            let c = self.cook_ticks - 2;
            self.cook_ticks = if c < 0 { 0 } else { c };
            changed = true;
        }
        let now_burning = self.burn_ticks > 0;
        let lit = if was_burning != now_burning {
            Some(if now_burning { 62u8 } else { 61u8 })
        } else {
            None
        };
        (lit, changed)
    }
}

/// How many items a slot holds.
pub open spec fn stack_count(s: Option<Slot>) -> int {
    match s {
        Some(x) => x.count as int,
        None => 0,
    }
}

/// Smelting turns input items into output items one for one: a tick leaves
/// as many items in the input and output slots together as there were.
pub proof fn law_tick_conserves_smelted_items(f: Furnace, smelt: Option<(i16, i16)>, burn: Option<i32>)
    requires
        tick_in_range(f, smelt, burn),
    ensures
        stack_count(furnace_ticked(f, smelt, burn).0.input) + stack_count(furnace_ticked(f, smelt, burn).0.output)
            == stack_count(f.input) + stack_count(f.output),
{
}

/// Smelting progress between 0 and 199 stays between 0 and 199, and a
/// tick uses at most one fuel item.
pub proof fn law_tick_keeps_progress_in_range(f: Furnace, smelt: Option<(i16, i16)>, burn: Option<i32>)
    requires
        tick_in_range(f, smelt, burn),
        0 <= f.cook_ticks < 200,
    ensures
        0 <= furnace_ticked(f, smelt, burn).0.cook_ticks < 200,
        stack_count(f.fuel) - 1 <= stack_count(furnace_ticked(f, smelt, burn).0.fuel) <= stack_count(f.fuel),
{
}

/// How many of item (`id`, `meta`) the three furnace slots hold.
pub open spec fn furnace_total(f: FurnaceSlots, id: i16, meta: i16) -> int {
    slot_count(f.0, id, meta) + slot_count(f.1, id, meta) + slot_count(f.2, id, meta)
}

/// A plain click (mode 0) on the input or fuel slot, or on an inventory
/// slot, swaps the cursor with that slot and changes nothing else.
pub proof fn law_furnace_plain_click_swaps(
    f: FurnaceSlots,
    inv: Seq<Option<Slot>>,
    cursor: Option<Slot>,
    slot: i16,
    is_fuel: bool,
)
    requires
        furnace_slot(slot) is Some,
        slot != 2,
    ensures
        ({
            let (f2, inv2, c2) = furnace_clicked(f, inv, cursor, slot, 0, is_fuel).unwrap();
            &&& slot == 0 ==> c2 == f.0 && f2 == (cursor, f.1, f.2) && inv2 == inv
            &&& slot == 1 ==> c2 == f.1 && f2 == (f.0, cursor, f.2) && inv2 == inv
            &&& slot > 2 ==> ({
                let i = furnace_slot(slot).unwrap().1;
                c2 == inv[i] && inv2 == inv.update(i, cursor) && f2 == f
            })
        }),
{
}

/// No click makes or destroys items: for every item, the furnace, the
/// inventory and the cursor hold together what they held before, except
/// that a plain click on the output slot puts the output on the cursor and
/// what the cursor held is gone.
pub proof fn law_furnace_click_conserves(
    f: FurnaceSlots,
    inv: Seq<Option<Slot>>,
    cursor: Option<Slot>,
    slot: i16,
    mode: u8,
    is_fuel: bool,
    id: i16,
    meta: i16,
)
    requires
        inv.len() >= 36,
    ensures
        furnace_clicked(f, inv, cursor, slot, mode, is_fuel) matches Some((f2, inv2, c2)) ==> furnace_total(f2, id, meta)
            + item_total(inv2, id, meta) + slot_count(c2, id, meta) == furnace_total(f, id, meta) + item_total(
            inv,
            id,
            meta,
        ) + slot_count(cursor, id, meta) - (if mode == 0 && slot == 2 {
            slot_count(cursor, id, meta)
        } else {
            0
        }),
{
    match furnace_slot(slot) {
        None => {},
        Some((in_furnace, idx)) => {
            if mode == 0 {
                if !in_furnace {
                    lemma_total_update(inv, idx, cursor, id, meta);
                }
            } else if mode == 1 {
                if in_furnace {
                    match furnace_part(f, idx) {
                        None => {},
                        Some(stack) => {
                            law_insert_stack_conserves(inv, 36, stack, id, meta);
                        },
                    }
                } else {
                    lemma_total_update(inv, idx, None, id, meta);
                }
            }
        },
    }
}


/// A plain click on the output slot takes the output onto the cursor and
/// empties the output slot; a shift click on an inventory stack puts it in
/// the empty fuel slot when it burns, else in the empty input slot, and
/// else leaves everything as it was.
pub proof fn law_furnace_output_and_shift_into_furnace(
    f: FurnaceSlots,
    inv: Seq<Option<Slot>>,
    cursor: Option<Slot>,
    slot: i16,
    is_fuel: bool,
)
    requires
        furnace_slot(slot) is Some,
    ensures
        slot == 2 ==> furnace_clicked(f, inv, cursor, slot, 0, is_fuel) == Some(((f.0, f.1, None::<Slot>), inv, f.2)),
        slot > 2 ==> ({
            let i = furnace_slot(slot).unwrap().1;
            let (f2, inv2, c2) = furnace_clicked(f, inv, cursor, slot, 1, is_fuel).unwrap();
            &&& c2 == cursor
            &&& match inv[i] {
                None => f2 == f && inv2 == inv,
                Some(s) => if is_fuel && f.1 is None {
                    f2 == (f.0, Some(s), f.2) && inv2 == inv.update(i, None)
                } else if f.0 is None {
                    f2 == (Some(s), f.1, f.2) && inv2 == inv.update(i, None)
                } else {
                    f2 == f && inv2 == inv
                },
            }
        }),
{
}

} // verus!
