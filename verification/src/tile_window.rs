//! Moving item stacks between a chest, the player's inventory and the
//! cursor.

use vstd::prelude::*;
use crate::furnace::{furnace_clicked, furnace_slots, furnace_view, Furnace};
use crate::protocol::packets::play::inventory::{Inventory, Slot};

verus! {

/// A slot as the protocol sends it: item id, count and metadata, or -1, 0,
/// 0 when empty.
pub open spec fn slot_view(item: Option<Slot>) -> (i16, u8, i16) {
    match item {
        Some(s) => (s.item_id, s.count, s.metadata),
        None => (-1i16, 0u8, 0i16),
    }
}

/// The protocol view of a slot.
pub fn slot_tuple(item: &Option<Slot>) -> (r: (i16, u8, i16))
    ensures
        r == slot_view(*item),
{
    match item {
        Some(s) => (s.item_id, s.count, s.metadata),
        None => (-1, 0, 0),
    }
}

/// `stack` merged into the stacks of the same item among slots `k` to
/// `limit`, in order, each filled up to 64: the slots after, and how many
/// items are left, `None` once a merge leaves none (merging stops there).
pub open spec fn merge_into(slots: Seq<Option<Slot>>, limit: int, stack: Slot, k: int) -> (Seq<Option<Slot>>, Option<u8>)
    decreases limit - k,
{
    if k >= limit || k < 0 || k >= slots.len() {
        (slots, Some(stack.count))
    } else {
        match slots[k] {
            Some(s) => if s.item_id == stack.item_id && s.metadata == stack.metadata && s.count < 64 {
                let space = 64 - s.count;
                let moved = if space < stack.count {
                    space
                } else {
                    stack.count as int
                };
                let after = slots.update(k, Some(Slot { count: (s.count + moved) as u8, ..s }));
                let left = (stack.count - moved) as u8;
                if left == 0 {
                    (after, None)
                } else {
                    merge_into(after, limit, Slot { count: left, ..stack }, k + 1)
                }
            } else {
                merge_into(slots, limit, stack, k + 1)
            },
            None => merge_into(slots, limit, stack, k + 1),
        }
    }
}

/// The first empty slot from `k` on, below `limit`.
pub open spec fn first_empty(slots: Seq<Option<Slot>>, limit: int, k: int) -> Option<int>
    decreases limit - k,
{
    if k >= limit || k < 0 || k >= slots.len() {
        None
    } else if slots[k] is None {
        Some(k)
    } else {
        first_empty(slots, limit, k + 1)
    }
}

/// Inserting a stack into the first `limit` slots: merged into stacks of
/// the same item, then what is left put in the first empty slot; the slots
/// after, and what could not be placed.
pub open spec fn insert_stack(slots: Seq<Option<Slot>>, limit: int, stack: Slot) -> (Seq<Option<Slot>>, Option<Slot>) {
    let (merged, left) = merge_into(slots, limit, stack, 0);
    match left {
        None => (merged, None),
        Some(n) => {
            let rest = Slot { count: n, ..stack };
            match first_empty(merged, limit, 0) {
                Some(i) => (merged.update(i, Some(rest)), None),
                None => (merged, Some(rest)),
            }
        },
    }
}

proof fn lemma_merge_len(slots: Seq<Option<Slot>>, limit: int, stack: Slot, k: int)
    ensures
        merge_into(slots, limit, stack, k).0.len() == slots.len(),
    decreases limit - k,
{
    if !(k >= limit || k < 0 || k >= slots.len()) {
        match slots[k] {
            Some(s) => if s.item_id == stack.item_id && s.metadata == stack.metadata && s.count < 64 {
                let space = 64 - s.count;
                let moved = if space < stack.count {
                    space
                } else {
                    stack.count as int
                };
                let after = slots.update(k, Some(Slot { count: (s.count + moved) as u8, ..s }));
                let left = (stack.count - moved) as u8;
                if left != 0 {
                    lemma_merge_len(after, limit, Slot { count: left, ..stack }, k + 1);
                }
            } else {
                lemma_merge_len(slots, limit, stack, k + 1);
            },
            None => lemma_merge_len(slots, limit, stack, k + 1),
        }
    }
}

proof fn lemma_first_empty_range(slots: Seq<Option<Slot>>, limit: int, k: int)
    ensures
        first_empty(slots, limit, k) matches Some(i) ==> 0 <= k <= i < slots.len() && i < limit,
    decreases limit - k,
{
    if !(k >= limit || k < 0 || k >= slots.len()) && slots[k] is Some {
        lemma_first_empty_range(slots, limit, k + 1);
    }
}

proof fn lemma_insert_len(slots: Seq<Option<Slot>>, limit: int, stack: Slot)
    ensures
        insert_stack(slots, limit, stack).0.len() == slots.len(),
{
    lemma_merge_len(slots, limit, stack, 0);
    lemma_first_empty_range(merge_into(slots, limit, stack, 0).0, limit, 0);
}

/// How many of item (`id`, `meta`) a slot holds.
pub open spec fn slot_count(s: Option<Slot>, id: i16, meta: i16) -> int {
    match s {
        Some(x) => if x.item_id == id && x.metadata == meta {
            x.count as int
        } else {
            0
        },
        None => 0,
    }
}

/// How many of item (`id`, `meta`) some slots hold together.
pub open spec fn item_total(slots: Seq<Option<Slot>>, id: i16, meta: i16) -> int
    decreases slots.len(),
{
    if slots.len() == 0 {
        0
    } else {
        item_total(slots.drop_last(), id, meta) + slot_count(slots.last(), id, meta)
    }
}

pub proof fn lemma_total_update(slots: Seq<Option<Slot>>, k: int, v: Option<Slot>, id: i16, meta: i16)
    requires
        0 <= k < slots.len(),
    ensures
        item_total(slots.update(k, v), id, meta) == item_total(slots, id, meta) - slot_count(slots[k], id, meta)
            + slot_count(v, id, meta),
    decreases slots.len(),
{
    let u = slots.update(k, v);
    if k == slots.len() - 1 {
        assert(u.drop_last() =~= slots.drop_last());
    } else {
        lemma_total_update(slots.drop_last(), k, v, id, meta);
        assert(u.drop_last() =~= slots.drop_last().update(k, v));
    }
}

/// How many of item (`id`, `meta`) a leftover count of `stack` holds.
pub open spec fn left_count(left: Option<u8>, stack: Slot, id: i16, meta: i16) -> int {
    match left {
        Some(n) => slot_count(Some(Slot { count: n, ..stack }), id, meta),
        None => 0,
    }
}

proof fn lemma_merge_conserves(slots: Seq<Option<Slot>>, limit: int, stack: Slot, k: int, id: i16, meta: i16)
    ensures
        item_total(merge_into(slots, limit, stack, k).0, id, meta) + left_count(
            merge_into(slots, limit, stack, k).1,
            stack,
            id,
            meta,
        ) == item_total(slots, id, meta) + slot_count(Some(stack), id, meta),
    decreases limit - k,
{
    if !(k >= limit || k < 0 || k >= slots.len()) {
        match slots[k] {
            Some(s) => if s.item_id == stack.item_id && s.metadata == stack.metadata && s.count < 64 {
                let space = 64 - s.count;
                let moved = if space < stack.count {
                    space
                } else {
                    stack.count as int
                };
                let after = slots.update(k, Some(Slot { count: (s.count + moved) as u8, ..s }));
                let left = (stack.count - moved) as u8;
                lemma_total_update(slots, k, Some(Slot { count: (s.count + moved) as u8, ..s }), id, meta);
                if left != 0 {
                    lemma_merge_conserves(after, limit, Slot { count: left, ..stack }, k + 1, id, meta);
                }
            } else {
                lemma_merge_conserves(slots, limit, stack, k + 1, id, meta);
            },
            None => lemma_merge_conserves(slots, limit, stack, k + 1, id, meta),
        }
    }
}

/// Putting a stack into slots neither makes nor destroys items: for every
/// item, what the slots hold after, and what is given back, is what they
/// held before and what the stack held.
pub proof fn law_insert_stack_conserves(slots: Seq<Option<Slot>>, limit: int, stack: Slot, id: i16, meta: i16)
    ensures
        item_total(insert_stack(slots, limit, stack).0, id, meta) + slot_count(
            insert_stack(slots, limit, stack).1,
            id,
            meta,
        ) == item_total(slots, id, meta) + slot_count(Some(stack), id, meta),
{
    lemma_merge_conserves(slots, limit, stack, 0, id, meta);
    let (merged, left) = merge_into(slots, limit, stack, 0);
    match left {
        None => {},
        Some(n) => {
            let rest = Slot { count: n, ..stack };
            lemma_merge_len(slots, limit, stack, 0);
            lemma_first_empty_range(merged, limit, 0);
            match first_empty(merged, limit, 0) {
                Some(i) => {
                    lemma_first_empty_is_empty(merged, limit, 0);
                    lemma_total_update(merged, i, Some(rest), id, meta);
                },
                None => {},
            }
        },
    }
}

proof fn lemma_first_empty_is_empty(slots: Seq<Option<Slot>>, limit: int, k: int)
    ensures
        first_empty(slots, limit, k) matches Some(i) ==> slots[i] is None,
    decreases limit - k,
{
    if !(k >= limit || k < 0 || k >= slots.len()) && slots[k] is Some {
        lemma_first_empty_is_empty(slots, limit, k + 1);
    }
}

/// Inserts a stack into the first `limit` slots of a slot vector, as
/// `insert_stack` says.
fn insert_into_slots(slots: &mut [Option<Slot>], limit: usize, stack: Slot) -> (r: Option<Slot>)
    ensures
        (final(slots)@, r) == insert_stack(old(slots)@, limit as int, stack),
{
    let ghost start = slots@;
    let ghost orig = stack;
    let mut cur = stack;
    let mut k: usize = 0;
    while k < limit && k < slots.len()
        invariant
            merge_into(start, limit as int, orig, 0) == merge_into(slots@, limit as int, cur, k as int),
            cur == (Slot { count: cur.count, ..orig }),
            start == old(slots)@,
            orig == stack,
        decreases limit - k,
    {
        let ghost before = slots@;
        let ghost stack_before = cur;
        match slots[k] {
            Some(s) => {
                if s.item_id == cur.item_id && s.metadata == cur.metadata && s.count < 64 {
                    let space = 64 - s.count;
                    let moved = if space < cur.count {
                        space
                    } else {
                        cur.count
                    };
                    slots[k] = Some(Slot { count: s.count + moved, ..s });
                    cur.count = cur.count - moved;
                    if cur.count == 0 {
                        assert(merge_into(before, limit as int, stack_before, k as int) == (slots@, None::<u8>));
                        assert(merge_into(start, limit as int, orig, 0) == (slots@, None::<u8>));
                        assert(insert_stack(start, limit as int, orig) == (slots@, None::<Slot>));
                        return None;
                    }
                }
            },
            None => {},
        }
        k = k + 1;
    }
    let ghost merged = slots@;
    assert(merge_into(slots@, limit as int, cur, k as int) == (slots@, Some(cur.count)));
    let mut j: usize = 0;
    while j < limit && j < slots.len()
        invariant
            slots@ == merged,
            first_empty(merged, limit as int, 0) == first_empty(merged, limit as int, j as int),
            merge_into(start, limit as int, orig, 0) == (merged, Some(cur.count)),
            cur == (Slot { count: cur.count, ..orig }),
            start == old(slots)@,
            orig == stack,
        decreases limit - j,
    {
        if slots[j].is_none() {
            slots[j] = Some(cur);
            return None;
        }
        j = j + 1;
    }
    Some(cur)
}

/// Puts a stack into the hotbar and main inventory: onto stacks of the
/// same item first, then into the first empty slot; gives back what did
/// not fit.
pub fn insert_into_inventory(inv: &mut Inventory, stack: Slot) -> (r: Option<Slot>)
    ensures
        (final(inv).slots@, r) == insert_stack(old(inv).slots@, 36, stack),
{
    insert_into_slots(&mut inv.slots, 36, stack)
}

/// Puts a stack into a chest: onto stacks of the same item first, then into
/// the first empty slot; gives back what did not fit.
pub fn insert_into_chest(chest: &mut Vec<Option<Slot>>, stack: Slot) -> (r: Option<Slot>)
    ensures
        (final(chest)@, r) == insert_stack(old(chest)@, old(chest)@.len() as int, stack),
        final(chest)@.len() == old(chest)@.len(),
{
    proof {
        lemma_insert_len(chest@, chest@.len() as int, stack);
    }
    let n = chest.len();
    insert_into_slots(chest.as_mut_slice(), n, stack)
}

/// Where a window slot of an open chest is: in the chest (slots 0 to 26),
/// the main inventory (27 to 53) or the hotbar (54 to 62).
pub open spec fn chest_slot(slot: i16) -> Option<(bool, int)> {
    if 0 <= slot <= 26 {
        Some((true, slot as int))
    } else if 27 <= slot <= 53 {
        Some((false, slot - 27 + 9))
    } else if 54 <= slot <= 62 {
        Some((false, slot - 54))
    } else {
        None
    }
}

fn resolve_chest_slot(slot: i16) -> (r: Option<(bool, usize)>)
    ensures
        r matches Some((c, i)) ==> chest_slot(slot) == Some((c, i as int)),
        r is None ==> chest_slot(slot) is None,
{
    if 0 <= slot && slot <= 26 {
        Some((true, slot as usize))
    } else if 27 <= slot && slot <= 53 {
        Some((false, (slot - 27 + 9) as usize))
    } else if 54 <= slot && slot <= 62 {
        Some((false, (slot - 54) as usize))
    } else {
        None
    }
}

/// The first `n` slots of a container (all of them when it has fewer) as
/// the protocol sends them.
pub open spec fn container_view(items: Seq<Option<Slot>>, n: int) -> Seq<(i16, u8, i16)> {
    items.take(if items.len() < n { items.len() as int } else { n }).map_values(|item: Option<Slot>| slot_view(item))
}

/// The first `n` slots of a container as the protocol sends them.
pub fn container_slots(items: &Vec<Option<Slot>>, n: usize) -> (r: Vec<(i16, u8, i16)>)
    ensures
        r@ == container_view(items@, n as int),
{
    let m = if items.len() < n { items.len() } else { n };
    let mut view: Vec<(i16, u8, i16)> = Vec::new();
    let mut i: usize = 0;
    while i < m
        invariant
            i <= m,
            m <= items@.len(),
            m == (if items@.len() < n { items@.len() as int } else { n as int }),
            view@ == items@.take(i as int).map_values(|item: Option<Slot>| slot_view(item)),
        decreases m - i,
    {
        view.push(slot_tuple(&items[i]));
        i = i + 1;
        assert(view@ =~= items@.take(i as int).map_values(|item: Option<Slot>| slot_view(item)));
    }
    view
}

/// Whether a click in a chest window would index past the chest's end.
pub open spec fn chest_click_in_bounds(len: int, slot: i16, mode: u8) -> bool {
    (mode == 0 || mode == 1) ==> (chest_slot(slot) matches Some((true, i)) ==> i < len)
}

/// A click in an open chest window. A plain click (mode 0) swaps the
/// cursor with the clicked slot; a shift click (mode 1) moves the clicked
/// stack from the chest into the inventory or from the inventory into the
/// chest, keeping what does not fit; other modes change nothing. `None`
/// for a plain or shift click outside the window, otherwise the first 27
/// chest slots after.
pub fn chest_click(
    items: &mut Vec<Option<Slot>>,
    inventory: &mut Inventory,
    cursor: &mut Option<Slot>,
    slot: i16,
    mode: u8,
) -> (r: Option<Vec<(i16, u8, i16)>>)
    requires
        chest_click_in_bounds(old(items)@.len() as int, slot, mode),
    ensures
        (mode == 0 || mode == 1) && chest_slot(slot) is None ==> r is None,
        !((mode == 0 || mode == 1) && chest_slot(slot) is None) ==> (r matches Some(v) && v@ == container_view(
            final(items)@,
            27,
        )),
        (mode != 0 && mode != 1) || chest_slot(slot) is None ==> final(items)@ == old(items)@
            && final(inventory).slots@ == old(inventory).slots@ && *final(cursor) == *old(cursor),
        chest_slot(slot) matches Some((in_chest, idx)) ==> {
            &&& mode == 0 && in_chest ==> final(items)@ == old(items)@.update(idx, *old(cursor)) && *final(cursor)
                == old(items)@[idx] && final(inventory).slots@ == old(inventory).slots@
            &&& mode == 0 && !in_chest ==> final(inventory).slots@ == old(inventory).slots@.update(idx, *old(cursor))
                && *final(cursor) == old(inventory).slots@[idx] && final(items)@ == old(items)@
            &&& mode == 1 && in_chest ==> *final(cursor) == *old(cursor) && match old(items)@[idx] {
                None => final(items)@ == old(items)@ && final(inventory).slots@ == old(inventory).slots@,
                Some(stack) => {
                    let (inv, left) = insert_stack(old(inventory).slots@, 36, stack);
                    final(inventory).slots@ == inv && final(items)@ == old(items)@.update(idx, left)
                },
            }
            &&& mode == 1 && !in_chest ==> *final(cursor) == *old(cursor) && match old(inventory).slots@[idx] {
                None => final(items)@ == old(items)@ && final(inventory).slots@ == old(inventory).slots@,
                Some(stack) => {
                    let (chest, left) = insert_stack(old(items)@, old(items)@.len() as int, stack);
                    final(items)@ == chest && final(inventory).slots@ == old(inventory).slots@.update(idx, left)
                },
            }
        },
{
    if mode == 0 || mode == 1 {
        let (in_chest, idx) = match resolve_chest_slot(slot) {
            Some(p) => p,
            None => {
                return None;
            },
        };
        if mode == 0 {
            let slot_item = if in_chest {
                let it = items[idx];
                items.set(idx, None);
                it
            } else {
                let it = inventory.slots[idx];
                inventory.slots[idx] = None;
                it
            };
            let held = *cursor;
            if in_chest {
                items.set(idx, held);
            } else {
                inventory.slots[idx] = held;
            }
            *cursor = slot_item;
        } else {
            let moving = if in_chest {
                let it = items[idx];
                items.set(idx, None);
                it
            } else {
                let it = inventory.slots[idx];
                inventory.slots[idx] = None;
                it
            };
            match moving {
                Some(stack) => {
                    if in_chest {
                        let leftover = insert_into_inventory(inventory, stack);
                        items.set(idx, leftover);
                    } else {
                        let leftover = insert_into_chest(items, stack);
                        inventory.slots[idx] = leftover;
                    }
                },
                None => {
                    if in_chest {
                        items.set(idx, None);
                    } else {
                        inventory.slots[idx] = None;
                    }
                },
            }
        }
    }
    Some(container_slots(items, 27))
}

/// The kind of window a block entity opens.
#[derive(PartialEq, Eq, Structural, Clone, Copy, Debug)]
pub enum WindowKind {
    Chest,
    Furnace,
}

/// What opening a block entity's window shows: its kind, how many slots
/// the block entity has, its title and those slots.
pub struct WindowOpenData {
    pub kind: WindowKind,
    pub slot_count: u8,
    pub title: String,
    pub container_slots: Vec<(i16, u8, i16)>,
}

/// A block entity as the windows see it: a chest with its slots, a furnace,
/// or a sign, which has no window. Chests and furnaces count the players
/// who have their window open.
pub enum WindowTile {
    Chest { items: Vec<Option<Slot>>, viewers: u8 },
    Furnace(Furnace),
    Sign { lines: [String; 4] },
}

/// The viewers of a block entity with a window, 0 for one without.
pub open spec fn viewers_of(t: WindowTile) -> u8 {
    match t {
        WindowTile::Chest { viewers, .. } => viewers,
        WindowTile::Furnace(f) => f.viewers,
        WindowTile::Sign { .. } => 0,
    }
}

impl WindowTile {
    /// A new chest of 27 empty slots that nobody looks into.
    pub fn empty_chest() -> (r: Self)
        ensures
            r matches WindowTile::Chest { items, viewers } && items@ == Seq::new(27, |i: int| None::<Slot>) && viewers
                == 0,
    {
        let mut items: Vec<Option<Slot>> = Vec::new();
        let mut i: usize = 0;
        while i < 27
            invariant
                i <= 27,
                items@ == Seq::new(i as nat, |k: int| None::<Slot>),
            decreases 27 - i,
        {
            items.push(None);
            i = i + 1;
            assert(items@ =~= Seq::new(i as nat, |k: int| None::<Slot>));
        }
        WindowTile::Chest { items, viewers: 0 }
    }

    /// Whether the block entity has a window: chests and furnaces do.
    pub fn has_window(&self) -> (r: bool)
        ensures
            r == (*self is Chest || *self is Furnace),
    {
        match self {
            WindowTile::Chest { .. } => true,
            WindowTile::Furnace(_) => true,
            WindowTile::Sign { .. } => false,
        }
    }

    /// Opens the window: one viewer more, and what the window shows, the
    /// first 27 slots of a chest or the three of a furnace. A sign has no
    /// window: `None`, and it stays as it was.
    pub fn open(&mut self) -> (r: Option<WindowOpenData>)
        requires
            viewers_of(*old(self)) < 255,
        ensures
            match *old(self) {
                WindowTile::Chest { items, viewers } => {
                    &&& *final(self) == WindowTile::Chest { items, viewers: (viewers + 1) as u8 }
                    &&& r matches Some(d) && d.kind == WindowKind::Chest && d.slot_count == 27 && d.title@ == "Chest"@
                        && d.container_slots@ == container_view(items@, 27)
                },
                WindowTile::Furnace(f) => {
                    &&& *final(self) == WindowTile::Furnace(Furnace { viewers: (f.viewers + 1) as u8, ..f })
                    &&& r matches Some(d) && d.kind == WindowKind::Furnace && d.slot_count == 3 && d.title@
                        == "Furnace"@ && d.container_slots@ == furnace_view(furnace_slots(f))
                },
                WindowTile::Sign { .. } => r is None && *final(self) == *old(self),
            },
    {
        match self {
            WindowTile::Chest { items, viewers } => {
                *viewers = *viewers + 1;
                let container_slots = container_slots(items, 27);
                Some(WindowOpenData { kind: WindowKind::Chest, slot_count: 27, title: String::from_str("Chest"), container_slots })
            },
            WindowTile::Furnace(f) => {
                f.viewers = f.viewers + 1;
                let mut container_slots: Vec<(i16, u8, i16)> = Vec::new();
                container_slots.push(slot_tuple(&f.input));
                container_slots.push(slot_tuple(&f.fuel));
                container_slots.push(slot_tuple(&f.output));
                assert(container_slots@ =~= furnace_view(furnace_slots(*f)));
                Some(
                    WindowOpenData {
                        kind: WindowKind::Furnace,
                        slot_count: 3,
                        title: String::from_str("Furnace"),
                        container_slots,
                    },
                )
            },
            WindowTile::Sign { .. } => None,
        }
    }

    /// A click in the block entity's window: in a chest as `chest_click`
    /// says, in a furnace as `Furnace::click` says, with `is_fuel` telling
    /// whether the clicked inventory stack burns. The block entity's slots
    /// as the window shows them after, or `None` where nothing was done; a
    /// sign is left as it was.
    pub fn click(&mut self, inventory: &mut Inventory, cursor: &mut Option<Slot>, slot: i16, mode: u8, is_fuel: bool) -> (r:
        Option<Vec<(i16, u8, i16)>>)
        requires
            *old(self) matches WindowTile::Chest { items, .. } ==> chest_click_in_bounds(items@.len() as int, slot, mode),
        ensures
            match (*old(self), *final(self)) {
                (WindowTile::Chest { items: a, viewers: va }, WindowTile::Chest { items: b, viewers: vb }) => {
                    &&& va == vb
                    &&& (mode == 0 || mode == 1) && chest_slot(slot) is None ==> r is None
                    &&& !((mode == 0 || mode == 1) && chest_slot(slot) is None) ==> (r matches Some(v) && v@
                        == container_view(b@, 27))
                    &&& (mode != 0 && mode != 1) || chest_slot(slot) is None ==> b@ == a@ && final(inventory).slots@
                        == old(inventory).slots@ && *final(cursor) == *old(cursor)
                    &&& chest_slot(slot) matches Some((in_chest, idx)) ==> {
                        &&& mode == 0 && in_chest ==> b@ == a@.update(idx, *old(cursor)) && *final(cursor) == a@[idx]
                            && final(inventory).slots@ == old(inventory).slots@
                        &&& mode == 0 && !in_chest ==> final(inventory).slots@ == old(inventory).slots@.update(
                            idx,
                            *old(cursor),
                        ) && *final(cursor) == old(inventory).slots@[idx] && b@ == a@
                        &&& mode == 1 && in_chest ==> *final(cursor) == *old(cursor) && match a@[idx] {
                            None => b@ == a@ && final(inventory).slots@ == old(inventory).slots@,
                            Some(stack) => {
                                let (inv, left) = insert_stack(old(inventory).slots@, 36, stack);
                                final(inventory).slots@ == inv && b@ == a@.update(idx, left)
                            },
                        }
                        &&& mode == 1 && !in_chest ==> *final(cursor) == *old(cursor) && match old(
                            inventory,
                        ).slots@[idx] {
                            None => b@ == a@ && final(inventory).slots@ == old(inventory).slots@,
                            Some(stack) => {
                                let (chest, left) = insert_stack(a@, a@.len() as int, stack);
                                b@ == chest && final(inventory).slots@ == old(inventory).slots@.update(idx, left)
                            },
                        }
                    }
                },
                (WindowTile::Furnace(f), WindowTile::Furnace(g)) => {
                    &&& g.burn_ticks == f.burn_ticks && g.burn_ticks_total == f.burn_ticks_total && g.cook_ticks
                        == f.cook_ticks && g.viewers == f.viewers
                    &&& match furnace_clicked(furnace_slots(f), old(inventory).slots@, *old(cursor), slot, mode, is_fuel) {
                        None => r is None && g == f && final(inventory).slots@ == old(inventory).slots@ && *final(cursor)
                            == *old(cursor),
                        Some((fs, inv, c)) => r matches Some(v) && v@ == furnace_view(fs) && furnace_slots(g) == fs
                            && final(inventory).slots@ == inv && *final(cursor) == c,
                    }
                },
                (WindowTile::Sign { .. }, _) => r is None && *final(self) == *old(self) && final(inventory).slots@
                    == old(inventory).slots@ && *final(cursor) == *old(cursor),
                _ => false,
            },
    {
        match self {
            WindowTile::Chest { items, .. } => chest_click(items, inventory, cursor, slot, mode),
            WindowTile::Furnace(f) => f.click(inventory, cursor, slot, mode, is_fuel),
            WindowTile::Sign { .. } => None,
        }
    }

    /// Closes the window: one viewer fewer, never below 0, and how many are
    /// left; 0 for a sign, which stays as it was.
    pub fn close(&mut self) -> (r: u8)
        ensures
            r == viewers_of(*final(self)),
            match *old(self) {
                WindowTile::Chest { items, viewers } => *final(self) == WindowTile::Chest {
                    items,
                    viewers: if viewers == 0 { 0 } else { (viewers - 1) as u8 },
                },
                WindowTile::Furnace(f) => *final(self) == WindowTile::Furnace(
                    Furnace { viewers: if f.viewers == 0 { 0 } else { (f.viewers - 1) as u8 }, ..f },
                ),
                WindowTile::Sign { .. } => *final(self) == *old(self),
            },
    {
        match self {
            WindowTile::Chest { viewers, .. } => {
                *viewers = viewers.saturating_sub(1);
                *viewers
            },
            WindowTile::Furnace(f) => {
                f.viewers = f.viewers.saturating_sub(1);
                f.viewers
            },
            WindowTile::Sign { .. } => 0,
        }
    }
}

/// The window id after `counter`: one more, wrapping past 255, and never 0.
pub open spec fn next_window(counter: u8) -> u8 {
    if counter == 255 {
        1
    } else {
        (counter + 1) as u8
    }
}

/// The id for the next window a player opens.
pub fn next_window_id(counter: u8) -> (r: u8)
    ensures
        r == next_window(counter),
        r != 0,
{
    let n = counter.wrapping_add(1);
    if n == 0 {
        1
    } else {
        n
    }
}

/// All the slots an open container window shows: the container's, then
/// the main inventory (inventory slots 9 to 35), then the hotbar (0 to 8).
pub open spec fn window_view(container: Seq<(i16, u8, i16)>, inv: Seq<Option<Slot>>) -> Seq<(i16, u8, i16)> {
    container + inv.subrange(9, 36).map_values(|item: Option<Slot>| slot_view(item)) + inv.subrange(0, 9).map_values(
        |item: Option<Slot>| slot_view(item),
    )
}

/// All the slots an open container window shows, the container's given.
pub fn window_slots(container: Vec<(i16, u8, i16)>, inventory: &Inventory) -> (r: Vec<(i16, u8, i16)>)
    ensures
        r@ == window_view(container@, inventory.slots@),
{
    let mut slots = container;
    let ghost base = slots@;
    let mut i: usize = 9;
    while i < 36
        invariant
            9 <= i <= 36,
            inventory.slots@.len() == 44,
            slots@ == base + inventory.slots@.subrange(9, i as int).map_values(|item: Option<Slot>| slot_view(item)),
        decreases 36 - i,
    {
        slots.push(slot_tuple(&inventory.slots[i]));
        i = i + 1;
        assert(slots@ =~= base + inventory.slots@.subrange(9, i as int).map_values(|item: Option<Slot>| slot_view(item)));
    }
    let ghost mid = slots@;
    let mut j: usize = 0;
    while j < 9
        invariant
            j <= 9,
            inventory.slots@.len() == 44,
            slots@ == mid + inventory.slots@.subrange(0, j as int).map_values(|item: Option<Slot>| slot_view(item)),
        decreases 9 - j,
    {
        slots.push(slot_tuple(&inventory.slots[j]));
        j = j + 1;
        assert(slots@ =~= mid + inventory.slots@.subrange(0, j as int).map_values(|item: Option<Slot>| slot_view(item)));
    }
    slots
}

} // verus!
