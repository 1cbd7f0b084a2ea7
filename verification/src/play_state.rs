//! The decisions of a connection in the play state: what a player's
//! packets do to what the server keeps of them, and what it sends or
//! changes in answer. Positions, health and the items' flight, which are
//! floating-point numbers, are kept by the server around this library.

use vstd::prelude::*;
use crate::protocol::packets::play::inventory::{Inventory, Slot};
use crate::text::{chars_of, contains_str, occurs_in};
use vstd::string::StringSliceAdditionalSpecFns;

verus! {

/// What the server keeps of a player in the play state: the game mode (0
/// survival, 1 creative, 2 adventure, 3 spectator), the selected hotbar
/// slot and the id of the item held, the inventory, the block being broken,
/// the id of the keep-alive sent and not yet answered, whether the player
/// is dead, the food level, and whether the player sneaks and sprints.
pub struct PlayState {
    pub gamemode: u8,
    pub held_slot: u8,
    pub held_item: i16,
    pub inventory: Inventory,
    pub breaking_block: Option<(i32, i32, i32)>,
    pub pending_keep_alive: Option<i32>,
    pub is_dead: bool,
    pub food: i32,
    pub sneaking: bool,
    pub sprinting: bool,
}

/// The value of a `PlayState`.
pub struct PlayModel {
    pub gamemode: u8,
    pub held_slot: u8,
    pub held_item: i16,
    pub slots: Seq<Option<Slot>>,
    pub breaking_block: Option<(i32, i32, i32)>,
    pub pending_keep_alive: Option<i32>,
    pub is_dead: bool,
    pub food: i32,
    pub sneaking: bool,
    pub sprinting: bool,
}

impl View for PlayState {
    type V = PlayModel;

    open spec fn view(&self) -> PlayModel {
        PlayModel {
            gamemode: self.gamemode,
            held_slot: self.held_slot,
            held_item: self.held_item,
            slots: self.inventory.slots@,
            breaking_block: self.breaking_block,
            pending_keep_alive: self.pending_keep_alive,
            is_dead: self.is_dead,
            food: self.food,
            sneaking: self.sneaking,
            sprinting: self.sprinting,
        }
    }
}

/// A packet of the player that the play state decides on.
#[derive(PartialEq, Eq, Structural, Clone, Copy, Debug)]
pub enum PlayEvent {
    /// The answer to a keep-alive.
    KeepAlive { id: i32 },
    /// Another hotbar slot selected.
    HeldItemChange { slot: i16 },
    /// Digging: 0 start, 1 cancel, 2 finish, 3 drop the held stack, 4 drop
    /// one held item.
    Dig { status: u8, x: i32, y: u8, z: i32 },
    /// Using the held item on a face (0 to 5; 255 for none) of a block.
    Place { x: i32, y: u8, z: i32, face: u8, held_item_id: i16 },
    /// A swing of the arm.
    ArmAnimation,
    /// In creative mode, a slot of the inventory window set to a stack, or
    /// emptied with item id -1.
    CreativeInventory { slot: i16, item_id: i16, count: u8, damage: i16 },
    /// A click in a window.
    ClickWindow { window_id: u8, action_number: i16 },
    /// A client status: 0 asks to respawn.
    ClientStatus { action: u8 },
    /// An entity action: 0 and 1 start and stop sneaking, 3 and 4 start
    /// and stop sprinting.
    EntityAction { action: i32 },
    /// Using an entity: 1 attacks it.
    UseEntity { target: i32, action: i32 },
}

/// What the server does in answer.
#[allow(inconsistent_fields)]
#[derive(PartialEq, Eq, Structural, Clone, Copy, Debug)]
pub enum PlayAction {
    /// The keep-alive sent was answered: its round trip is the latency.
    LatencyMeasured,
    /// Record the selected hotbar slot.
    HeldSlotChanged { slot: u8 },
    /// Record the item held.
    HeldItem { item_id: i16 },
    /// Put a block in the world and tell every player.
    SetBlock { x: i32, y: i32, z: i32, id: i32, metadata: u8 },
    /// Show a breaking stage (0 to 9, 10 broken, 255 none) to every player.
    BreakAnimation { x: i32, y: i32, z: i32, stage: u8 },
    /// Break the block: air in its place, every player told, and the block
    /// dropped as an item unless it was air.
    BreakBlock { x: i32, y: i32, z: i32 },
    /// Send the player one slot of their inventory window.
    SetSlot { slot: i16, item_id: i16, count: u8, metadata: i16 },
    /// Throw items out in front of the player.
    DropItem { item_id: i16, count: u8, metadata: i16 },
    /// Send the player their selected hotbar slot.
    SendHeldSlot { slot: i16 },
    /// Show the arm swing to every player.
    Animation,
    /// Confirm a window click to the player.
    ConfirmTransaction { window_id: u8, action_number: i16, accepted: bool },
    /// Bring the player back: health 20 and saturation 5 restored, then the
    /// respawn in this game mode, the chunks, the spawn position and look,
    /// and the health sent.
    Respawn { gamemode: u8 },
    /// Tell every player the player's sneaking and sprinting.
    FlagsChanged { sneaking: bool, sprinting: bool },
    /// Refuse a sprint: abilities with no flags sent to the player.
    DenySprint,
    /// Attack the entity when it is within `reach` blocks and can be hurt:
    /// it loses one health, down to no less than 2.
    Attack { target: i32, reach: u8 },
}

/// The inventory index a window slot number stands for: 0 to 35 as they
/// are, 100 to 103 the armour (36 to 39), 80 to 83 the crafting grid (40 to
/// 43).
pub open spec fn window_slot_index(slot: i16) -> Option<int> {
    if 0 <= slot <= 35 {
        Some(slot as int)
    } else if 100 <= slot <= 103 {
        Some(slot - 100 + 36)
    } else if 80 <= slot <= 83 {
        Some(slot - 80 + 40)
    } else {
        None
    }
}

fn packet_to_internal(slot: i16) -> (r: Option<usize>)
    ensures
        match window_slot_index(slot) {
            Some(i) => r == Some(i as usize),
            None => r is None,
        },
{
    if 0 <= slot && slot <= 35 {
        Some(slot as usize)
    } else if 100 <= slot && slot <= 103 {
        Some((slot - 100 + 36) as usize)
    } else if 80 <= slot && slot <= 83 {
        Some((slot - 80 + 40) as usize)
    } else {
        None
    }
}

/// The stack in the selected hotbar slot.
pub open spec fn held_stack(m: PlayModel) -> Option<Slot> {
    m.slots[m.held_slot as int]
}

/// The id of what a slot holds, -1 for nothing.
pub open spec fn item_id_of(s: Option<Slot>) -> i16 {
    match s {
        Some(x) => x.item_id,
        None => -1i16,
    }
}

/// A stack with one item fewer, or nothing when it held one.
pub open spec fn one_fewer(s: Slot) -> Option<Slot> {
    if s.count == 1 {
        None
    } else {
        Some(Slot { count: (s.count - 1) as u8, ..s })
    }
}

/// The slot packet for hotbar slot `h` holding `s`: -1, 0, 0 when empty.
pub open spec fn hotbar_slot_packet(h: u8, s: Option<Slot>) -> PlayAction {
    match s {
        Some(x) => PlayAction::SetSlot { slot: (36 + h) as i16, item_id: x.item_id, count: x.count, metadata: x.metadata },
        None => PlayAction::SetSlot { slot: (36 + h) as i16, item_id: -1i16, count: 0u8, metadata: 0i16 },
    }
}

/// The block next to (`x`, `y`, `z`) on the given face: 0 below, 1 above,
/// 2 north, 3 south, 4 west, 5 east.
pub open spec fn place_target(x: i32, y: u8, z: i32, face: u8) -> Option<(int, int, int)> {
    if face == 0 {
        Some((x as int, y - 1, z as int))
    } else if face == 1 {
        Some((x as int, y + 1, z as int))
    } else if face == 2 {
        Some((x as int, y as int, z - 1))
    } else if face == 3 {
        Some((x as int, y as int, z + 1))
    } else if face == 4 {
        Some((x - 1, y as int, z as int))
    } else if face == 5 {
        Some((x + 1, y as int, z as int))
    } else {
        None
    }
}

/// Whether a use of an item on a block is looked at further: an item is
/// held, a face is named, and the player may build (not adventure or
/// spectator).
pub open spec fn placing(m: PlayModel, held_item_id: i16, face: u8) -> bool {
    held_item_id != -1 && face != 255 && m.gamemode != 2 && m.gamemode != 3
}

/// Whether a placement puts a block: a face from 0 to 5, a height from 0
/// to 255, and a held id from 1 to 255.
pub open spec fn places(m: PlayModel, x: i32, y: u8, z: i32, face: u8, held_item_id: i16) -> bool {
    &&& placing(m, held_item_id, face)
    &&& place_target(x, y, z, face) matches Some(t) && 0 <= t.1 <= 255
    &&& 1 <= held_item_id <= 255
}

/// What a packet of the player does: the state after it and the actions,
/// in order.
///
/// A keep-alive answering the one sent measures the latency; any answer
/// clears the one sent. A held-slot change selects the slot, kept to 0 to
/// 8. Starting to dig breaks the block at once in creative and starts
/// breaking it in survival; cancelling stops the breaking shown; finishing
/// in survival breaks the block being broken. Dropping throws the held
/// stack, or one item of it, and sends the slot and the held slot again.
/// Using an item on a block face places that item's block next to it:
/// in survival one item of the held stack is spent, and nothing happens
/// without one. In creative mode a window slot can be set to any stack,
/// and setting the selected hotbar slot holds its item. A window click is
/// confirmed. A dead player asking to respawn comes back with food 20. Sneaking
/// and sprinting are recorded and told, but a sprint is refused with food 6
/// or less. An attack, except by a spectator, is on the target within 5
/// blocks in creative mode and 3 otherwise.
pub open spec fn play_step_spec(m: PlayModel, e: PlayEvent) -> (PlayModel, Seq<PlayAction>) {
    match e {
        PlayEvent::KeepAlive { id } => (
            PlayModel { pending_keep_alive: None, ..m },
            if m.pending_keep_alive == Some(id) {
                seq![PlayAction::LatencyMeasured]
            } else {
                seq![]
            },
        ),
        PlayEvent::HeldItemChange { slot } => {
            let h: u8 = if slot < 0 {
                0
            } else if slot > 8 {
                8
            } else {
                slot as u8
            };
            (
                PlayModel { held_slot: h, held_item: item_id_of(m.slots[h as int]), ..m },
                seq![PlayAction::HeldSlotChanged { slot: h }],
            )
        },
        PlayEvent::Dig { status, x, y, z } => {
            if status == 0 && m.gamemode == 1 {
                (m, seq![PlayAction::SetBlock { x, y: y as i32, z, id: 0, metadata: 0 }])
            } else if status == 0 && m.gamemode == 0 {
                (
                    PlayModel { breaking_block: Some((x, y as i32, z)), ..m },
                    seq![PlayAction::BreakAnimation { x, y: y as i32, z, stage: 0 }],
                )
            } else if status == 1 {
                (
                    PlayModel { breaking_block: None, ..m },
                    match m.breaking_block {
                        Some(b) => seq![PlayAction::BreakAnimation { x: b.0, y: b.1, z: b.2, stage: 255 }],
                        None => seq![],
                    },
                )
            } else if status == 2 && m.gamemode == 0 {
                (
                    PlayModel { breaking_block: None, ..m },
                    match m.breaking_block {
                        Some(b) => seq![
                            PlayAction::BreakBlock { x: b.0, y: b.1, z: b.2 },
                            PlayAction::BreakAnimation { x: b.0, y: b.1, z: b.2, stage: 10 },
                        ],
                        None => seq![],
                    },
                )
            } else if status == 3 || status == 4 {
                match held_stack(m) {
                    None => (m, seq![]),
                    Some(s) => {
                        let left = if status == 3 {
                            None
                        } else {
                            one_fewer(s)
                        };
                        let dropped = if status == 3 {
                            s
                        } else {
                            Slot { count: 1, ..s }
                        };
                        (
                            PlayModel {
                                slots: m.slots.update(m.held_slot as int, left),
                                held_item: item_id_of(left),
                                ..m
                            },
                            seq![
                                hotbar_slot_packet(m.held_slot, left),
                                PlayAction::DropItem {
                                    item_id: dropped.item_id,
                                    count: dropped.count,
                                    metadata: dropped.metadata,
                                },
                                PlayAction::SendHeldSlot { slot: m.held_slot as i16 },
                            ],
                        )
                    },
                }
            } else {
                (m, seq![])
            }
        },
        PlayEvent::Place { x, y, z, face, held_item_id } => {
            if !places(m, x, y, z, face, held_item_id) {
                (m, seq![])
            } else {
                let t = place_target(x, y, z, face).unwrap();
                let set = PlayAction::SetBlock {
                    x: t.0 as i32,
                    y: t.1 as i32,
                    z: t.2 as i32,
                    id: held_item_id as i32,
                    metadata: 0,
                };
                if m.gamemode == 0 {
                    match held_stack(m) {
                        None => (m, seq![]),
                        Some(s) => {
                            let rem = (s.count - 1) as u8;
                            (
                                PlayModel {
                                    slots: m.slots.update(m.held_slot as int, if rem == 0 {
                                        None
                                    } else {
                                        Some(Slot { count: rem, ..s })
                                    }),
                                    held_item: held_item_id,
                                    ..m
                                },
                                seq![
                                    PlayAction::SetSlot {
                                        slot: (36 + m.held_slot) as i16,
                                        item_id: if rem > 0 {
                                            s.item_id
                                        } else {
                                            -1i16
                                        },
                                        count: rem,
                                        metadata: s.metadata,
                                    },
                                    PlayAction::HeldItem { item_id: held_item_id },
                                    set,
                                ],
                            )
                        },
                    }
                } else {
                    (PlayModel { held_item: held_item_id, ..m }, seq![PlayAction::HeldItem { item_id: held_item_id }, set])
                }
            }
        },
        PlayEvent::ArmAnimation => (m, seq![PlayAction::Animation]),
        PlayEvent::CreativeInventory { slot, item_id, count, damage } => {
            if m.gamemode != 1 {
                (m, seq![])
            } else {
                match window_slot_index(slot) {
                    None => (m, seq![]),
                    Some(i) => {
                        let new = if item_id == -1 {
                            None
                        } else {
                            Some(Slot { item_id, count, metadata: damage })
                        };
                        let m2 = PlayModel { slots: m.slots.update(i, new), ..m };
                        if i < 9 && i == m.held_slot {
                            (PlayModel { held_item: item_id, ..m2 }, seq![PlayAction::HeldItem { item_id }])
                        } else {
                            (m2, seq![])
                        }
                    },
                }
            }
        },
        PlayEvent::ClickWindow { window_id, action_number } => (
            m,
            seq![PlayAction::ConfirmTransaction { window_id, action_number, accepted: true }],
        ),
        PlayEvent::ClientStatus { action } => {
            if action == 0 && m.is_dead {
                (PlayModel { is_dead: false, food: 20, ..m }, seq![PlayAction::Respawn { gamemode: m.gamemode }])
            } else {
                (m, seq![])
            }
        },
        PlayEvent::EntityAction { action } => {
            if action == 0 || action == 1 {
                let m2 = PlayModel { sneaking: action == 0, ..m };
                (m2, seq![PlayAction::FlagsChanged { sneaking: m2.sneaking, sprinting: m2.sprinting }])
            } else if action == 3 && m.food <= 6 {
                (m, seq![PlayAction::DenySprint])
            } else if action == 3 || action == 4 {
                let m2 = PlayModel { sprinting: action == 3, ..m };
                (m2, seq![PlayAction::FlagsChanged { sneaking: m2.sneaking, sprinting: m2.sprinting }])
            } else {
                (m, seq![])
            }
        },
        PlayEvent::UseEntity { target, action } => {
            if action == 1 && m.gamemode != 3 {
                (m, seq![PlayAction::Attack { target, reach: if m.gamemode == 1 { 5u8 } else { 3u8 } }])
            } else {
                (m, seq![])
            }
        },
    }
}

/// The packets on which no count or coordinate leaves its range: an empty
/// stack is not dropped from or spent, and a block is not placed past the
/// edge of the `i32` coordinates.
pub open spec fn step_in_range(m: PlayModel, e: PlayEvent) -> bool {
    match e {
        PlayEvent::Dig { status, .. } => status == 4 ==> (held_stack(m) matches Some(s) ==> s.count > 0),
        PlayEvent::Place { x, y, z, face, held_item_id } => {
            &&& placing(m, held_item_id, face) ==> (place_target(x, y, z, face) matches Some(t) ==> i32::MIN <= t.0
                <= i32::MAX && i32::MIN <= t.2 <= i32::MAX)
            &&& places(m, x, y, z, face, held_item_id) && m.gamemode == 0 ==> (held_stack(m) matches Some(s) ==> s.count
                > 0)
        },
        _ => true,
    }
}

fn hotbar_packet(h: u8, s: Option<Slot>) -> (r: PlayAction)
    requires
        h < 9,
    ensures
        r == hotbar_slot_packet(h, s),
{
    match s {
        Some(x) => PlayAction::SetSlot { slot: (36 + h) as i16, item_id: x.item_id, count: x.count, metadata: x.metadata },
        None => PlayAction::SetSlot { slot: (36 + h) as i16, item_id: -1, count: 0, metadata: 0 },
    }
}

fn item_id(s: Option<Slot>) -> (r: i16)
    ensures
        r == item_id_of(s),
{
    match s {
        Some(x) => x.item_id,
        None => -1,
    }
}

impl PlayState {
    /// A player who has just joined: the given game mode, hotbar slot 0 and
    /// nothing held, an empty inventory, nothing being broken, no
    /// keep-alive waiting, alive with food 20, neither sneaking nor
    /// sprinting.
    pub fn new(gamemode: u8) -> (r: Self)
        ensures
            r@.gamemode == gamemode,
            r@.held_slot == 0,
            r@.held_item == -1,
            forall|i: int| 0 <= i < 44 ==> r@.slots[i] is None,
            r@.breaking_block is None,
            r@.pending_keep_alive is None,
            !r@.is_dead,
            r@.food == 20,
            !r@.sneaking,
            !r@.sprinting,
    {
        PlayState {
            gamemode,
            held_slot: 0,
            held_item: -1,
            inventory: Inventory::new(),
            breaking_block: None,
            pending_keep_alive: None,
            is_dead: false,
            food: 20,
            sneaking: false,
            sprinting: false,
        }
    }

    /// What a packet of the player does, as `play_step_spec` says; the
    /// selected slot stays within the hotbar.
    pub fn play_step(&mut self, e: PlayEvent) -> (r: Vec<PlayAction>)
        requires
            old(self).held_slot < 9,
            step_in_range(old(self)@, e),
        ensures
            (final(self)@, r@) == play_step_spec(old(self)@, e),
            final(self).held_slot < 9,
    {
        let h = self.held_slot;
        let hs = h as usize;
        let mut out: Vec<PlayAction> = Vec::new();
        match e {
            PlayEvent::KeepAlive { id } => {
                let sent = self.pending_keep_alive;
                self.pending_keep_alive = None;
                if sent == Some(id) {
                    out.push(PlayAction::LatencyMeasured);
                }
            },
            PlayEvent::HeldItemChange { slot } => {
                let n: u8 = if slot < 0 {
                    0
                } else if slot > 8 {
                    8
                } else {
                    slot as u8
                };
                self.held_slot = n;
                out.push(PlayAction::HeldSlotChanged { slot: n });
                self.held_item = item_id(self.inventory.slots[n as usize]);
            },
            PlayEvent::Dig { status, x, y, z } => {
                if status == 0 && self.gamemode == 1 {
                    out.push(PlayAction::SetBlock { x, y: y as i32, z, id: 0, metadata: 0 });
                } else if status == 0 && self.gamemode == 0 {
                    self.breaking_block = Some((x, y as i32, z));
                    out.push(PlayAction::BreakAnimation { x, y: y as i32, z, stage: 0 });
                } else if status == 1 {
                    let b = self.breaking_block;
                    self.breaking_block = None;
                    if let Some(b) = b {
                        out.push(PlayAction::BreakAnimation { x: b.0, y: b.1, z: b.2, stage: 255 });
                    }
                } else if status == 2 && self.gamemode == 0 {
                    let b = self.breaking_block;
                    self.breaking_block = None;
                    if let Some(b) = b {
                        out.push(PlayAction::BreakBlock { x: b.0, y: b.1, z: b.2 });
                        out.push(PlayAction::BreakAnimation { x: b.0, y: b.1, z: b.2, stage: 10 });
                    }
                } else if status == 3 || status == 4 {
                    if let Some(s) = self.inventory.slots[hs] {
                        let left = if status == 3 {
                            None
                        } else {
                            let n = s.count - 1;
                            if n == 0 {
                                None
                            } else {
                                Some(Slot { item_id: s.item_id, count: n, metadata: s.metadata })
                            }
                        };
                        let dropped = if status == 3 {
                            s
                        } else {
                            Slot { item_id: s.item_id, count: 1, metadata: s.metadata }
                        };
                        self.inventory.slots[hs] = left;
                        out.push(hotbar_packet(h, left));
                        self.held_item = item_id(left);
                        out.push(PlayAction::DropItem { item_id: dropped.item_id, count: dropped.count, metadata: dropped.metadata });
                        out.push(PlayAction::SendHeldSlot { slot: h as i16 });
                    }
                }
            },
            PlayEvent::Place { x, y, z, face, held_item_id } => {
                if held_item_id == -1 || face == 255 || self.gamemode == 2 || self.gamemode == 3 {
                    return out;
                }
                let (tx, ty, tz): (i32, i32, i32) = match face {
                    0 => (x, y as i32 - 1, z),
                    1 => (x, y as i32 + 1, z),
                    2 => (x, y as i32, z - 1),
                    3 => (x, y as i32, z + 1),
                    4 => (x - 1, y as i32, z),
                    5 => (x + 1, y as i32, z),
                    _ => {
                        return out;
                    },
                };
                if !(0 <= ty && ty <= 255) {
                    return out;
                }
                let block_id = held_item_id as i32;
                if block_id <= 0 || block_id > 255 {
                    return out;
                }
                if self.gamemode == 0 {
                    match self.inventory.slots[hs] {
                        Some(s) => {
                            let rem = s.count - 1;
                            self.inventory.slots[hs] = if rem == 0 {
                                None
                            } else {
                                Some(Slot { item_id: s.item_id, count: rem, metadata: s.metadata })
                            };
                            out.push(
                                PlayAction::SetSlot {
                                    slot: (36 + h) as i16,
                                    item_id: if rem > 0 {
                                        s.item_id
                                    } else {
                                        -1
                                    },
                                    count: rem,
                                    metadata: s.metadata,
                                },
                            );
                        },
                        None => {
                            return out;
                        },
                    }
                }
                self.held_item = held_item_id;
                out.push(PlayAction::HeldItem { item_id: held_item_id });
                out.push(PlayAction::SetBlock { x: tx, y: ty, z: tz, id: block_id, metadata: 0 });
            },
            PlayEvent::ArmAnimation => {
                out.push(PlayAction::Animation);
            },
            PlayEvent::CreativeInventory { slot, item_id, count, damage } => {
                if self.gamemode != 1 {
                    return out;
                }
                if let Some(i) = packet_to_internal(slot) {
                    self.inventory.slots[i] = if item_id == -1 {
                        None
                    } else {
                        Some(Slot { item_id, count, metadata: damage })
                    };
                    if i < 9 && i == hs {
                        self.held_item = item_id;
                        out.push(PlayAction::HeldItem { item_id });
                    }
                }
            },
            PlayEvent::ClickWindow { window_id, action_number } => {
                out.push(PlayAction::ConfirmTransaction { window_id, action_number, accepted: true });
            },
            PlayEvent::ClientStatus { action } => {
                if action == 0 && self.is_dead {
                    self.is_dead = false;
                    self.food = 20;
                    out.push(PlayAction::Respawn { gamemode: self.gamemode });
                }
            },
            PlayEvent::EntityAction { action } => {
                if action == 0 || action == 1 {
                    self.sneaking = action == 0;
                    out.push(PlayAction::FlagsChanged { sneaking: self.sneaking, sprinting: self.sprinting });
                } else if action == 3 && self.food <= 6 {
                    out.push(PlayAction::DenySprint);
                } else if action == 3 || action == 4 {
                    self.sprinting = action == 3;
                    out.push(PlayAction::FlagsChanged { sneaking: self.sneaking, sprinting: self.sprinting });
                }
            },
            PlayEvent::UseEntity { target, action } => {
                if action == 1 && self.gamemode != 3 {
                    let reach: u8 = if self.gamemode == 1 {
                        5
                    } else {
                        3
                    };
                    out.push(PlayAction::Attack { target, reach });
                }
            },
        }
        proof {
            assert(out@ =~= play_step_spec(old(self)@, e).1);
            assert(self@.slots =~= play_step_spec(old(self)@, e).0.slots);
        }
        out
    }
}

/// A player's selected slot stays within the hotbar, and dropping or
/// spending items never adds any: outside creative-mode inventory setting,
/// the held slot holds at most what it held.
pub proof fn law_play_step_keeps_hotbar(m: PlayModel, e: PlayEvent)
    requires
        m.held_slot < 9,
        m.slots.len() == 44,
        step_in_range(m, e),
    ensures
        play_step_spec(m, e).0.held_slot < 9,
        play_step_spec(m, e).0.slots.len() == 44,
        e !is HeldItemChange && e !is CreativeInventory ==> match (held_stack(m), held_stack(play_step_spec(m, e).0)) {
            (Some(a), Some(b)) => b.item_id == a.item_id && b.count <= a.count,
            (None, b) => b is None,
            _ => true,
        },
{
}

/// The abilities flags for a game mode: creative may fly, is flying,
/// cannot be hurt and builds instantly (15); spectator the first three
/// (7); others none.
pub open spec fn ability_flags(gamemode: u8) -> u8 {
    if gamemode == 1 {
        15
    } else if gamemode == 3 {
        7
    } else {
        0
    }
}

/// The abilities flags for a game mode.
pub fn abilities_for(gamemode: u8) -> (r: u8)
    ensures
        r == ability_flags(gamemode),
{
    match gamemode {
        1 => {
            assert(0x01u8 | 0x02u8 | 0x04u8 | 0x08u8 == 15u8) by (bit_vector);
            0x01 | 0x02 | 0x04 | 0x08
        },
        3 => {
            assert(0x01u8 | 0x02u8 | 0x04u8 == 7u8) by (bit_vector);
            0x01 | 0x02 | 0x04
        },
        _ => 0x00,
    }
}

/// One step of a player's joining, in the order they are taken.
#[derive(PartialEq, Eq, Structural, Clone, Copy, Debug)]
pub enum JoinStep {
    /// Tell the client the login succeeded, with its UUID and name.
    LoginSuccess,
    /// Start the game: the player's entity id, game mode, the overworld,
    /// the difficulty, the most players and the flat level type.
    JoinGame { entity_id: i32, gamemode: u8, difficulty: u8, max_players: u8 },
    /// Set the client's game mode.
    SetGamemode { gamemode: u8 },
    /// Add the player to the player list: the 1.8 entry (with the latency
    /// of everybody online after it, when anybody is), or the 1.7 one.
    PlayerList { modern: bool },
    /// The world spawn, in the packet of the client's version.
    SpawnPosition { modern: bool, x: i32, y: i32, z: i32 },
    /// The player's abilities.
    Abilities { flags: u8 },
    /// One chunk of the world.
    Chunk { x: i32, z: i32 },
    /// Place the player at (0.5, 4.5, 0.5), looking ahead.
    PositionAndLook,
    /// Register the player and tell everybody they joined.
    Announce,
    /// Show the player everybody else online.
    SpawnOthers,
    /// The player's own entity metadata.
    OwnMetadata,
    /// Full health and food.
    Health,
    /// No experience.
    Experience,
    /// The whole inventory window.
    InventoryWindow,
    /// The weather now.
    Weather,
}

/// The chunks sent on joining: x and z from -2 to 2, x the outer loop.
pub open spec fn join_chunks() -> Seq<JoinStep> {
    Seq::new(25, |i: int| JoinStep::Chunk { x: (i / 5 - 2) as i32, z: (i % 5 - 2) as i32 })
}

/// The steps of a player's joining with the given entity id, game mode,
/// difficulty and most players, for a client speaking 1.8 (`modern`) or
/// 1.7.
pub open spec fn join_plan_spec(entity_id: i32, gamemode: u8, difficulty: u8, max_players: u8, modern: bool) -> Seq<
    JoinStep,
> {
    seq![
        JoinStep::LoginSuccess,
        JoinStep::JoinGame { entity_id, gamemode, difficulty, max_players },
        JoinStep::SetGamemode { gamemode },
        JoinStep::PlayerList { modern },
        JoinStep::SpawnPosition { modern, x: 0, y: 64, z: 0 },
        JoinStep::Abilities { flags: 0 },
    ] + join_chunks() + seq![
        JoinStep::PositionAndLook,
        JoinStep::Announce,
        JoinStep::SpawnOthers,
        JoinStep::OwnMetadata,
        JoinStep::Health,
        JoinStep::Experience,
        JoinStep::InventoryWindow,
        JoinStep::Weather,
    ]
}

/// The steps of a player's joining, as `join_plan_spec` says; a client
/// speaks 1.8 when its protocol version is 47.
pub fn join_plan(entity_id: i32, gamemode: u8, difficulty: u8, max_players: u8, client_protocol: i32) -> (r: Vec<
    JoinStep,
>)
    ensures
        r@ == join_plan_spec(entity_id, gamemode, difficulty, max_players, client_protocol == 47),
{
    let modern = client_protocol == 47;
    let mut r: Vec<JoinStep> = Vec::new();
    r.push(JoinStep::LoginSuccess);
    r.push(JoinStep::JoinGame { entity_id, gamemode, difficulty, max_players });
    r.push(JoinStep::SetGamemode { gamemode });
    r.push(JoinStep::PlayerList { modern });
    r.push(JoinStep::SpawnPosition { modern, x: 0, y: 64, z: 0 });
    r.push(JoinStep::Abilities { flags: 0 });
    let ghost head = r@;
    let mut cx: i32 = -2;
    while cx <= 2
        invariant
            -2 <= cx <= 3,
            r@ == head + join_chunks().take((cx + 2) * 5),
        decreases 3 - cx,
    {
        let mut cz: i32 = -2;
        while cz <= 2
            invariant
                -2 <= cx <= 2,
                -2 <= cz <= 3,
                r@ == head + join_chunks().take((cx + 2) * 5 + (cz + 2)),
            decreases 3 - cz,
        {
            let ghost k = (cx + 2) * 5 + (cz + 2);
            r.push(JoinStep::Chunk { x: cx, z: cz });
            assert(join_chunks()[k] == JoinStep::Chunk { x: cx, z: cz });
            assert(r@ =~= head + join_chunks().take(k + 1));
            cz = cz + 1;
        }
        cx = cx + 1;
    }
    assert(join_chunks().take(25) =~= join_chunks());
    r.push(JoinStep::PositionAndLook);
    r.push(JoinStep::Announce);
    r.push(JoinStep::SpawnOthers);
    r.push(JoinStep::OwnMetadata);
    r.push(JoinStep::Health);
    r.push(JoinStep::Experience);
    r.push(JoinStep::InventoryWindow);
    r.push(JoinStep::Weather);
    assert(r@ =~= join_plan_spec(entity_id, gamemode, difficulty, max_players, modern));
    r
}

/// The inventory window sent on joining: the 36 slots of the hotbar and
/// main inventory as the protocol sends them, then 10 empty slots.
pub open spec fn join_window_view(slots: Seq<Option<Slot>>) -> Seq<(i16, u8, i16)> {
    Seq::new(
        46,
        |i: int|
            if i < 36 {
                match slots[i] {
                    Some(s) => (s.item_id, s.count, s.metadata),
                    None => (-1i16, 0u8, 0i16),
                }
            } else {
                (-1i16, 0u8, 0i16)
            },
    )
}

/// The inventory window sent on joining.
pub fn join_window(inventory: &Inventory) -> (r: Vec<(i16, u8, i16)>)
    ensures
        r@ == join_window_view(inventory.slots@),
{
    let mut r: Vec<(i16, u8, i16)> = Vec::new();
    let mut i: usize = 0;
    while i < 46
        invariant
            i <= 46,
            inventory.slots@.len() == 44,
            r@ == join_window_view(inventory.slots@).take(i as int),
        decreases 46 - i,
    {
        let v = if i < 36 {
            match inventory.slots[i] {
                Some(s) => (s.item_id, s.count, s.metadata),
                None => (-1i16, 0u8, 0i16),
            }
        } else {
            (-1i16, 0u8, 0i16)
        };
        r.push(v);
        i = i + 1;
        assert(r@ =~= join_window_view(inventory.slots@).take(i as int));
    }
    assert(r@ =~= join_window_view(inventory.slots@));
    r
}

/// Where a chat message of the player goes.
#[derive(PartialEq, Eq, Structural, Clone, Copy, Debug)]
pub enum ChatRoute {
    /// A command: the words after the '/' go to the command dispatcher.
    Command,
    /// A message to everybody, in the server's chat format.
    Broadcast,
    /// Nothing: the message is too long.
    Ignore,
}

/// The longest chat message, in bytes, a client may send: 256 for a client
/// whose brand names forge or fabric, 100 otherwise.
pub open spec fn chat_limit(brand: Option<Seq<char>>) -> int {
    match brand {
        Some(b) => if occurs_in(b, "forge"@) || occurs_in(b, "fabric"@) {
            256
        } else {
            100
        },
        None => 100,
    }
}

/// Where a chat message goes: a command when it starts with '/', else to
/// everybody unless its UTF-8 bytes are more than the client's limit.
pub fn chat_route(message: &str, brand: Option<&str>) -> (r: ChatRoute)
    ensures
        message@.len() > 0 && message@[0] == '/' ==> r == ChatRoute::Command,
        !(message@.len() > 0 && message@[0] == '/') ==> r == (if message.spec_bytes().len() > chat_limit(
            match brand {
                Some(b) => Some(b@),
                None => None,
            },
        ) {
            ChatRoute::Ignore
        } else {
            ChatRoute::Broadcast
        }),
{
    proof {
        reveal_strlit("forge");
        reveal_strlit("fabric");
    }
    let cs = chars_of(message);
    if cs.len() > 0 && cs[0] == '/' {
        return ChatRoute::Command;
    }
    let max_len: usize = match brand {
        Some(b) => if contains_str(b, "forge") || contains_str(b, "fabric") {
            256
        } else {
            100
        },
        None => 100,
    };
    let n = message.as_bytes().len();
    assert(max_len == chat_limit(
        match brand {
            Some(b) => Some(b@),
            None => None,
        },
    ));
    assert(n == message.spec_bytes().len());
    if n > max_len {
        ChatRoute::Ignore
    } else {
        ChatRoute::Broadcast
    }
}

/// How many items a slot holds.
pub open spec fn count_in(s: Option<Slot>) -> int {
    match s {
        Some(x) => x.count as int,
        None => 0,
    }
}

/// Dropping from the held stack throws out of it exactly what leaves the
/// slot: status 3 throws the whole stack, status 4 one item, each of the
/// held item and metadata; what is thrown and what stays make up what was
/// held, and the slot sent to the player is what stays.
pub proof fn law_drop_conserves_held_items(m: PlayModel, status: u8, x: i32, y: u8, z: i32)
    requires
        m.held_slot < 9,
        m.slots.len() == 44,
        status == 3 || status == 4,
        held_stack(m) matches Some(s) && s.count > 0,
    ensures
        ({
            let s = held_stack(m).unwrap();
            let (m2, acts) = play_step_spec(m, PlayEvent::Dig { status, x, y, z });
            &&& acts.len() == 3
            &&& acts[1] matches PlayAction::DropItem { item_id, count, metadata } && item_id == s.item_id
                && metadata == s.metadata && count + count_in(held_stack(m2)) == s.count && (status == 3 ==> count
                == s.count) && (status == 4 ==> count == 1)
            &&& held_stack(m2) matches Some(t) ==> t.item_id == s.item_id && t.metadata == s.metadata
            &&& acts[0] == hotbar_slot_packet(m.held_slot, held_stack(m2))
            &&& m2.held_slot == m.held_slot
        }),
{
}


/// Placing a block in survival mode spends exactly one item of the held
/// stack, of that item, leaves the other slots alone, and sets the held
/// item's block, metadata 0, in front of the clicked face.
pub proof fn law_survival_place_spends_one(m: PlayModel, x: i32, y: u8, z: i32, face: u8, held_item_id: i16)
    requires
        m.held_slot < 9,
        m.slots.len() == 44,
        m.gamemode == 0,
        places(m, x, y, z, face, held_item_id),
        held_stack(m) matches Some(s) && s.count > 0,
    ensures
        ({
            let s = held_stack(m).unwrap();
            let (m2, acts) = play_step_spec(m, PlayEvent::Place { x, y, z, face, held_item_id });
            let t = place_target(x, y, z, face).unwrap();
            &&& count_in(held_stack(m2)) == s.count - 1
            &&& held_stack(m2) matches Some(u) ==> u.item_id == s.item_id && u.metadata == s.metadata
            &&& forall|i: int| 0 <= i < 44 && i != m.held_slot ==> m2.slots[i] == m.slots[i]
            &&& acts.len() > 0
            &&& acts.last() == PlayAction::SetBlock {
                x: t.0 as i32,
                y: t.1 as i32,
                z: t.2 as i32,
                id: held_item_id as i32,
                metadata: 0,
            }
            &&& m2.held_item == held_item_id
        }),
{
}

/// A placement that does not put a block changes nothing and does
/// nothing; outside survival a placement spends no item.
pub proof fn law_place_without_block_or_in_creative(m: PlayModel, x: i32, y: u8, z: i32, face: u8, held_item_id: i16)
    requires
        m.held_slot < 9,
        m.slots.len() == 44,
    ensures
        !places(m, x, y, z, face, held_item_id) ==> play_step_spec(
            m,
            PlayEvent::Place { x, y, z, face, held_item_id },
        ) == (m, Seq::<PlayAction>::empty()),
        m.gamemode != 0 ==> play_step_spec(m, PlayEvent::Place { x, y, z, face, held_item_id }).0.slots == m.slots,
{
}

/// Selecting a hotbar slot selects it, kept to 0 to 8, holds that slot's
/// item (-1 for none), and changes no slot.
pub proof fn law_held_item_change(m: PlayModel, slot: i16)
    requires
        m.held_slot < 9,
        m.slots.len() == 44,
    ensures
        ({
            let (m2, acts) = play_step_spec(m, PlayEvent::HeldItemChange { slot });
            let h: int = if slot < 0 { 0 } else if slot > 8 { 8 } else { slot as int };
            &&& m2.held_slot == h
            &&& m2.held_item == (match m.slots[h] { Some(s) => s.item_id, None => -1i16 })
            &&& m2.slots == m.slots
            &&& acts == seq![PlayAction::HeldSlotChanged { slot: h as u8 }]
        }),
{
}

/// A keep-alive is answered with a latency measurement exactly when its id
/// is the one waiting, and afterwards none waits.
pub proof fn law_keep_alive(m: PlayModel, id: i32)
    ensures
        play_step_spec(m, PlayEvent::KeepAlive { id }).0.pending_keep_alive is None,
        play_step_spec(m, PlayEvent::KeepAlive { id }).1.len() > 0 <==> m.pending_keep_alive == Some(id),
        play_step_spec(m, PlayEvent::KeepAlive { id }).0.slots == m.slots,
{
}

/// In creative mode, setting a window slot puts exactly the given stack
/// (nothing for item -1) in the inventory slot it stands for, and nothing
/// else changes; outside creative mode it changes nothing.
pub proof fn law_creative_sets_one_slot(m: PlayModel, slot: i16, item_id: i16, count: u8, damage: i16)
    requires
        m.slots.len() == 44,
        m.held_slot < 9,
    ensures
        ({
            let (m2, acts) = play_step_spec(m, PlayEvent::CreativeInventory { slot, item_id, count, damage });
            &&& m.gamemode != 1 ==> m2 == m && acts.len() == 0
            &&& m.gamemode == 1 ==> match window_slot_index(slot) {
                None => m2 == m,
                Some(i) => {
                    &&& 0 <= i < 44
                    &&& m2.slots[i] == (if item_id == -1 {
                        None
                    } else {
                        Some(Slot { item_id, count, metadata: damage })
                    })
                    &&& forall|j: int| 0 <= j < 44 && j != i ==> m2.slots[j] == m.slots[j]
                    &&& m2.slots.len() == 44
                },
            }
        }),
{
}

/// A sprint is refused, changing nothing, with food 6 or less; otherwise
/// starting or stopping to sneak or sprint records just that.
pub proof fn law_sneak_and_sprint(m: PlayModel, action: i32)
    ensures
        ({
            let (m2, acts) = play_step_spec(m, PlayEvent::EntityAction { action });
            &&& action == 3 && m.food <= 6 ==> m2 == m && acts == seq![PlayAction::DenySprint]
            &&& action == 3 && m.food > 6 ==> m2.sprinting && m2.sneaking == m.sneaking
            &&& action == 4 ==> !m2.sprinting && m2.sneaking == m.sneaking
            &&& action == 0 ==> m2.sneaking && m2.sprinting == m.sprinting
            &&& action == 1 ==> !m2.sneaking && m2.sprinting == m.sprinting
            &&& m2.slots == m.slots && m2.food == m.food
        }),
{
}


/// Digging: starting breaks the block at once in creative mode (air set
/// there) and starts breaking it in survival (stage 0 shown, the block
/// remembered); finishing in survival breaks the block being broken, and
/// only that one; cancelling forgets it. No slot changes.
pub proof fn law_digging(m: PlayModel, status: u8, x: i32, y: u8, z: i32)
    requires
        status <= 2,
    ensures
        ({
            let (m2, acts) = play_step_spec(m, PlayEvent::Dig { status, x, y, z });
            &&& m2.slots == m.slots
            &&& status == 0 && m.gamemode == 1 ==> acts == seq![
                PlayAction::SetBlock { x, y: y as i32, z, id: 0, metadata: 0 },
            ]
            &&& status == 0 && m.gamemode == 0 ==> m2.breaking_block == Some((x, y as i32, z))
            &&& status == 2 && m.gamemode == 0 ==> m2.breaking_block is None && match m.breaking_block {
                Some(b) => acts.len() == 2 && acts[0] == PlayAction::BreakBlock { x: b.0, y: b.1, z: b.2 },
                None => acts.len() == 0,
            }
            &&& status == 1 ==> m2.breaking_block is None
            &&& (m.gamemode == 2 || m.gamemode == 3) && status != 1 ==> acts.len() == 0
        }),
{
}

} // verus!
