//! Windows, slots and the player's inventory.

use vstd::prelude::*;
use vstd::utf8::*;
use crate::protocol::fields::{lemma_take_byte, take_byte, take_i16};
use crate::protocol::packets::play::entity::bool_byte;
use crate::protocol::packets::{reader_for, PacketOut, ProtocolError};
use crate::protocol::wire::{be_bytes, string_enc, varint_enc};
use crate::protocol::writer::Writer;

verus! {

/// A window closed, by the client or by the server.
#[derive(Debug)]
pub struct CloseWindow {
    pub window_id: u8,
}

impl CloseWindow {
    /// Reads the window id.
    pub fn decode(buf: &[u8]) -> (r: Result<Self, ProtocolError>)
        requires
            take_byte(buf@) is Some,
        ensures
            r matches Ok(c) && c.window_id == take_byte(buf@).unwrap().0,
    {
        let mut reader = reader_for(buf);
        let window_id = reader.read_byte();
        Ok(CloseWindow { window_id })
    }
}

impl PacketOut for CloseWindow {
    open spec fn encodable(&self) -> bool {
        true
    }

    open spec fn wire(&self) -> Seq<u8> {
        varint_enc(0x2E) + seq![self.window_id]
    }

    fn encode(&self, writer: &mut Writer) -> (r: std::io::Result<()>) {
        writer.write_varint(0x2E);
        writer.write_byte(self.window_id);
        assert(writer.data@ =~= old(writer).data@ + self.wire());
        Ok(())
    }
}

/// The window id read back from the bytes of a close-window packet, after
/// its packet id, is the id written.
pub proof fn law_close_window_roundtrip(c: CloseWindow)
    ensures
        take_byte(c.wire().skip(varint_enc(0x2E).len() as int)) == Some((c.window_id, Seq::<u8>::empty())),
{
    lemma_take_byte(c.window_id, Seq::empty());
    assert(c.wire().skip(varint_enc(0x2E).len() as int) =~= seq![c.window_id] + Seq::<u8>::empty());
}

/// A click in a window.
#[derive(Debug)]
pub struct ClickWindow {
    pub window_id: u8,
    pub slot: i16,
    pub button: u8,
    pub action_number: i16,
    pub mode: u8,
    pub clicked_item_id: i16,
}

/// The fields of a click, in order.
pub open spec fn click_fields(s: Seq<u8>) -> Option<(u8, i16, u8, i16, u8, i16)> {
    match take_byte(s) {
        Some((window, s1)) => match take_i16(s1) {
            Some((slot, s2)) => match take_byte(s2) {
                Some((button, s3)) => match take_i16(s3) {
                    Some((action, s4)) => match take_byte(s4) {
                        Some((mode, s5)) => match take_i16(s5) {
                            Some((item, _)) => Some((window, slot, button, action, mode, item)),
                            None => None,
                        },
                        None => None,
                    },
                    None => None,
                },
                None => None,
            },
            None => None,
        },
        None => None,
    }
}

impl ClickWindow {
    /// Reads a click.
    pub fn decode(buf: &[u8]) -> (r: Result<Self, ProtocolError>)
        requires
            click_fields(buf@) is Some,
        ensures
            r matches Ok(c) && click_fields(buf@) == Some(
                (c.window_id, c.slot, c.button, c.action_number, c.mode, c.clicked_item_id),
            ),
    {
        let mut reader = reader_for(buf);
        let window_id = reader.read_byte();
        let slot = reader.read_i16();
        let button = reader.read_byte();
        let action_number = reader.read_i16();
        let mode = reader.read_byte();
        let clicked_item_id = reader.read_i16();
        Ok(ClickWindow { window_id, slot, button, action_number, mode, clicked_item_id })
    }
}

/// A window opened for the client.
#[derive(Debug)]
pub struct OpenWindow {
    pub window_id: u8,
    pub window_type: String,
    pub title: String,
    pub slot_count: u8,
}

impl PacketOut for OpenWindow {
    open spec fn encodable(&self) -> bool {
        encode_utf8(self.window_type@).len() <= 32767 && encode_utf8(self.title@).len() <= 32767
    }

    open spec fn wire(&self) -> Seq<u8> {
        varint_enc(0x2D) + seq![self.window_id] + string_enc(self.window_type@) + string_enc(self.title@) + seq![
            self.slot_count,
            0u8,
        ]
    }

    fn encode(&self, writer: &mut Writer) -> (r: std::io::Result<()>) {
        writer.write_varint(0x2D);
        writer.write_byte(self.window_id);
        writer.write_string(self.window_type.as_str());
        writer.write_string(self.title.as_str());
        writer.write_byte(self.slot_count);
        writer.write_bool(false);
        assert(writer.data@ =~= old(writer).data@ + self.wire());
        Ok(())
    }
}

/// Whether the server accepted a click.
#[derive(Debug)]
pub struct ConfirmTransaction {
    pub window_id: u8,
    pub action_number: i16,
    pub accepted: bool,
}

impl PacketOut for ConfirmTransaction {
    open spec fn encodable(&self) -> bool {
        true
    }

    open spec fn wire(&self) -> Seq<u8> {
        varint_enc(0x32) + seq![self.window_id] + be_bytes(self.action_number as int, 2) + seq![
            bool_byte(self.accepted),
        ]
    }

    fn encode(&self, writer: &mut Writer) -> (r: std::io::Result<()>) {
        writer.write_varint(0x32);
        writer.write_byte(self.window_id);
        writer.write_i16(self.action_number);
        writer.write_bool(self.accepted);
        assert(writer.data@ =~= old(writer).data@ + self.wire());
        Ok(())
    }
}

/// The content of one slot of a window, sent to the client.
#[derive(Debug)]
pub struct SetSlot {
    pub window_id: i8,
    pub slot: i16,
    pub item_id: i16,
    pub count: u8,
    pub metadata: i16,
}

impl PacketOut for SetSlot {
    open spec fn encodable(&self) -> bool {
        true
    }

    /// An empty slot (item id -1) has no count, metadata or NBT byte.
    open spec fn wire(&self) -> Seq<u8> {
        varint_enc(0x2F) + seq![self.window_id as u8] + be_bytes(self.slot as int, 2) + be_bytes(
            self.item_id as int,
            2,
        ) + if self.item_id != -1 {
            seq![self.count] + be_bytes(self.metadata as int, 2) + seq![0u8]
        } else {
            seq![]
        }
    }

    fn encode(&self, writer: &mut Writer) -> (r: std::io::Result<()>) {
        writer.write_varint(0x2F);
        writer.write_byte(self.window_id as u8);
        writer.write_i16(self.slot);
        writer.write_i16(self.item_id);
        if self.item_id != -1 {
            writer.write_byte(self.count);
            writer.write_i16(self.metadata);
            writer.write_byte(0);
        }
        assert(writer.data@ =~= old(writer).data@ + self.wire());
        Ok(())
    }
}

/// A stack of items.
#[derive(Debug, Clone, Copy, PartialEq, Eq, Structural)]
pub struct Slot {
    pub item_id: i16,
    pub count: u8,
    pub metadata: i16,
}

/// The slots of a player's inventory: 0 to 8 the hotbar, 9 to 35 the main
/// inventory, 36 to 39 the armour, 40 to 43 the crafting grid.
pub struct Inventory {
    pub slots: [Option<Slot>; 44],
}

/// Whether a slot holds a stack of the item that can take more.
pub open spec fn can_stack(slot: Option<Slot>, item_id: i16, metadata: i16) -> bool {
    slot matches Some(s) && s.item_id == item_id && s.metadata == metadata && s.count < 64
}

/// The first slot from `k` on where the item stacks.
pub open spec fn stack_index(slots: Seq<Option<Slot>>, item_id: i16, metadata: i16, k: int) -> Option<int>
    decreases slots.len() - k,
{
    if k >= slots.len() || k < 0 {
        None
    } else if can_stack(slots[k], item_id, metadata) {
        Some(k)
    } else {
        stack_index(slots, item_id, metadata, k + 1)
    }
}

/// The first empty slot from `k` on, below `end`.
pub open spec fn empty_index(slots: Seq<Option<Slot>>, k: int, end: int) -> Option<int>
    decreases end - k,
{
    if k >= end || k < 0 || k >= slots.len() {
        None
    } else if slots[k] is None {
        Some(k)
    } else {
        empty_index(slots, k + 1, end)
    }
}

/// The slot number the protocol uses for an inventory index.
pub open spec fn packet_slot(index: int) -> i16 {
    if 0 <= index <= 8 {
        (index + 36) as i16
    } else if 36 <= index <= 39 {
        (index - 36 + 5) as i16
    } else {
        index as i16
    }
}

/// The inventory index of a protocol slot number, if it has one.
pub open spec fn internal_slot(slot: i16) -> Option<int> {
    if 0 <= slot <= 35 {
        Some(slot as int)
    } else if 100 <= slot <= 103 {
        Some(slot - 100 + 36)
    } else if 80 <= slot <= 83 {
        Some(slot - 80 + 40)
    } else {
        None
    }
}

/// Where an item goes and what the inventory holds after: the first stack
/// of it that is not full grows by as much as fits, up to 64; otherwise the
/// first empty slot of the hotbar and main inventory takes it; otherwise
/// nothing changes.
pub open spec fn after_add(slots: Seq<Option<Slot>>, item_id: i16, count: u8, metadata: i16) -> (
    Option<i16>,
    Seq<Option<Slot>>,
) {
    match stack_index(slots, item_id, metadata, 0) {
        Some(i) => {
            let s = slots[i]->Some_0;
            let added = if count < 64 - s.count {
                count as int
            } else {
                64 - s.count
            };
            (Some(packet_slot(i)), slots.update(i, Some(Slot { count: (s.count + added) as u8, ..s })))
        },
        None => match empty_index(slots, 0, 36) {
            Some(i) => (
                Some(packet_slot(i)),
                slots.update(i, Some(Slot { item_id, count, metadata })),
            ),
            None => (None, slots),
        },
    }
}

impl Inventory {
    /// An empty inventory.
    pub fn new() -> (inv: Self)
        ensures
            forall|i: int| 0 <= i < 44 ==> inv.slots@[i] is None,
    {
        Inventory { slots: [None; 44] }
    }

    /// Puts an item in the inventory and gives the protocol slot it went
    /// to, as `after_add` says.
    pub fn add_item_get_slot(&mut self, item_id: i16, count: u8, metadata: i16) -> (r: Option<i16>)
        ensures
            (r, final(self).slots@) == after_add(old(self).slots@, item_id, count, metadata),
    {
        let mut i: usize = 0;
        while i < 44
            invariant
                i <= 44,
                self.slots@ == old(self).slots@,
                stack_index(self.slots@, item_id, metadata, 0) == stack_index(self.slots@, item_id, metadata, i as int),
            decreases 44 - i,
        {
            if let Some(s) = self.slots[i] {
                if s.item_id == item_id && s.metadata == metadata && s.count < 64 {
                    let room = 64 - s.count;
                    let added = if count < room {
                        count
                    } else {
                        room
                    };
                    self.slots[i] = Some(Slot { count: s.count + added, ..s });
                    return Some(Self::internal_to_packet(i));
                }
            }
            i = i + 1;
        }
        let mut j: usize = 0;
        while j < 36
            invariant
                j <= 36,
                self.slots@ == old(self).slots@,
                stack_index(self.slots@, item_id, metadata, 0) is None,
                empty_index(self.slots@, 0, 36) == empty_index(self.slots@, j as int, 36),
            decreases 36 - j,
        {
            if self.slots[j].is_none() {
                self.slots[j] = Some(Slot { item_id, count, metadata });
                return Some(Self::internal_to_packet(j));
            }
            j = j + 1;
        }
        None
    }

    /// The protocol slot number of an inventory index.
    fn internal_to_packet(index: usize) -> (r: i16)
        requires
            index < 44,
        ensures
            r == packet_slot(index as int),
    {
        if index <= 8 {
            (index + 36) as i16
        } else if index <= 35 {
            index as i16
        } else if index <= 39 {
            (index - 36 + 5) as i16
        } else {
            index as i16
        }
    }

    /// The inventory index of a protocol slot number.
    fn packet_to_internal(slot: i16) -> (r: Option<usize>)
        ensures
            r matches Some(i) ==> internal_slot(slot) == Some(i as int),
            r is None ==> internal_slot(slot) is None,
    {
        if 0 <= slot && slot <= 8 {
            Some(slot as usize)
        } else if 9 <= slot && slot <= 35 {
            Some(slot as usize)
        } else if 100 <= slot && slot <= 103 {
            Some((slot - 100 + 36) as usize)
        } else if 80 <= slot && slot <= 83 {
            Some((slot - 80 + 40) as usize)
        } else {
            None
        }
    }
}

/// The first slot holding an item, if any.
pub open spec fn item_index(slots: Seq<Option<Slot>>, item_id: i16, k: int) -> Option<int>
    decreases slots.len() - k,
{
    if k >= slots.len() || k < 0 {
        None
    } else if slots[k] matches Some(s) && s.item_id == item_id {
        Some(k)
    } else {
        item_index(slots, item_id, k + 1)
    }
}

/// The slots after one item is taken from the first stack of `item_id`:
/// the stack shrinks by one and is gone when it held one; unchanged when
/// there is no such stack.
pub open spec fn after_take_one(slots: Seq<Option<Slot>>, item_id: i16) -> Seq<Option<Slot>> {
    match item_index(slots, item_id, 0) {
        Some(i) => {
            let s = slots[i]->Some_0;
            slots.update(i, if s.count == 1 { None } else { Some(Slot { count: (s.count - 1) as u8, ..s }) })
        },
        None => slots,
    }
}

/// The item id of an arrow.
pub open spec fn arrow_id() -> i16 {
    262
}

/// The damage, as metadata, that a held tool has after `cost` more, and
/// whether it broke: it breaks, and its slot empties, once its damage
/// reaches the maximum durability that `max_durability` gives for it; an
/// item with no durability, or an empty hand, takes none.
pub open spec fn after_wear(slot: Option<Slot>, cost: i16, max_durability: Option<i16>) -> (Option<Slot>, bool) {
    match (slot, max_durability) {
        (Some(s), Some(max)) => if s.metadata + cost >= max {
            (None, true)
        } else {
            (Some(Slot { metadata: (s.metadata + cost) as i16, ..s }), false)
        },
        _ => (slot, false),
    }
}

impl Inventory {
    /// Takes one arrow from the first stack of arrows, the stack going when
    /// it held one; nothing changes without arrows. That stack must not be
    /// empty.
    pub fn consume_arrow_from_inventory(&mut self)
        requires
            item_index(old(self).slots@, arrow_id(), 0) matches Some(i) ==> old(self).slots@[i]->Some_0.count > 0,
        ensures
            final(self).slots@ == after_take_one(old(self).slots@, arrow_id()),
    {
        let mut i: usize = 0;
        while i < 44
            invariant
                i <= 44,
                self.slots@ == old(self).slots@,
                item_index(self.slots@, arrow_id(), 0) == item_index(self.slots@, arrow_id(), i as int),
                item_index(old(self).slots@, arrow_id(), 0) matches Some(j) ==> old(self).slots@[j]->Some_0.count > 0,
            decreases 44 - i,
        {
            match self.slots[i] {
                Some(s) => {
                    if s.item_id == 262 {
                        let n = s.count - 1;
                        self.slots[i] = if n == 0 {
                            None
                        } else {
                            Some(Slot { item_id: s.item_id, count: n, metadata: s.metadata })
                        };
                        return;
                    }
                },
                None => {},
            }
            i = i + 1;
        }
    }

    /// Wears the item in slot `held` by `cost`, where
    /// `max_durability` is the item's maximum durability (`None` for an
    /// item that does not wear): as `after_wear` says, giving whether it
    /// broke. The damage must stay within an `i16`.
    pub fn damage_item(&mut self, held: u8, cost: i16, max_durability: Option<i16>) -> (broke: bool)
        requires
            held < 44,
            max_durability is Some ==> (old(self).slots@[held as int] matches Some(s) ==> i16::MIN <= s.metadata + cost
                <= i16::MAX),
        ensures
            (final(self).slots@[held as int], broke) == after_wear(old(self).slots@[held as int], cost, max_durability),
            final(self).slots@ == old(self).slots@.update(held as int, final(self).slots@[held as int]),
    {
        let idx = held as usize;
        match (self.slots[idx], max_durability) {
            (Some(s), Some(max)) => {
                let m = s.metadata + cost;
                if m >= max {
                    self.slots[idx] = None;
                    true
                } else {
                    self.slots[idx] = Some(Slot { item_id: s.item_id, count: s.count, metadata: m });
                    false
                }
            },
            _ => false,
        }
    }
}

} // verus!
