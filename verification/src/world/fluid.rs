//! Water and lava: their block ids, metadata and buckets.

use vstd::prelude::*;
use crate::world::blocks::BlockBehavior;

verus! {

#[derive(Debug, Clone, Copy, PartialEq, Eq, Structural)]
pub enum FluidKind {
    Water,
    Lava,
}

/// A fluid block: its kind and whether it is the flowing variant.
#[derive(Debug, Clone, Copy, PartialEq, Eq, Structural)]
pub struct Fluid {
    pub kind: FluidKind,
    pub flowing: bool,
}

/// The block id of a fluid: 8 and 9 for flowing and still water, 10 and 11
/// for lava.
pub open spec fn fluid_id(f: Fluid) -> u8 {
    match (f.kind, f.flowing) {
        (FluidKind::Water, true) => 8,
        (FluidKind::Water, false) => 9,
        (FluidKind::Lava, true) => 10,
        (FluidKind::Lava, false) => 11,
    }
}

/// The fluid of a block id, if it is one.
pub open spec fn fluid_of(id: u8) -> Option<Fluid> {
    if id == 8 {
        Some(Fluid { kind: FluidKind::Water, flowing: true })
    } else if id == 9 {
        Some(Fluid { kind: FluidKind::Water, flowing: false })
    } else if id == 10 {
        Some(Fluid { kind: FluidKind::Lava, flowing: true })
    } else if id == 11 {
        Some(Fluid { kind: FluidKind::Lava, flowing: false })
    } else {
        None
    }
}

/// Block ids that a placed block or a flowing fluid may replace: air,
/// sapling, tall grass, dead bush, flowers, mushrooms and fire.
pub open spec fn replaceable_id(id: u8) -> bool {
    id == 0 || id == 6 || id == 31 || id == 32 || id == 37 || id == 38 || id == 39 || id == 40 || id == 51
}

impl Fluid {
    pub fn flowing_water() -> (f: Fluid)
        ensures
            f == (Fluid { kind: FluidKind::Water, flowing: true }),
    {
        Fluid { kind: FluidKind::Water, flowing: true }
    }

    pub fn stationary_water() -> (f: Fluid)
        ensures
            f == (Fluid { kind: FluidKind::Water, flowing: false }),
    {
        Fluid { kind: FluidKind::Water, flowing: false }
    }

    pub fn flowing_lava() -> (f: Fluid)
        ensures
            f == (Fluid { kind: FluidKind::Lava, flowing: true }),
    {
        Fluid { kind: FluidKind::Lava, flowing: true }
    }

    pub fn stationary_lava() -> (f: Fluid)
        ensures
            f == (Fluid { kind: FluidKind::Lava, flowing: false }),
    {
        Fluid { kind: FluidKind::Lava, flowing: false }
    }

    pub fn block_id(&self) -> (id: u8)
        ensures
            id == fluid_id(*self),
    {
        match (self.kind, self.flowing) {
            (FluidKind::Water, true) => 8,
            (FluidKind::Water, false) => 9,
            (FluidKind::Lava, true) => 10,
            (FluidKind::Lava, false) => 11,
        }
    }

    pub fn from_block_id(id: u8) -> (f: Option<Fluid>)
        ensures
            f == fluid_of(id),
    {
        match id {
            8 => Some(Fluid::flowing_water()),
            9 => Some(Fluid::stationary_water()),
            10 => Some(Fluid::flowing_lava()),
            11 => Some(Fluid::stationary_lava()),
            _ => None,
        }
    }

    /// The flowing fluid of the same kind.
    pub fn flowing_variant(&self) -> (f: Fluid)
        ensures
            f == (Fluid { kind: self.kind, flowing: true }),
    {
        Fluid { kind: self.kind, flowing: true }
    }

    /// The item id of the bucket holding this fluid: 326 water, 327 lava.
    pub fn bucket_item(&self) -> (item: i16)
        ensures
            item == (if self.kind == FluidKind::Water { 326i16 } else { 327i16 }),
    {
        match self.kind {
            FluidKind::Water => 326,
            FluidKind::Lava => 327,
        }
    }

    /// The still fluid a bucket item places.
    pub fn from_bucket_item(item_id: i16) -> (f: Option<Fluid>)
        ensures
            f == (if item_id == 326 {
                Some(Fluid { kind: FluidKind::Water, flowing: false })
            } else if item_id == 327 {
                Some(Fluid { kind: FluidKind::Lava, flowing: false })
            } else {
                None
            }),
    {
        match item_id {
            326 => Some(Fluid::stationary_water()),
            327 => Some(Fluid::stationary_lava()),
            _ => None,
        }
    }

    pub fn is_water(id: u8) -> (r: bool)
        ensures
            r == (id == 8 || id == 9),
    {
        id == 8 || id == 9
    }

    pub fn is_lava(id: u8) -> (r: bool)
        ensures
            r == (id == 10 || id == 11),
    {
        id == 10 || id == 11
    }

    pub fn is_fluid(id: u8) -> (r: bool)
        ensures
            r == (8 <= id <= 11),
    {
        8 <= id && id <= 11
    }

    /// A source block: a fluid id with metadata neither falling nor decayed.
    pub fn is_source(id: u8, metadata: u8) -> (r: bool)
        ensures
            r == (8 <= id <= 11 && metadata % 16 == 0),
    {
        let r = 8 <= id && id <= 11 && (metadata & 0x8) == 0 && (metadata & 0x7) == 0;
        assert(((metadata & 0x8) == 0 && (metadata & 0x7) == 0) == (metadata % 16 == 0)) by (bit_vector);
        r
    }

    /// The decay level, the low three bits of the metadata.
    pub fn flow_level(_id: u8, metadata: u8) -> (r: u8)
        ensures
            r == metadata % 8,
    {
        let r = metadata & 0x7;
        assert(metadata & 0x7 == metadata % 8) by (bit_vector);
        r
    }

    /// Whether the falling bit of the metadata is set.
    pub fn is_falling(metadata: u8) -> (r: bool)
        ensures
            r == ((metadata / 8) % 2 == 1),
    {
        let r = (metadata & 0x8) != 0;
        assert(((metadata & 0x8) != 0) == ((metadata / 8) % 2 == 1)) by (bit_vector);
        r
    }

    /// Whether two block ids are fluids of the same kind.
    pub fn same_kind(a: u8, b: u8) -> (r: bool)
        ensures
            r == (match (fluid_of(a), fluid_of(b)) {
                (Some(fa), Some(fb)) => fa.kind == fb.kind,
                _ => false,
            }),
    {
        match (Fluid::from_block_id(a), Fluid::from_block_id(b)) {
            (Some(fa), Some(fb)) => fa.kind == fb.kind,
            _ => false,
        }
    }
}

impl BlockBehavior for Fluid {
    fn id(&self) -> (r: u8)
        ensures
            r == fluid_id(*self),
    {
        self.block_id()
    }

    fn is_solid(&self) -> (r: bool)
        ensures
            r == false,
    {
        false
    }

    fn is_transparent(&self) -> (r: bool)
        ensures
            r == true,
    {
        true
    }

    fn light_emission(&self) -> (r: u8)
        ensures
            r == (if self.kind == FluidKind::Lava { 15u8 } else { 0u8 }),
    {
        match self.kind {
            FluidKind::Lava => 15,
            FluidKind::Water => 0,
        }
    }

    fn drops_self(&self) -> (r: bool)
        ensures
            r == false,
    {
        false
    }
}

/// Whether a block may be replaced by a placed block or flowing fluid.
pub fn is_replaceable(block_id: u8) -> (r: bool)
    ensures
        r == replaceable_id(block_id),
{
    matches!(block_id, 0 | 6 | 31 | 32 | 37 | 38 | 39 | 40 | 51)
}

} // verus!
