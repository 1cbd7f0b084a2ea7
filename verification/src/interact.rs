//! What using an item on a block does to the world: filling a bucket from
//! a fluid source, pouring one out, and putting up a sign. Aiming (which
//! block a bucket looks at when no block was clicked) and the rotation of
//! a standing sign come from the player's look, floating-point numbers
//! that the server around this library turns into the arguments here.

use vstd::prelude::*;
use crate::play_state::place_target;
use crate::world::blocks::{air_block, Block, BlockPos};
use crate::world::fluid::{fluid_id, fluid_of, is_replaceable, replaceable_id, Fluid, FluidKind};
use crate::world::generator::FlatWorldGenerator;
use crate::world::world_blocks::{after_set, WorldBlocks};

verus! {

/// What the server does after an item was used on a block.
#[derive(PartialEq, Eq, Structural, Clone, Copy, Debug)]
pub enum ItemOnBlock {
    /// The item does nothing there.
    Nothing,
    /// A fluid source went into the bucket; air is at (`x`, `y`, `z`). Tell
    /// every player, let the fluids around flow, play the water or lava
    /// sound there, and give the player `filled` in place of the held
    /// bucket where it names an item.
    BucketFilled { x: i32, y: i32, z: i32, lava: bool, filled: Option<i16> },
    /// A sign of block `id` and `metadata` is at (`x`, `y`, `z`). Tell every
    /// player, add an empty sign there, open its editor for the player, and
    /// take one held item when `consume`.
    SignPlaced { x: i32, y: i32, z: i32, id: u8, metadata: u8, consume: bool },
    /// A fluid source of block `id` is at (`x`, `y`, `z`). Tell every player,
    /// let it flow, play its sound, and give the player an empty bucket in
    /// place of the held one when `emptied`.
    FluidPoured { x: i32, y: i32, z: i32, id: u8, lava: bool, emptied: bool },
}

/// What using `held_item` on face `face` (0 to 5, anything else none) of
/// the block at (`x`, `y`, `z`) does, in game mode `gamemode`, and the
/// block it sets. An empty bucket (325) takes the fluid source above the
/// block `hit` it aims at, which is cleared in the clicked column at that
/// height; a sign (323) stands on a top face with `rotation`, or hangs on
/// a side face; a water or lava bucket (326, 327) pours a source in front
/// of the face into air or a replaceable block within the world's height.
/// Survival mode (0) spends the items.
pub open spec fn item_on_block(
    w: WorldBlocks,
    g: FlatWorldGenerator,
    held_item: i16,
    x: i32,
    y: u8,
    z: i32,
    face: u8,
    gamemode: u8,
    hit: Option<(i32, i32, i32)>,
    rotation: u8,
) -> (ItemOnBlock, Option<(BlockPos, Block)>) {
    if held_item == 325 {
        match hit {
            None => (ItemOnBlock::Nothing, None),
            Some(h) => {
                let ty = h.1 + 1;
                let t = w.block_at(g, (h.0, ty as u8, h.2));
                match fluid_of(t.id) {
                    Some(f) => if t.metadata % 16 == 0 {
                        (
                            ItemOnBlock::BucketFilled {
                                x,
                                y: ty as i32,
                                z,
                                lava: f.kind == FluidKind::Lava,
                                filled: if gamemode == 0 {
                                    Some(if f.kind == FluidKind::Water { 326i16 } else { 327i16 })
                                } else {
                                    None
                                },
                            },
                            Some(((x, ty as u8, z), air_block())),
                        )
                    } else {
                        (ItemOnBlock::Nothing, None)
                    },
                    None => (ItemOnBlock::Nothing, None),
                }
            },
        }
    } else if held_item == 323 {
        if face == 1 || (2 <= face <= 5) {
            let t = place_target(x, y, z, face).unwrap();
            let (id, meta) = if face == 1 {
                (63u8, rotation)
            } else {
                (68u8, face)
            };
            (
                ItemOnBlock::SignPlaced {
                    x: t.0 as i32,
                    y: t.1 as i32,
                    z: t.2 as i32,
                    id,
                    metadata: meta,
                    consume: gamemode == 0,
                },
                Some(((t.0 as i32, t.1 as u8, t.2 as i32), Block { id, metadata: meta })),
            )
        } else {
            (ItemOnBlock::Nothing, None)
        }
    } else if (held_item == 326 || held_item == 327) && face <= 5 {
        let t = place_target(x, y, z, face).unwrap();
        let f = Fluid { kind: if held_item == 326 { FluidKind::Water } else { FluidKind::Lava }, flowing: false };
        if !(0 <= t.1 <= 255) {
            (ItemOnBlock::Nothing, None)
        } else {
            let existing = w.block_at(g, (t.0 as i32, t.1 as u8, t.2 as i32));
            if existing.id != 0 && !replaceable_id(existing.id) {
                (ItemOnBlock::Nothing, None)
            } else {
                (
                    ItemOnBlock::FluidPoured {
                        x: t.0 as i32,
                        y: t.1 as i32,
                        z: t.2 as i32,
                        id: fluid_id(f),
                        lava: held_item == 327,
                        emptied: gamemode == 0,
                    },
                    Some(((t.0 as i32, t.1 as u8, t.2 as i32), Block { id: fluid_id(f), metadata: 0 })),
                )
            }
        }
    } else {
        (ItemOnBlock::Nothing, None)
    }
}

/// The block in front of face `face` (0 to 5) of (`x`, `y`, `z`).
fn placement(x: i32, y: u8, z: i32, face: u8) -> (r: (i32, i32, i32))
    requires
        face <= 5,
        i32::MIN < x < i32::MAX,
        i32::MIN < z < i32::MAX,
    ensures
        place_target(x, y, z, face) == Some((r.0 as int, r.1 as int, r.2 as int)),
{
    match face {
        0 => (x, y as i32 - 1, z),
        1 => (x, y as i32 + 1, z),
        2 => (x, y as i32, z - 1),
        3 => (x, y as i32, z + 1),
        4 => (x - 1, y as i32, z),
        _ => (x + 1, y as i32, z),
    }
}

/// Uses the held item on a block, changing the world as `item_on_block`
/// says, and tells what else to do.
pub fn use_item_on_block(
    world: &mut WorldBlocks,
    generator: &FlatWorldGenerator,
    held_item: i16,
    x: i32,
    y: u8,
    z: i32,
    face: u8,
    gamemode: u8,
    hit: Option<(i32, i32, i32)>,
    rotation: u8,
) -> (r: ItemOnBlock)
    requires
        old(world).wf(),
        i32::MIN < x < i32::MAX,
        i32::MIN < z < i32::MAX,
        hit matches Some(h) ==> h.1 < i32::MAX,
    ensures
        final(world).wf(),
        r == item_on_block(*old(world), *generator, held_item, x, y, z, face, gamemode, hit, rotation).0,
        final(world).cached() == old(world).cached(),
        final(world).modified() == match item_on_block(
            *old(world),
            *generator,
            held_item,
            x,
            y,
            z,
            face,
            gamemode,
            hit,
            rotation,
        ).1 {
            Some((p, b)) => after_set(old(world).modified(), *generator, p, b),
            None => old(world).modified(),
        },
{
    if held_item == 325 {
        let h = match hit {
            Some(h) => h,
            None => return ItemOnBlock::Nothing,
        };
        let ty = h.1 + 1;
        let t = world.get(h.0, ty as u8, h.2, generator);
        let f = match Fluid::from_block_id(t.id) {
            Some(f) => f,
            None => return ItemOnBlock::Nothing,
        };
        if !Fluid::is_source(t.id, t.metadata) {
            return ItemOnBlock::Nothing;
        }
        world.set(x, ty as u8, z, Block::air(), generator);
        let filled = if gamemode == 0 {
            Some(f.bucket_item())
        } else {
            None
        };
        let lava = match f.kind {
            FluidKind::Lava => true,
            FluidKind::Water => false,
        };
        return ItemOnBlock::BucketFilled { x, y: ty, z, lava, filled };
    }
    if held_item == 323 {
        if !(face == 1 || (2 <= face && face <= 5)) {
            return ItemOnBlock::Nothing;
        }
        let (tx, ty, tz) = placement(x, y, z, face);
        let (id, metadata): (u8, u8) = if face == 1 {
            (63, rotation)
        } else {
            (68, face)
        };
        world.set(tx, ty as u8, tz, Block { id, metadata }, generator);
        return ItemOnBlock::SignPlaced { x: tx, y: ty, z: tz, id, metadata, consume: gamemode == 0 };
    }
    if face > 5 {
        return ItemOnBlock::Nothing;
    }
    let f = match Fluid::from_bucket_item(held_item) {
        Some(f) => f,
        None => return ItemOnBlock::Nothing,
    };
    let (tx, ty, tz) = placement(x, y, z, face);
    if !(0 <= ty && ty <= 255) {
        return ItemOnBlock::Nothing;
    }
    let existing = world.get(tx, ty as u8, tz, generator);
    if existing.id != 0 && !is_replaceable(existing.id) {
        return ItemOnBlock::Nothing;
    }
    let id = f.block_id();
    world.set(tx, ty as u8, tz, Block { id, metadata: 0 }, generator);
    ItemOnBlock::FluidPoured { x: tx, y: ty, z: tz, id, lava: held_item == 327, emptied: gamemode == 0 }
}

/// Filling an empty bucket takes the source the bucket aims at, one above
/// the aimed block: the lava flag says whether that source is lava (11 or
/// 10) rather than water (9 or 8), and in survival the player gets the
/// bucket of that fluid (327 for lava, 326 for water), in other modes none;
/// the taken block is made air.
pub proof fn law_bucket_holds_the_fluid_taken(
    w: WorldBlocks,
    g: FlatWorldGenerator,
    x: i32,
    y: u8,
    z: i32,
    face: u8,
    gamemode: u8,
    hit: Option<(i32, i32, i32)>,
    rotation: u8,
)
    requires
        hit matches Some(h) ==> h.1 < i32::MAX,
    ensures
        item_on_block(w, g, 325, x, y, z, face, gamemode, hit, rotation).0 matches ItemOnBlock::BucketFilled {
            lava,
            filled,
            ..
        } ==> ({
            let h = hit.unwrap();
            let t = w.block_at(g, (h.0, (h.1 + 1) as u8, h.2));
            &&& lava == (t.id == 10 || t.id == 11)
            &&& (t.id == 8 || t.id == 9 || t.id == 10 || t.id == 11)
            &&& t.metadata % 16 == 0
            &&& (filled is Some <==> gamemode == 0)
            &&& (filled matches Some(b) ==> b == (if lava { 327i16 } else { 326i16 }))
            &&& item_on_block(w, g, 325, x, y, z, face, gamemode, hit, rotation).1 == Some(
                ((x, (h.1 + 1) as u8, z), air_block()),
            )
        }),
{
}

/// Pouring a bucket puts the source of its fluid (9 for water from 326, 11
/// for lava from 327) and, in survival, empties the bucket.
pub proof fn law_poured_fluid_matches_bucket(
    w: WorldBlocks,
    g: FlatWorldGenerator,
    held_item: i16,
    x: i32,
    y: u8,
    z: i32,
    face: u8,
    gamemode: u8,
    hit: Option<(i32, i32, i32)>,
    rotation: u8,
)
    ensures
        item_on_block(w, g, held_item, x, y, z, face, gamemode, hit, rotation).0 matches ItemOnBlock::FluidPoured {
            id,
            lava,
            emptied,
            ..
        } ==> (held_item == 326 && id == 9 && !lava) || (held_item == 327 && id == 11 && lava),
        item_on_block(w, g, held_item, x, y, z, face, gamemode, hit, rotation).0 matches ItemOnBlock::FluidPoured {
            emptied,
            ..
        } ==> (emptied <==> gamemode == 0),
{
}


/// A sign goes in front of the clicked face: standing (63) with the given
/// rotation on a top face, hanging (68) with the face as its metadata on a
/// side face, and nowhere on a bottom face or without one; it is the block
/// set there, and in survival one sign is spent.
pub proof fn law_sign_in_front_of_face(
    w: WorldBlocks,
    g: FlatWorldGenerator,
    x: i32,
    y: u8,
    z: i32,
    face: u8,
    gamemode: u8,
    hit: Option<(i32, i32, i32)>,
    rotation: u8,
)
    requires
        i32::MIN < x < i32::MAX,
        i32::MIN < z < i32::MAX,
    ensures
        ({
            let (r, set) = item_on_block(w, g, 323, x, y, z, face, gamemode, hit, rotation);
            &&& (face == 0 || face > 5) ==> r == ItemOnBlock::Nothing && set is None
            &&& face == 1 ==> r == ItemOnBlock::SignPlaced {
                x,
                y: (y + 1) as i32,
                z,
                id: 63,
                metadata: rotation,
                consume: gamemode == 0,
            } && set == Some(((x, (y + 1) as u8, z), Block { id: 63, metadata: rotation }))
            &&& 2 <= face <= 5 ==> (r matches ItemOnBlock::SignPlaced { x: sx, y: sy, z: sz, id, metadata, consume } && id
                == 68 && metadata == face && sy == y && consume == (gamemode == 0) && (sx - x) + (sz - z) != 0 && -1 <= sx
                - x <= 1 && -1 <= sz - z <= 1 && (sx == x || sz == z) && set == Some(
                ((sx, sy as u8, sz), Block { id: 68, metadata: face }),
            ))
        }),
{
}

/// A bucket of fluid is poured only into air or a block that may be
/// replaced, within the world's height, in front of the clicked face; the
/// poured source is the block set there.
pub proof fn law_pour_only_into_room(
    w: WorldBlocks,
    g: FlatWorldGenerator,
    held_item: i16,
    x: i32,
    y: u8,
    z: i32,
    face: u8,
    gamemode: u8,
    hit: Option<(i32, i32, i32)>,
    rotation: u8,
)
    requires
        held_item != 325 && held_item != 323,
        i32::MIN < x < i32::MAX,
        i32::MIN < z < i32::MAX,
    ensures
        item_on_block(w, g, held_item, x, y, z, face, gamemode, hit, rotation).0 matches ItemOnBlock::FluidPoured {
            x: px,
            y: py,
            z: pz,
            id,
            ..
        } ==> ({
            let b = w.block_at(g, (px, py as u8, pz));
            &&& 0 <= py <= 255
            &&& place_target(x, y, z, face) == Some((px as int, py as int, pz as int))
            &&& (b.id == 0 || replaceable_id(b.id))
            &&& item_on_block(w, g, held_item, x, y, z, face, gamemode, hit, rotation).1 == Some(
                ((px, py as u8, pz), Block { id, metadata: 0 }),
            )
        }),
{
}

} // verus!
