//! Where a player appears on joining.

use vstd::prelude::*;
use crate::world::playerdata::PlayerData;

verus! {

/// A position and facing: x, y and z as the bits of `f64`s, yaw and pitch
/// as the bits of `f32`s.
pub type SpawnPos = (u64, u64, u64, u32, u32);

/// Where a player joins: where their saved state left them, facing as they
/// were, or the world spawn for one who has none.
pub open spec fn join_spot(saved: Option<PlayerData>, world_spawn: SpawnPos) -> SpawnPos {
    match saved {
        Some(d) => (d.x, d.y, d.z, d.yaw, d.pitch),
        None => world_spawn,
    }
}

pub fn join_position(saved: Option<&PlayerData>, world_spawn: SpawnPos) -> (r: SpawnPos)
    ensures
        r == join_spot(
            match saved {
                Some(d) => Some(*d),
                None => None,
            },
            world_spawn,
        ),
{
    match saved {
        Some(d) => (d.x, d.y, d.z, d.yaw, d.pitch),
        None => world_spawn,
    }
}

/// A player who has been here before comes back where they left, whatever
/// the world spawn is; only a first join uses the world spawn.
pub proof fn law_join_position_ignores_spawn_for_known_players(d: PlayerData, a: SpawnPos, b: SpawnPos)
    ensures
        join_spot(Some(d), a) == join_spot(Some(d), b),
        join_spot(None, a) == a,
{
}

} // verus!
