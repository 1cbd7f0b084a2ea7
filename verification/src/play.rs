//! Small rules of play: the ping bars in the player list, the sound a
//! broken block makes, and whether a tool is good enough to harvest.

use vstd::prelude::*;
use crate::world::blocks::ToolMaterial;

verus! {

/// The number of ping bars a player-list entry shows for a ping in
/// milliseconds: 0 (all bars) under 150, 1 under 300, 2 under 600, 3
/// under 1000, 4 beyond, and 5 (no connection) for a ping of 0 or less.
pub open spec fn ping_bars(ping: i32) -> u8 {
    if ping <= 0 {
        5
    } else if ping < 150 {
        0
    } else if ping < 300 {
        1
    } else if ping < 600 {
        2
    } else if ping < 1000 {
        3
    } else {
        4
    }
}

/// The ping bars for a ping in milliseconds.
pub fn ping_to_bar(ping: i32) -> (r: u8)
    ensures
        r == ping_bars(ping),
{
    if ping <= 0 {
        return 5;
    }
    if ping < 150 {
        return 0;
    }
    if ping < 300 {
        return 1;
    }
    if ping < 600 {
        return 2;
    }
    if ping < 1000 {
        return 3;
    }
    4
}

/// More ping never shows more bars of signal (a lower bar number); only a
/// ping of 0 or less shows none.
pub proof fn law_ping_bars_monotone(a: i32, b: i32)
    requires
        0 < a <= b,
    ensures
        ping_bars(a) <= ping_bars(b) <= 4,
{
}

/// The rank of a tool material: wood, gold and "any" 0, stone 1, iron 2,
/// diamond 3.
pub open spec fn material_rank(m: ToolMaterial) -> int {
    match m {
        ToolMaterial::Wood | ToolMaterial::Gold | ToolMaterial::Any => 0,
        ToolMaterial::Stone => 1,
        ToolMaterial::Iron => 2,
        ToolMaterial::Diamond => 3,
    }
}

/// Whether a tool of material `have` can harvest a block that needs `need`.
pub fn material_meets(have: ToolMaterial, need: ToolMaterial) -> (r: bool)
    ensures
        r == (material_rank(have) >= material_rank(need)),
{
    let rank_have: u8 = match have {
        ToolMaterial::Wood | ToolMaterial::Gold | ToolMaterial::Any => 0,
        ToolMaterial::Stone => 1,
        ToolMaterial::Iron => 2,
        ToolMaterial::Diamond => 3,
    };
    let rank_need: u8 = match need {
        ToolMaterial::Wood | ToolMaterial::Gold | ToolMaterial::Any => 0,
        ToolMaterial::Stone => 1,
        ToolMaterial::Iron => 2,
        ToolMaterial::Diamond => 3,
    };
    rank_have >= rank_need
}

/// The sound of breaking a block: grass, stone, wood, sand, gravel, glass,
/// cloth or snow, stone for the rest.
pub open spec fn break_sound(block_id: u8) -> Seq<char> {
    if block_id == 2 || block_id == 3 || block_id == 60 {
        "dig.grass"@
    } else if block_id == 5 || block_id == 17 || block_id == 47 || block_id == 53 || block_id == 54 {
        "dig.wood"@
    } else if block_id == 12 {
        "dig.sand"@
    } else if block_id == 13 {
        "dig.gravel"@
    } else if block_id == 20 || block_id == 102 {
        "dig.glass"@
    } else if block_id == 35 {
        "dig.cloth"@
    } else if block_id == 78 || block_id == 80 {
        "dig.snow"@
    } else {
        "dig.stone"@
    }
}

/// The sound of breaking a block.
pub fn block_break_sound(block_id: u8) -> (r: &'static str)
    ensures
        r@ == break_sound(block_id),
{
    match block_id {
        2 | 3 | 60 => "dig.grass",
        1 | 4 | 7 | 14..=16 | 24 => "dig.stone",
        5 | 17 | 47 | 53 | 54 => "dig.wood",
        12 => "dig.sand",
        13 => "dig.gravel",
        20 | 102 => "dig.glass",
        35 => "dig.cloth",
        78 | 80 => "dig.snow",
        _ => "dig.stone",
    }
}

} // verus!
