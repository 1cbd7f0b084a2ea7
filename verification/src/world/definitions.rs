//! The block kinds and what each one is like.

use vstd::prelude::*;
use crate::world::blocks::{BlockBehavior, ToolKind, ToolMaterial};

verus! {

pub struct Air;

impl BlockBehavior for Air {
    fn id(&self) -> (r: u8)
        ensures
            r == 0,
    {
        0
    }

    fn is_solid(&self) -> (r: bool)
        ensures
            r == false,
    {
        false
    }

    fn is_transparent(&self) -> (r: bool)
        ensures
            r == true,
    {
        true
    }

    fn is_replaceable(&self) -> (r: bool)
        ensures
            r == true,
    {
        true
    }
}

pub struct Stone;

impl BlockBehavior for Stone {
    fn id(&self) -> (r: u8)
        ensures
            r == 1,
    {
        1
    }

    fn required_tool(&self) -> (r: ToolKind)
        ensures
            r == ToolKind::Pickaxe,
    {
        ToolKind::Pickaxe
    }

    fn required_material(&self) -> (r: Option<ToolMaterial>)
        ensures
            r == Some(ToolMaterial::Wood),
    {
        Some(ToolMaterial::Wood)
    }
}

pub struct Grass;

impl BlockBehavior for Grass {
    fn id(&self) -> (r: u8)
        ensures
            r == 2,
    {
        2
    }

    fn required_tool(&self) -> (r: ToolKind)
        ensures
            r == ToolKind::Shovel,
    {
        ToolKind::Shovel
    }
}

pub struct Dirt;

impl BlockBehavior for Dirt {
    fn id(&self) -> (r: u8)
        ensures
            r == 3,
    {
        3
    }

    fn required_tool(&self) -> (r: ToolKind)
        ensures
            r == ToolKind::Shovel,
    {
        ToolKind::Shovel
    }
}

pub struct Cobblestone;

impl BlockBehavior for Cobblestone {
    fn id(&self) -> (r: u8)
        ensures
            r == 4,
    {
        4
    }

    fn required_tool(&self) -> (r: ToolKind)
        ensures
            r == ToolKind::Pickaxe,
    {
        ToolKind::Pickaxe
    }

    fn required_material(&self) -> (r: Option<ToolMaterial>)
        ensures
            r == Some(ToolMaterial::Wood),
    {
        Some(ToolMaterial::Wood)
    }
}

pub struct Planks;

impl BlockBehavior for Planks {
    fn id(&self) -> (r: u8)
        ensures
            r == 5,
    {
        5
    }

    fn required_tool(&self) -> (r: ToolKind)
        ensures
            r == ToolKind::Axe,
    {
        ToolKind::Axe
    }

    fn is_flammable(&self) -> (r: bool)
        ensures
            r == true,
    {
        true
    }
}

pub struct Bedrock;

impl BlockBehavior for Bedrock {
    fn id(&self) -> (r: u8)
        ensures
            r == 7,
    {
        7
    }
}

pub struct Sand;

impl BlockBehavior for Sand {
    fn id(&self) -> (r: u8)
        ensures
            r == 12,
    {
        12
    }

    fn required_tool(&self) -> (r: ToolKind)
        ensures
            r == ToolKind::Shovel,
    {
        ToolKind::Shovel
    }
}

pub struct Gravel;

impl BlockBehavior for Gravel {
    fn id(&self) -> (r: u8)
        ensures
            r == 13,
    {
        13
    }

    fn required_tool(&self) -> (r: ToolKind)
        ensures
            r == ToolKind::Shovel,
    {
        ToolKind::Shovel
    }
}

pub struct GoldOre;

impl BlockBehavior for GoldOre {
    fn id(&self) -> (r: u8)
        ensures
            r == 14,
    {
        14
    }

    fn required_tool(&self) -> (r: ToolKind)
        ensures
            r == ToolKind::Pickaxe,
    {
        ToolKind::Pickaxe
    }

    fn required_material(&self) -> (r: Option<ToolMaterial>)
        ensures
            r == Some(ToolMaterial::Iron),
    {
        Some(ToolMaterial::Iron)
    }
}

pub struct IronOre;

impl BlockBehavior for IronOre {
    fn id(&self) -> (r: u8)
        ensures
            r == 15,
    {
        15
    }

    fn required_tool(&self) -> (r: ToolKind)
        ensures
            r == ToolKind::Pickaxe,
    {
        ToolKind::Pickaxe
    }

    fn required_material(&self) -> (r: Option<ToolMaterial>)
        ensures
            r == Some(ToolMaterial::Stone),
    {
        Some(ToolMaterial::Stone)
    }
}

pub struct CoalOre;

impl BlockBehavior for CoalOre {
    fn id(&self) -> (r: u8)
        ensures
            r == 16,
    {
        16
    }

    fn required_tool(&self) -> (r: ToolKind)
        ensures
            r == ToolKind::Pickaxe,
    {
        ToolKind::Pickaxe
    }

    fn required_material(&self) -> (r: Option<ToolMaterial>)
        ensures
            r == Some(ToolMaterial::Wood),
    {
        Some(ToolMaterial::Wood)
    }
}

pub struct Log;

impl BlockBehavior for Log {
    fn id(&self) -> (r: u8)
        ensures
            r == 17,
    {
        17
    }

    fn required_tool(&self) -> (r: ToolKind)
        ensures
            r == ToolKind::Axe,
    {
        ToolKind::Axe
    }

    fn is_flammable(&self) -> (r: bool)
        ensures
            r == true,
    {
        true
    }
}

pub struct Leaves;

impl BlockBehavior for Leaves {
    fn id(&self) -> (r: u8)
        ensures
            r == 18,
    {
        18
    }

    fn is_transparent(&self) -> (r: bool)
        ensures
            r == true,
    {
        true
    }

    fn is_flammable(&self) -> (r: bool)
        ensures
            r == true,
    {
        true
    }

    fn drops_self(&self) -> (r: bool)
        ensures
            r == false,
    {
        false
    }
}

pub struct Glass;

impl BlockBehavior for Glass {
    fn id(&self) -> (r: u8)
        ensures
            r == 20,
    {
        20
    }

    fn is_transparent(&self) -> (r: bool)
        ensures
            r == true,
    {
        true
    }

    fn drops_self(&self) -> (r: bool)
        ensures
            r == false,
    {
        false
    }
}

pub struct LapisOre;

impl BlockBehavior for LapisOre {
    fn id(&self) -> (r: u8)
        ensures
            r == 21,
    {
        21
    }

    fn required_tool(&self) -> (r: ToolKind)
        ensures
            r == ToolKind::Pickaxe,
    {
        ToolKind::Pickaxe
    }

    fn required_material(&self) -> (r: Option<ToolMaterial>)
        ensures
            r == Some(ToolMaterial::Stone),
    {
        Some(ToolMaterial::Stone)
    }

    fn drops_self(&self) -> (r: bool)
        ensures
            r == false,
    {
        false
    }
}

pub struct Sandstone;

impl BlockBehavior for Sandstone {
    fn id(&self) -> (r: u8)
        ensures
            r == 24,
    {
        24
    }

    fn required_tool(&self) -> (r: ToolKind)
        ensures
            r == ToolKind::Pickaxe,
    {
        ToolKind::Pickaxe
    }

    fn required_material(&self) -> (r: Option<ToolMaterial>)
        ensures
            r == Some(ToolMaterial::Wood),
    {
        Some(ToolMaterial::Wood)
    }
}

pub struct Wool;

impl BlockBehavior for Wool {
    fn id(&self) -> (r: u8)
        ensures
            r == 35,
    {
        35
    }

    fn is_flammable(&self) -> (r: bool)
        ensures
            r == true,
    {
        true
    }
}

pub struct GoldBlock;

impl BlockBehavior for GoldBlock {
    fn id(&self) -> (r: u8)
        ensures
            r == 41,
    {
        41
    }

    fn required_tool(&self) -> (r: ToolKind)
        ensures
            r == ToolKind::Pickaxe,
    {
        ToolKind::Pickaxe
    }

    fn required_material(&self) -> (r: Option<ToolMaterial>)
        ensures
            r == Some(ToolMaterial::Iron),
    {
        Some(ToolMaterial::Iron)
    }
}

pub struct IronBlock;

impl BlockBehavior for IronBlock {
    fn id(&self) -> (r: u8)
        ensures
            r == 42,
    {
        42
    }

    fn required_tool(&self) -> (r: ToolKind)
        ensures
            r == ToolKind::Pickaxe,
    {
        ToolKind::Pickaxe
    }

    fn required_material(&self) -> (r: Option<ToolMaterial>)
        ensures
            r == Some(ToolMaterial::Stone),
    {
        Some(ToolMaterial::Stone)
    }
}

pub struct Bricks;

impl BlockBehavior for Bricks {
    fn id(&self) -> (r: u8)
        ensures
            r == 45,
    {
        45
    }

    fn required_tool(&self) -> (r: ToolKind)
        ensures
            r == ToolKind::Pickaxe,
    {
        ToolKind::Pickaxe
    }

    fn required_material(&self) -> (r: Option<ToolMaterial>)
        ensures
            r == Some(ToolMaterial::Wood),
    {
        Some(ToolMaterial::Wood)
    }
}

pub struct DiamondOre;

impl BlockBehavior for DiamondOre {
    fn id(&self) -> (r: u8)
        ensures
            r == 56,
    {
        56
    }

    fn required_tool(&self) -> (r: ToolKind)
        ensures
            r == ToolKind::Pickaxe,
    {
        ToolKind::Pickaxe
    }

    fn required_material(&self) -> (r: Option<ToolMaterial>)
        ensures
            r == Some(ToolMaterial::Iron),
    {
        Some(ToolMaterial::Iron)
    }

    fn drops_self(&self) -> (r: bool)
        ensures
            r == false,
    {
        false
    }
}

pub struct DiamondBlock;

impl BlockBehavior for DiamondBlock {
    fn id(&self) -> (r: u8)
        ensures
            r == 57,
    {
        57
    }

    fn required_tool(&self) -> (r: ToolKind)
        ensures
            r == ToolKind::Pickaxe,
    {
        ToolKind::Pickaxe
    }

    fn required_material(&self) -> (r: Option<ToolMaterial>)
        ensures
            r == Some(ToolMaterial::Iron),
    {
        Some(ToolMaterial::Iron)
    }
}

pub struct CraftingTable;

impl BlockBehavior for CraftingTable {
    fn id(&self) -> (r: u8)
        ensures
            r == 58,
    {
        58
    }

    fn required_tool(&self) -> (r: ToolKind)
        ensures
            r == ToolKind::Axe,
    {
        ToolKind::Axe
    }

    fn is_flammable(&self) -> (r: bool)
        ensures
            r == true,
    {
        true
    }
}

pub struct Farmland;

impl BlockBehavior for Farmland {
    fn id(&self) -> (r: u8)
        ensures
            r == 60,
    {
        60
    }

    fn required_tool(&self) -> (r: ToolKind)
        ensures
            r == ToolKind::Shovel,
    {
        ToolKind::Shovel
    }

    fn drops_self(&self) -> (r: bool)
        ensures
            r == false,
    {
        false
    }
}

pub struct Furnace;

impl BlockBehavior for Furnace {
    fn id(&self) -> (r: u8)
        ensures
            r == 61,
    {
        61
    }

    fn required_tool(&self) -> (r: ToolKind)
        ensures
            r == ToolKind::Pickaxe,
    {
        ToolKind::Pickaxe
    }

    fn required_material(&self) -> (r: Option<ToolMaterial>)
        ensures
            r == Some(ToolMaterial::Wood),
    {
        Some(ToolMaterial::Wood)
    }
}

pub struct Obsidian;

impl BlockBehavior for Obsidian {
    fn id(&self) -> (r: u8)
        ensures
            r == 49,
    {
        49
    }

    fn required_tool(&self) -> (r: ToolKind)
        ensures
            r == ToolKind::Pickaxe,
    {
        ToolKind::Pickaxe
    }

    fn required_material(&self) -> (r: Option<ToolMaterial>)
        ensures
            r == Some(ToolMaterial::Diamond),
    {
        Some(ToolMaterial::Diamond)
    }
}

pub struct Chest;

impl BlockBehavior for Chest {
    fn id(&self) -> (r: u8)
        ensures
            r == 54,
    {
        54
    }

    fn required_tool(&self) -> (r: ToolKind)
        ensures
            r == ToolKind::Axe,
    {
        ToolKind::Axe
    }

    fn is_flammable(&self) -> (r: bool)
        ensures
            r == true,
    {
        true
    }
}

pub struct RedstoneOre;

impl BlockBehavior for RedstoneOre {
    fn id(&self) -> (r: u8)
        ensures
            r == 73,
    {
        73
    }

    fn required_tool(&self) -> (r: ToolKind)
        ensures
            r == ToolKind::Pickaxe,
    {
        ToolKind::Pickaxe
    }

    fn required_material(&self) -> (r: Option<ToolMaterial>)
        ensures
            r == Some(ToolMaterial::Iron),
    {
        Some(ToolMaterial::Iron)
    }

    fn drops_self(&self) -> (r: bool)
        ensures
            r == false,
    {
        false
    }
}

pub struct Ice;

impl BlockBehavior for Ice {
    fn id(&self) -> (r: u8)
        ensures
            r == 79,
    {
        79
    }

    fn required_tool(&self) -> (r: ToolKind)
        ensures
            r == ToolKind::Pickaxe,
    {
        ToolKind::Pickaxe
    }

    fn is_transparent(&self) -> (r: bool)
        ensures
            r == true,
    {
        true
    }

    fn drops_self(&self) -> (r: bool)
        ensures
            r == false,
    {
        false
    }
}

pub struct SnowBlock;

impl BlockBehavior for SnowBlock {
    fn id(&self) -> (r: u8)
        ensures
            r == 80,
    {
        80
    }

    fn required_tool(&self) -> (r: ToolKind)
        ensures
            r == ToolKind::Shovel,
    {
        ToolKind::Shovel
    }

    fn required_material(&self) -> (r: Option<ToolMaterial>)
        ensures
            r == Some(ToolMaterial::Wood),
    {
        Some(ToolMaterial::Wood)
    }

    fn drops_self(&self) -> (r: bool)
        ensures
            r == false,
    {
        false
    }
}

pub struct Cactus;

impl BlockBehavior for Cactus {
    fn id(&self) -> (r: u8)
        ensures
            r == 81,
    {
        81
    }

    fn is_solid(&self) -> (r: bool)
        ensures
            r == false,
    {
        false
    }
}

pub struct ClayBlock;

impl BlockBehavior for ClayBlock {
    fn id(&self) -> (r: u8)
        ensures
            r == 82,
    {
        82
    }

    fn required_tool(&self) -> (r: ToolKind)
        ensures
            r == ToolKind::Shovel,
    {
        ToolKind::Shovel
    }

    fn drops_self(&self) -> (r: bool)
        ensures
            r == false,
    {
        false
    }
}

pub struct SugarCane;

impl BlockBehavior for SugarCane {
    fn id(&self) -> (r: u8)
        ensures
            r == 83,
    {
        83
    }

    fn is_solid(&self) -> (r: bool)
        ensures
            r == false,
    {
        false
    }
}

pub struct Netherrack;

impl BlockBehavior for Netherrack {
    fn id(&self) -> (r: u8)
        ensures
            r == 87,
    {
        87
    }

    fn required_tool(&self) -> (r: ToolKind)
        ensures
            r == ToolKind::Pickaxe,
    {
        ToolKind::Pickaxe
    }

    fn required_material(&self) -> (r: Option<ToolMaterial>)
        ensures
            r == Some(ToolMaterial::Wood),
    {
        Some(ToolMaterial::Wood)
    }
}

pub struct SoulSand;

impl BlockBehavior for SoulSand {
    fn id(&self) -> (r: u8)
        ensures
            r == 88,
    {
        88
    }

    fn required_tool(&self) -> (r: ToolKind)
        ensures
            r == ToolKind::Shovel,
    {
        ToolKind::Shovel
    }
}

pub struct Glowstone;

impl BlockBehavior for Glowstone {
    fn id(&self) -> (r: u8)
        ensures
            r == 89,
    {
        89
    }

    fn is_transparent(&self) -> (r: bool)
        ensures
            r == true,
    {
        true
    }

    fn light_emission(&self) -> (r: u8)
        ensures
            r == 15,
    {
        15
    }

    fn drops_self(&self) -> (r: bool)
        ensures
            r == false,
    {
        false
    }
}

pub struct StoneBrick;

impl BlockBehavior for StoneBrick {
    fn id(&self) -> (r: u8)
        ensures
            r == 98,
    {
        98
    }

    fn required_tool(&self) -> (r: ToolKind)
        ensures
            r == ToolKind::Pickaxe,
    {
        ToolKind::Pickaxe
    }

    fn required_material(&self) -> (r: Option<ToolMaterial>)
        ensures
            r == Some(ToolMaterial::Wood),
    {
        Some(ToolMaterial::Wood)
    }
}

pub struct MelonBlock;

impl BlockBehavior for MelonBlock {
    fn id(&self) -> (r: u8)
        ensures
            r == 103,
    {
        103
    }

    fn drops_self(&self) -> (r: bool)
        ensures
            r == false,
    {
        false
    }
}

pub struct Mycelium;

impl BlockBehavior for Mycelium {
    fn id(&self) -> (r: u8)
        ensures
            r == 110,
    {
        110
    }

    fn required_tool(&self) -> (r: ToolKind)
        ensures
            r == ToolKind::Shovel,
    {
        ToolKind::Shovel
    }

    fn drops_self(&self) -> (r: bool)
        ensures
            r == false,
    {
        false
    }
}

pub struct NetherBrick;

impl BlockBehavior for NetherBrick {
    fn id(&self) -> (r: u8)
        ensures
            r == 112,
    {
        112
    }

    fn required_tool(&self) -> (r: ToolKind)
        ensures
            r == ToolKind::Pickaxe,
    {
        ToolKind::Pickaxe
    }

    fn required_material(&self) -> (r: Option<ToolMaterial>)
        ensures
            r == Some(ToolMaterial::Wood),
    {
        Some(ToolMaterial::Wood)
    }
}

pub struct EndStone;

impl BlockBehavior for EndStone {
    fn id(&self) -> (r: u8)
        ensures
            r == 121,
    {
        121
    }

    fn required_tool(&self) -> (r: ToolKind)
        ensures
            r == ToolKind::Pickaxe,
    {
        ToolKind::Pickaxe
    }

    fn required_material(&self) -> (r: Option<ToolMaterial>)
        ensures
            r == Some(ToolMaterial::Wood),
    {
        Some(ToolMaterial::Wood)
    }
}

pub struct CoalBlock;

impl BlockBehavior for CoalBlock {
    fn id(&self) -> (r: u8)
        ensures
            r == 173,
    {
        173
    }

    fn required_tool(&self) -> (r: ToolKind)
        ensures
            r == ToolKind::Pickaxe,
    {
        ToolKind::Pickaxe
    }

    fn required_material(&self) -> (r: Option<ToolMaterial>)
        ensures
            r == Some(ToolMaterial::Wood),
    {
        Some(ToolMaterial::Wood)
    }

    fn is_flammable(&self) -> (r: bool)
        ensures
            r == true,
    {
        true
    }
}

pub struct HardenedClay;

impl BlockBehavior for HardenedClay {
    fn id(&self) -> (r: u8)
        ensures
            r == 172,
    {
        172
    }

    fn required_tool(&self) -> (r: ToolKind)
        ensures
            r == ToolKind::Pickaxe,
    {
        ToolKind::Pickaxe
    }

    fn required_material(&self) -> (r: Option<ToolMaterial>)
        ensures
            r == Some(ToolMaterial::Wood),
    {
        Some(ToolMaterial::Wood)
    }
}

} // verus!
