//! Looking up what a block kind is like by its id.

use vstd::prelude::*;
use crate::world::blocks::{BlockBehavior, ToolKind, ToolMaterial};
use crate::world::definitions::{
    Air, Stone, Grass, Dirt, Cobblestone, Planks, Bedrock, Sand, Gravel, GoldOre, IronOre, CoalOre, Log, Leaves, Glass, LapisOre, Sandstone, Wool, GoldBlock, IronBlock, Bricks, DiamondOre, DiamondBlock, CraftingTable, Farmland, Furnace, Obsidian, Chest, RedstoneOre, Ice, SnowBlock, Cactus, ClayBlock, SugarCane, Netherrack, SoulSand, Glowstone, StoneBrick, MelonBlock, Mycelium, NetherBrick, EndStone, CoalBlock, HardenedClay,
};
use crate::world::fluid::{Fluid, FluidKind};

verus! {

/// The tool kind a block id wants: that of its kind, `Hand` (no tool) for
/// an id without one.
pub open spec fn block_required_tool(id: u8) -> ToolKind {
    match id {
        1 => ToolKind::Pickaxe,
        2 => ToolKind::Shovel,
        3 => ToolKind::Shovel,
        4 => ToolKind::Pickaxe,
        5 => ToolKind::Axe,
        12 => ToolKind::Shovel,
        13 => ToolKind::Shovel,
        14 => ToolKind::Pickaxe,
        15 => ToolKind::Pickaxe,
        16 => ToolKind::Pickaxe,
        17 => ToolKind::Axe,
        21 => ToolKind::Pickaxe,
        24 => ToolKind::Pickaxe,
        41 => ToolKind::Pickaxe,
        42 => ToolKind::Pickaxe,
        45 => ToolKind::Pickaxe,
        49 => ToolKind::Pickaxe,
        54 => ToolKind::Axe,
        56 => ToolKind::Pickaxe,
        57 => ToolKind::Pickaxe,
        58 => ToolKind::Axe,
        60 => ToolKind::Shovel,
        61 => ToolKind::Pickaxe,
        73 => ToolKind::Pickaxe,
        79 => ToolKind::Pickaxe,
        80 => ToolKind::Shovel,
        82 => ToolKind::Shovel,
        87 => ToolKind::Pickaxe,
        88 => ToolKind::Shovel,
        98 => ToolKind::Pickaxe,
        110 => ToolKind::Shovel,
        112 => ToolKind::Pickaxe,
        121 => ToolKind::Pickaxe,
        172 => ToolKind::Pickaxe,
        173 => ToolKind::Pickaxe,
        _ => ToolKind::Hand,
    }
}

/// The weakest tool material that makes a block id drop anything: that of
/// its kind, `None` for an id without one.
pub open spec fn block_required_material(id: u8) -> Option<ToolMaterial> {
    match id {
        1 => Some(ToolMaterial::Wood),
        4 => Some(ToolMaterial::Wood),
        14 => Some(ToolMaterial::Iron),
        15 => Some(ToolMaterial::Stone),
        16 => Some(ToolMaterial::Wood),
        21 => Some(ToolMaterial::Stone),
        24 => Some(ToolMaterial::Wood),
        41 => Some(ToolMaterial::Iron),
        42 => Some(ToolMaterial::Stone),
        45 => Some(ToolMaterial::Wood),
        49 => Some(ToolMaterial::Diamond),
        56 => Some(ToolMaterial::Iron),
        57 => Some(ToolMaterial::Iron),
        61 => Some(ToolMaterial::Wood),
        73 => Some(ToolMaterial::Iron),
        80 => Some(ToolMaterial::Wood),
        87 => Some(ToolMaterial::Wood),
        98 => Some(ToolMaterial::Wood),
        112 => Some(ToolMaterial::Wood),
        121 => Some(ToolMaterial::Wood),
        172 => Some(ToolMaterial::Wood),
        173 => Some(ToolMaterial::Wood),
        _ => None,
    }
}

/// Whether a block id is solid: as its kind says, and solid for an id
/// without a kind.
pub open spec fn block_is_solid(id: u8) -> bool {
    match id {
        0 => false,
        81 => false,
        83 => false,
        8 => false,
        9 => false,
        10 => false,
        11 => false,
        _ => true,
    }
}

/// The block kinds of the world, found by id.
pub struct BlockRegistry;

impl BlockRegistry {
    /// The registry of every block kind.
    pub fn new() -> (r: Self) {
        BlockRegistry
    }

    /// Which tool kind a block id wants; no tool for an unknown id.
    pub fn required_tool(&self, id: u8) -> (r: ToolKind)
        ensures
            r == block_required_tool(id),
    {
        match id {
            0 => Air.required_tool(),
            1 => Stone.required_tool(),
            2 => Grass.required_tool(),
            3 => Dirt.required_tool(),
            4 => Cobblestone.required_tool(),
            5 => Planks.required_tool(),
            7 => Bedrock.required_tool(),
            12 => Sand.required_tool(),
            13 => Gravel.required_tool(),
            14 => GoldOre.required_tool(),
            15 => IronOre.required_tool(),
            16 => CoalOre.required_tool(),
            17 => Log.required_tool(),
            18 => Leaves.required_tool(),
            20 => Glass.required_tool(),
            21 => LapisOre.required_tool(),
            24 => Sandstone.required_tool(),
            35 => Wool.required_tool(),
            41 => GoldBlock.required_tool(),
            42 => IronBlock.required_tool(),
            45 => Bricks.required_tool(),
            49 => Obsidian.required_tool(),
            54 => Chest.required_tool(),
            56 => DiamondOre.required_tool(),
            57 => DiamondBlock.required_tool(),
            58 => CraftingTable.required_tool(),
            60 => Farmland.required_tool(),
            61 => Furnace.required_tool(),
            73 => RedstoneOre.required_tool(),
            79 => Ice.required_tool(),
            80 => SnowBlock.required_tool(),
            81 => Cactus.required_tool(),
            82 => ClayBlock.required_tool(),
            83 => SugarCane.required_tool(),
            87 => Netherrack.required_tool(),
            88 => SoulSand.required_tool(),
            89 => Glowstone.required_tool(),
            98 => StoneBrick.required_tool(),
            103 => MelonBlock.required_tool(),
            110 => Mycelium.required_tool(),
            112 => NetherBrick.required_tool(),
            121 => EndStone.required_tool(),
            172 => HardenedClay.required_tool(),
            173 => CoalBlock.required_tool(),
            8 => Fluid { kind: FluidKind::Water, flowing: true }.required_tool(),
            9 => Fluid { kind: FluidKind::Water, flowing: false }.required_tool(),
            10 => Fluid { kind: FluidKind::Lava, flowing: true }.required_tool(),
            11 => Fluid { kind: FluidKind::Lava, flowing: false }.required_tool(),
            _ => ToolKind::Hand,
        }
    }

    /// The weakest tool material that makes a block id drop anything.
    pub fn required_material(&self, id: u8) -> (r: Option<ToolMaterial>)
        ensures
            r == block_required_material(id),
    {
        match id {
            0 => Air.required_material(),
            1 => Stone.required_material(),
            2 => Grass.required_material(),
            3 => Dirt.required_material(),
            4 => Cobblestone.required_material(),
            5 => Planks.required_material(),
            7 => Bedrock.required_material(),
            12 => Sand.required_material(),
            13 => Gravel.required_material(),
            14 => GoldOre.required_material(),
            15 => IronOre.required_material(),
            16 => CoalOre.required_material(),
            17 => Log.required_material(),
            18 => Leaves.required_material(),
            20 => Glass.required_material(),
            21 => LapisOre.required_material(),
            24 => Sandstone.required_material(),
            35 => Wool.required_material(),
            41 => GoldBlock.required_material(),
            42 => IronBlock.required_material(),
            45 => Bricks.required_material(),
            49 => Obsidian.required_material(),
            54 => Chest.required_material(),
            56 => DiamondOre.required_material(),
            57 => DiamondBlock.required_material(),
            58 => CraftingTable.required_material(),
            60 => Farmland.required_material(),
            61 => Furnace.required_material(),
            73 => RedstoneOre.required_material(),
            79 => Ice.required_material(),
            80 => SnowBlock.required_material(),
            81 => Cactus.required_material(),
            82 => ClayBlock.required_material(),
            83 => SugarCane.required_material(),
            87 => Netherrack.required_material(),
            88 => SoulSand.required_material(),
            89 => Glowstone.required_material(),
            98 => StoneBrick.required_material(),
            103 => MelonBlock.required_material(),
            110 => Mycelium.required_material(),
            112 => NetherBrick.required_material(),
            121 => EndStone.required_material(),
            172 => HardenedClay.required_material(),
            173 => CoalBlock.required_material(),
            8 => Fluid { kind: FluidKind::Water, flowing: true }.required_material(),
            9 => Fluid { kind: FluidKind::Water, flowing: false }.required_material(),
            10 => Fluid { kind: FluidKind::Lava, flowing: true }.required_material(),
            11 => Fluid { kind: FluidKind::Lava, flowing: false }.required_material(),
            _ => None,
        }
    }

    /// Whether a block id is solid; an unknown id is.
    pub fn is_solid(&self, id: u8) -> (r: bool)
        ensures
            r == block_is_solid(id),
    {
        match id {
            0 => Air.is_solid(),
            1 => Stone.is_solid(),
            2 => Grass.is_solid(),
            3 => Dirt.is_solid(),
            4 => Cobblestone.is_solid(),
            5 => Planks.is_solid(),
            7 => Bedrock.is_solid(),
            12 => Sand.is_solid(),
            13 => Gravel.is_solid(),
            14 => GoldOre.is_solid(),
            15 => IronOre.is_solid(),
            16 => CoalOre.is_solid(),
            17 => Log.is_solid(),
            18 => Leaves.is_solid(),
            20 => Glass.is_solid(),
            21 => LapisOre.is_solid(),
            24 => Sandstone.is_solid(),
            35 => Wool.is_solid(),
            41 => GoldBlock.is_solid(),
            42 => IronBlock.is_solid(),
            45 => Bricks.is_solid(),
            49 => Obsidian.is_solid(),
            54 => Chest.is_solid(),
            56 => DiamondOre.is_solid(),
            57 => DiamondBlock.is_solid(),
            58 => CraftingTable.is_solid(),
            60 => Farmland.is_solid(),
            61 => Furnace.is_solid(),
            73 => RedstoneOre.is_solid(),
            79 => Ice.is_solid(),
            80 => SnowBlock.is_solid(),
            81 => Cactus.is_solid(),
            82 => ClayBlock.is_solid(),
            83 => SugarCane.is_solid(),
            87 => Netherrack.is_solid(),
            88 => SoulSand.is_solid(),
            89 => Glowstone.is_solid(),
            98 => StoneBrick.is_solid(),
            103 => MelonBlock.is_solid(),
            110 => Mycelium.is_solid(),
            112 => NetherBrick.is_solid(),
            121 => EndStone.is_solid(),
            172 => HardenedClay.is_solid(),
            173 => CoalBlock.is_solid(),
            8 => Fluid { kind: FluidKind::Water, flowing: true }.is_solid(),
            9 => Fluid { kind: FluidKind::Water, flowing: false }.is_solid(),
            10 => Fluid { kind: FluidKind::Lava, flowing: true }.is_solid(),
            11 => Fluid { kind: FluidKind::Lava, flowing: false }.is_solid(),
            _ => true,
        }
    }
}

} // verus!
