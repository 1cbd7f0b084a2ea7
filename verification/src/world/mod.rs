//! World storage: blocks, fluids, the NBT format, Anvil chunks and region
//! files, and the chunk payloads sent to clients.

pub mod anvil;
pub mod blocks;
pub mod chunk;
pub mod chunk_roundtrip;
pub mod compression;
pub mod definitions;
pub mod fluid;
pub mod generator;
pub mod level;
pub mod nbt;
pub mod nbt_check;
pub mod playerdata;
pub mod region;
pub mod registry;
pub mod spawn;
pub mod tile_nbt;
pub mod time;
pub mod world_blocks;
