//! Coral: the protocol codec, world storage formats and game rules of a
//! Minecraft 1.7/1.8 server, with their contracts proved by Verus.

pub mod command;
pub mod config;
pub mod effects;
pub mod entity;
pub mod fluid_sim;
pub mod furnace;
pub mod interact;
pub mod paths;
pub mod play;
pub mod play_state;
pub mod protocol;
pub mod random;
pub mod server;
pub mod text;
pub mod tile_window;
pub mod world;

pub use paths::world_path;
