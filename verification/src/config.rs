//! The server configuration and its defaults.

use vstd::prelude::*;

verus! {

/// The whole configuration.
#[derive(Debug, Clone)]
pub struct Config {
    pub server: ServerConfig,
    pub chat: ChatConfig,
    pub world: WorldConfig,
}

/// Network and player settings.
#[derive(Debug, Clone)]
pub struct ServerConfig {
    pub motd: String,
    pub port: u16,
    pub max_player: u32,
    pub online_mode: bool,
    pub player_sample_amount: i8,
    pub default_gamemode: u8,
    pub whitelisted: bool,
}

/// How chat lines are shown.
#[derive(Debug, Clone)]
pub struct ChatConfig {
    pub format: String,
}

/// World settings.
#[derive(Debug, Clone)]
pub struct WorldConfig {
    pub difficulty: u8,
}

fn default_motd() -> (s: String)
    ensures
        s@ == "Coral Rust Minecraft Server\nTest Server"@,
{
    "Coral Rust Minecraft Server\nTest Server".to_owned()
}

fn default_port() -> (p: u16)
    ensures
        p == 25565,
{
    25565
}

fn default_max_player() -> (n: u32)
    ensures
        n == 20,
{
    20
}

fn default_online_mode() -> (b: bool)
    ensures
        b,
{
    true
}

fn default_sample_amount() -> (n: i8)
    ensures
        n == 12,
{
    12
}

fn default_gamemode() -> (g: u8)
    ensures
        g == 0,
{
    0
}

fn default_whitelisted() -> (b: bool)
    ensures
        !b,
{
    false
}

fn default_chat_format() -> (s: String)
    ensures
        s@ == "<{username}> {message}"@,
{
    "<{username}> {message}".to_owned()
}

fn default_world_difficulty() -> (d: u8)
    ensures
        d == 0,
{
    0
}

impl Default for ServerConfig {
    fn default() -> (c: Self)
        ensures
            c.motd@ == "Coral Rust Minecraft Server\nTest Server"@,
            c.port == 25565,
            c.max_player == 20,
            c.online_mode,
            c.player_sample_amount == 12,
            c.default_gamemode == 0,
            !c.whitelisted,
    {
        Self {
            motd: default_motd(),
            port: default_port(),
            max_player: default_max_player(),
            online_mode: default_online_mode(),
            player_sample_amount: default_sample_amount(),
            default_gamemode: default_gamemode(),
            whitelisted: default_whitelisted(),
        }
    }
}

impl Default for ChatConfig {
    fn default() -> (c: Self)
        ensures
            c.format@ == "<{username}> {message}"@,
    {
        Self { format: default_chat_format() }
    }
}

impl Default for WorldConfig {
    fn default() -> (c: Self)
        ensures
            c.difficulty == 0,
    {
        Self { difficulty: default_world_difficulty() }
    }
}

} // verus!
