//! Whether a player who logged in may join.

use vstd::prelude::*;
use crate::server::banlist::{BanList, BannedIp};
use crate::server::whitelist::WhitelistFile;
use crate::server::{first_key_index, uuid_text};
use crate::text::push_str;

verus! {

/// The message a banned player is kicked with: a red notice and the reason.
pub open spec fn banned_message(reason: Seq<char>) -> Seq<char> {
    "§cYou are banned!\n§7Reason: §f"@ + reason
}

/// Why a player may not join, as the message they are kicked with: a ban
/// of their UUID (the first one), else a whitelist in force that does not
/// list them. `None` when they may join.
pub fn join_refusal(banlist: &BanList, whitelist: &WhitelistFile, whitelist_enabled: bool, uuid: u128) -> (r: Option<String>)
    ensures
        first_key_index(banlist.players@, uuid_text(uuid), 0) matches Some(i) ==> r matches Some(m) && m@
            == banned_message(banlist.players@[i].reason@),
        first_key_index(banlist.players@, uuid_text(uuid), 0) is None ==> (r is Some <==> whitelist_enabled
            && first_key_index(whitelist.entries@, uuid_text(uuid), 0) is None),
        first_key_index(banlist.players@, uuid_text(uuid), 0) is None ==> (r matches Some(m) ==> m@
            == "You're not whitelisted on this server!"@),
{
    if let Some(ban) = banlist.is_player_banned(uuid) {
        let mut m = String::new();
        push_str(&mut m, "§cYou are banned!\n§7Reason: §f");
        push_str(&mut m, ban.reason.as_str());
        return Some(m);
    }
    if whitelist_enabled && !whitelist.is_whitelisted(uuid) {
        return Some(String::from_str("You're not whitelisted on this server!"));
    }
    None
}

/// The message a client of an unsupported protocol version is kicked with.
pub open spec fn unsupported_message() -> Seq<char> {
    "Unsupported version. Use 1.8.x"@
}

/// The message an IP-banned client is kicked with: a red notice and the
/// reason.
pub open spec fn ip_banned_message(reason: Seq<char>) -> Seq<char> {
    "§cYou are IP banned from this server!\n§7Reason: §f"@ + reason
}

/// Why a login is refused before the player names themselves, checked in
/// this order: a protocol version the server does not speak, more players
/// online than the server takes ("Server is full!"), then a ban of the
/// client's address (`ip_ban`, the first matching ban). `None` when the
/// login may go on.
pub fn login_refusal(version_supported: bool, online: u32, max_players: u32, ip_ban: Option<&BannedIp>) -> (r: Option<
    String,
>)
    ensures
        !version_supported ==> (r matches Some(m) && m@ == unsupported_message()),
        version_supported && online > max_players ==> (r matches Some(m) && m@ == "Server is full!"@),
        version_supported && online <= max_players ==> match ip_ban {
            Some(b) => r matches Some(m) && m@ == ip_banned_message(b.reason@),
            None => r is None,
        },
{
    if !version_supported {
        return Some(String::from_str("Unsupported version. Use 1.8.x"));
    }
    if online > max_players {
        return Some(String::from_str("Server is full!"));
    }
    match ip_ban {
        Some(b) => {
            let mut m = String::new();
            push_str(&mut m, "§cYou are IP banned from this server!\n§7Reason: §f");
            push_str(&mut m, b.reason.as_str());
            Some(m)
        },
        None => None,
    }
}

} // verus!
