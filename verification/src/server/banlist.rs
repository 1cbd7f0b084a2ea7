//! Banned players and addresses.

use vstd::prelude::*;
use crate::server::{
    find_key, first_key_index, key_differs, retain_key_ne, unix_time_nanos, uuid_hyphenated, uuid_text, Keyed,
};
use crate::text::{digits, int_text, push_char, push_decimal, push_str};

verus! {

/// A banned player.
#[derive(Debug, Clone)]
pub struct BannedPlayer {
    pub uuid: String,
    pub name: String,
    pub created: String,
    pub source: String,
    pub expires: String,
    pub reason: String,
}

impl Keyed for BannedPlayer {
    open spec fn key_view(&self) -> Seq<char> {
        self.uuid@
    }

    fn key(&self) -> (k: &str) {
        self.uuid.as_str()
    }
}

/// A banned address.
#[derive(Debug, Clone)]
pub struct BannedIp {
    pub ip: String,
    pub created: String,
    pub source: String,
    pub expires: String,
    pub reason: String,
}

impl Keyed for BannedIp {
    open spec fn key_view(&self) -> Seq<char> {
        self.ip@
    }

    fn key(&self) -> (k: &str) {
        self.ip.as_str()
    }
}

/// The players and addresses that may not join.
pub struct BanList {
    pub players: Vec<BannedPlayer>,
    pub ips: Vec<BannedIp>,
}

/// A number below 100 in two digits.
pub open spec fn two_digits(v: nat) -> Seq<char> {
    if v < 10 {
        seq!['0'] + digits(v)
    } else {
        digits(v)
    }
}

/// The creation stamp of a ban made `secs` seconds after the epoch: the
/// year counted as 365-day years, always January 1st, then the minutes and
/// seconds of the time, and for the hour the whole minutes times 60 modulo
/// 24.
pub open spec fn timestamp_text(secs: u64) -> Seq<char> {
    let s = secs % 60;
    let m = (secs / 60) % 60;
    let h = (secs / 60 * 60) % 24;
    let y = 1970 + secs / 86400 / 365;
    int_text(y) + "-01-01 "@ + two_digits(h as nat) + seq![':'] + two_digits(m as nat) + seq![':'] + two_digits(
        s as nat,
    ) + " +0000"@
}

fn push_two_digits(out: &mut String, v: u64)
    requires
        v < 100,
    ensures
        final(out)@ == old(out)@ + two_digits(v as nat),
{
    if v < 10 {
        push_char(out, '0');
    }
    push_decimal(out, v as i64);
    assert(out@ =~= old(out)@ + two_digits(v as nat));
}

impl BanList {
    /// The creation stamp of a ban made `secs` seconds after the epoch.
    pub fn format_timestamp(secs: u64) -> (t: String)
        ensures
            t@ == timestamp_text(secs),
    {
        let s = secs % 60;
        let m = (secs / 60) % 60;
        let h = (secs / 60 * 60) % 24;
        let days = secs / 86400;
        let y = 1970 + days / 365;
        let mut out = String::new();
        push_decimal(&mut out, y as i64);
        push_str(&mut out, "-01-01 ");
        push_two_digits(&mut out, h);
        push_char(&mut out, ':');
        push_two_digits(&mut out, m);
        push_char(&mut out, ':');
        push_two_digits(&mut out, s);
        push_str(&mut out, " +0000");
        assert(out@ =~= timestamp_text(secs));
        out
    }

    /// The creation stamp of a ban made now.
    fn timestamp() -> (t: String)
        ensures
            exists|secs: u64| t@ == timestamp_text(secs),
    {
        let secs = (unix_time_nanos() / 1_000_000_000) as u64;
        BanList::format_timestamp(secs)
    }

    /// Bans a player: an earlier ban of the same player is replaced by one
    /// made now, which never expires.
    pub fn ban_player(&mut self, uuid: u128, name: &str, reason: &str, source: &str)
        ensures
            final(self).ips@ == old(self).ips@,
            final(self).players@.drop_last() == old(self).players@.filter(key_differs::<BannedPlayer>(uuid_text(uuid))),
            final(self).players@.len() > 0,
            ({
                let p = final(self).players@.last();
                &&& p.uuid@ == uuid_text(uuid)
                &&& p.name@ == name@
                &&& exists|secs: u64| p.created@ == timestamp_text(secs)
                &&& p.source@ == source@
                &&& p.expires@ == "forever"@
                &&& p.reason@ == reason@
            }),
    {
        let key = uuid_hyphenated(uuid);
        let mut players = Vec::new();
        std::mem::swap(&mut players, &mut self.players);
        let mut players = retain_key_ne(players, key.as_str());
        players.push(BannedPlayer {
            uuid: key,
            name: name.to_owned(),
            created: BanList::timestamp(),
            source: source.to_owned(),
            expires: "forever".to_owned(),
            reason: reason.to_owned(),
        });
        self.players = players;
        assert(self.players@.drop_last() =~= old(self).players@.filter(key_differs::<BannedPlayer>(uuid_text(uuid))));
    }

    /// Bans an address: an earlier ban of it is replaced by one made now,
    /// which never expires.
    pub fn ban_ip(&mut self, ip: &str, reason: &str, source: &str)
        ensures
            final(self).players@ == old(self).players@,
            final(self).ips@.drop_last() == old(self).ips@.filter(key_differs::<BannedIp>(ip@)),
            final(self).ips@.len() > 0,
            ({
                let b = final(self).ips@.last();
                &&& b.ip@ == ip@
                &&& exists|secs: u64| b.created@ == timestamp_text(secs)
                &&& b.source@ == source@
                &&& b.expires@ == "forever"@
                &&& b.reason@ == reason@
            }),
    {
        let mut ips = Vec::new();
        std::mem::swap(&mut ips, &mut self.ips);
        let mut ips = retain_key_ne(ips, ip);
        ips.push(BannedIp {
            ip: ip.to_owned(),
            created: BanList::timestamp(),
            source: source.to_owned(),
            expires: "forever".to_owned(),
            reason: reason.to_owned(),
        });
        self.ips = ips;
        assert(self.ips@.drop_last() =~= old(self).ips@.filter(key_differs::<BannedIp>(ip@)));
    }

    /// Lifts the bans of a player; whether there was one.
    pub fn unban_player(&mut self, uuid: u128) -> (was_banned: bool)
        ensures
            final(self).ips@ == old(self).ips@,
            final(self).players@ == old(self).players@.filter(key_differs::<BannedPlayer>(uuid_text(uuid))),
            was_banned == (final(self).players@.len() != old(self).players@.len()),
    {
        let key = uuid_hyphenated(uuid);
        let before = self.players.len();
        let mut players = Vec::new();
        std::mem::swap(&mut players, &mut self.players);
        self.players = retain_key_ne(players, key.as_str());
        self.players.len() != before
    }

    /// Lifts the bans of an address; whether there was one.
    pub fn unban_ip(&mut self, ip: &str) -> (was_banned: bool)
        ensures
            final(self).players@ == old(self).players@,
            final(self).ips@ == old(self).ips@.filter(key_differs::<BannedIp>(ip@)),
            was_banned == (final(self).ips@.len() != old(self).ips@.len()),
    {
        let before = self.ips.len();
        let mut ips = Vec::new();
        std::mem::swap(&mut ips, &mut self.ips);
        self.ips = retain_key_ne(ips, ip);
        self.ips.len() != before
    }

    /// The first ban of a player, if any.
    pub fn is_player_banned(&self, uuid: u128) -> (r: Option<&BannedPlayer>)
        ensures
            r matches Some(p) ==> first_key_index(self.players@, uuid_text(uuid), 0) matches Some(i) && *p
                == self.players@[i],
            r is None ==> first_key_index(self.players@, uuid_text(uuid), 0) is None,
    {
        let key = uuid_hyphenated(uuid);
        match find_key(&self.players, key.as_str()) {
            Some(i) => Some(&self.players[i]),
            None => None,
        }
    }

    /// The first ban of an address, if any.
    pub fn is_ip_banned(&self, ip: &str) -> (r: Option<&BannedIp>)
        ensures
            r matches Some(b) ==> first_key_index(self.ips@, ip@, 0) matches Some(i) && *b == self.ips@[i],
            r is None ==> first_key_index(self.ips@, ip@, 0) is None,
    {
        match find_key(&self.ips, ip) {
            Some(i) => Some(&self.ips[i]),
            None => None,
        }
    }
}

} // verus!
