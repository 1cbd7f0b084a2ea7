//! The players allowed on a whitelisted server.

use vstd::prelude::*;
use crate::server::{find_key, first_key_index, key_differs, retain_key_ne, uuid_hyphenated, uuid_text, Keyed};

verus! {

/// A whitelisted player: UUID text and name.
#[derive(Debug, Clone)]
pub struct WhitelistEntry {
    uuid: String,
    name: String,
}

impl WhitelistEntry {
    /// An entry with a UUID text and a name.
    pub fn new(uuid: String, name: String) -> (e: Self)
        ensures
            e.key_view() == uuid@,
            e.name_view() == name@,
    {
        WhitelistEntry { uuid, name }
    }

    /// The player's name.
    pub closed spec fn name_view(&self) -> Seq<char> {
        self.name@
    }

    /// The player's name.
    pub fn name(&self) -> (n: &str)
        ensures
            n@ == self.name_view(),
    {
        self.name.as_str()
    }
}

impl Keyed for WhitelistEntry {
    closed spec fn key_view(&self) -> Seq<char> {
        self.uuid@
    }

    fn key(&self) -> (k: &str) {
        self.uuid.as_str()
    }
}

/// The whitelist.
pub struct WhitelistFile {
    pub entries: Vec<WhitelistEntry>,
}

impl WhitelistFile {
    /// Whether a player is on the whitelist.
    pub fn is_whitelisted(&self, uuid: u128) -> (r: bool)
        ensures
            r == first_key_index(self.entries@, uuid_text(uuid), 0) is Some,
    {
        let key = uuid_hyphenated(uuid);
        find_key(&self.entries, key.as_str()).is_some()
    }

    /// Puts a player on the whitelist, replacing an earlier entry.
    pub fn add(&mut self, uuid: u128, name: String)
        ensures
            final(self).entries@.drop_last() == old(self).entries@.filter(
                key_differs::<WhitelistEntry>(uuid_text(uuid)),
            ),
            final(self).entries@.len() > 0,
            final(self).entries@.last().key_view() == uuid_text(uuid),
            final(self).entries@.last().name_view() == name@,
    {
        let key = uuid_hyphenated(uuid);
        let mut entries = Vec::new();
        std::mem::swap(&mut entries, &mut self.entries);
        let mut entries = retain_key_ne(entries, key.as_str());
        entries.push(WhitelistEntry { uuid: key, name });
        self.entries = entries;
        assert(self.entries@.drop_last() =~= old(self).entries@.filter(
            key_differs::<WhitelistEntry>(uuid_text(uuid)),
        ));
    }

    /// Takes a player off the whitelist; whether it was on it.
    pub fn remove(&mut self, uuid: u128) -> (was_listed: bool)
        ensures
            final(self).entries@ == old(self).entries@.filter(key_differs::<WhitelistEntry>(uuid_text(uuid))),
            was_listed == (final(self).entries@.len() != old(self).entries@.len()),
    {
        let key = uuid_hyphenated(uuid);
        let before = self.entries.len();
        let mut entries = Vec::new();
        std::mem::swap(&mut entries, &mut self.entries);
        self.entries = retain_key_ne(entries, key.as_str());
        self.entries.len() != before
    }
}

} // verus!
