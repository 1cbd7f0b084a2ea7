//! Server operators and their permission levels.

use vstd::prelude::*;
use crate::server::{find_key, first_key_index, key_differs, retain_key_ne, uuid_hyphenated, uuid_text, Keyed};

verus! {

/// An operator: the player's UUID text, name, and level from 1 to 4.
#[derive(Debug, Clone)]
pub struct OpEntry {
    pub uuid: String,
    pub name: String,
    pub level: u8,
}

impl Keyed for OpEntry {
    open spec fn key_view(&self) -> Seq<char> {
        self.uuid@
    }

    fn key(&self) -> (k: &str) {
        self.uuid.as_str()
    }
}

/// The operator list.
pub struct OpsFile {
    pub entries: Vec<OpEntry>,
}

/// The level of a player: that of the first entry with its UUID, 0 when
/// it has none.
pub open spec fn level_of(entries: Seq<OpEntry>, uuid: u128) -> u8 {
    match first_key_index(entries, uuid_text(uuid), 0) {
        Some(i) => entries[i].level,
        None => 0,
    }
}

impl OpsFile {
    /// Whether a player is an operator.
    pub fn is_op(&self, uuid: u128) -> (r: bool)
        ensures
            r == first_key_index(self.entries@, uuid_text(uuid), 0) is Some,
    {
        let key = uuid_hyphenated(uuid);
        find_key(&self.entries, key.as_str()).is_some()
    }

    /// The level of a player, 0 for one who is not an operator.
    pub fn get_level(&self, uuid: u128) -> (level: u8)
        ensures
            level == level_of(self.entries@, uuid),
    {
        let key = uuid_hyphenated(uuid);
        match find_key(&self.entries, key.as_str()) {
            Some(i) => self.entries[i].level,
            None => 0,
        }
    }

    /// Makes a player an operator at a level, replacing an earlier entry.
    pub fn add(&mut self, uuid: u128, name: &str, level: u8)
        ensures
            final(self).entries@.drop_last() == old(self).entries@.filter(key_differs::<OpEntry>(uuid_text(uuid))),
            final(self).entries@.len() > 0,
            final(self).entries@.last().uuid@ == uuid_text(uuid),
            final(self).entries@.last().name@ == name@,
            final(self).entries@.last().level == level,
    {
        let key = uuid_hyphenated(uuid);
        let mut entries = Vec::new();
        std::mem::swap(&mut entries, &mut self.entries);
        let mut entries = retain_key_ne(entries, key.as_str());
        entries.push(OpEntry { uuid: key, name: name.to_owned(), level });
        self.entries = entries;
        assert(self.entries@.drop_last() =~= old(self).entries@.filter(key_differs::<OpEntry>(uuid_text(uuid))));
    }

    /// Takes a player off the list; whether it was on it.
    pub fn remove(&mut self, uuid: u128) -> (was_op: bool)
        ensures
            final(self).entries@ == old(self).entries@.filter(key_differs::<OpEntry>(uuid_text(uuid))),
            was_op == (final(self).entries@.len() != old(self).entries@.len()),
    {
        let key = uuid_hyphenated(uuid);
        let before = self.entries.len();
        let mut entries = Vec::new();
        std::mem::swap(&mut entries, &mut self.entries);
        self.entries = retain_key_ne(entries, key.as_str());
        self.entries.len() != before
    }
}

} // verus!
