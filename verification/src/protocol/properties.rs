//! Named lists of profile properties.

use vstd::prelude::*;
use crate::server::{find_key, first_key_index, key_differs, lemma_first_key_index, retain_key_ne, Keyed};

verus! {

/// A profile property: a name and a value.
#[derive(Debug, Clone)]
pub struct Property {
    pub name: String,
    pub value: String,
}

/// The properties kept under one key.
#[derive(Debug)]
pub struct PropertyEntry {
    pub key: String,
    pub values: Vec<Property>,
}

impl Keyed for PropertyEntry {
    open spec fn key_view(&self) -> Seq<char> {
        self.key@
    }

    fn key(&self) -> (k: &str) {
        self.key.as_str()
    }
}

/// Lists of properties by key. A key's list is that of its first entry;
/// the map's own operations keep each key in one entry.
#[derive(Debug)]
pub struct PropertyMap {
    properties: Vec<PropertyEntry>,
}

/// Each key's list, from the first entry with that key.
pub open spec fn entries_map(entries: Seq<PropertyEntry>) -> Map<Seq<char>, Seq<Property>>
    decreases entries.len(),
{
    if entries.len() == 0 {
        Map::empty()
    } else {
        let m = entries_map(entries.drop_last());
        let e = entries.last();
        if m.contains_key(e.key@) {
            m
        } else {
            m.insert(e.key@, e.values@)
        }
    }
}

/// No key is in two entries.
pub open spec fn distinct_keys(s: Seq<PropertyEntry>) -> bool {
    forall|i: int, j: int| 0 <= i < j < s.len() ==> (#[trigger] s[i]).key@ != (#[trigger] s[j]).key@
}

impl View for PropertyMap {
    type V = Map<Seq<char>, Seq<Property>>;

    closed spec fn view(&self) -> Map<Seq<char>, Seq<Property>> {
        entries_map(self.properties@)
    }
}

impl PropertyMap {
    /// The entries, in order.
    pub closed spec fn entries(&self) -> Seq<PropertyEntry> {
        self.properties@
    }

    /// An empty map.
    pub fn new() -> (m: Self)
        ensures
            m@ == Map::<Seq<char>, Seq<Property>>::empty(),
            m.entries() == Seq::<PropertyEntry>::empty(),
            distinct_keys(m.entries()),
    {
        let m = PropertyMap { properties: Vec::new() };
        assert(m@ =~= Map::<Seq<char>, Seq<Property>>::empty());
        m
    }

    /// The entries.
    pub fn delegate(&self) -> (r: &Vec<PropertyEntry>)
        ensures
            r@ == self.entries(),
    {
        &self.properties
    }

    /// The entries, to change in place. What the caller leaves there is the
    /// map's entries; a key it puts in two entries reads as its first.
    pub fn delegate_mut(&mut self) -> (r: &mut Vec<PropertyEntry>)
        ensures
            r@ == old(self).entries(),
            final(self).entries() == final(r)@,
    {
        &mut self.properties
    }

    /// Adds a property at the end of a key's list.
    pub fn insert(&mut self, key: String, property: Property)
        ensures
            final(self)@ == old(self)@.insert(
                key@,
                if old(self)@.contains_key(key@) {
                    old(self)@[key@].push(property)
                } else {
                    seq![property]
                },
            ),
            distinct_keys(old(self).entries()) ==> distinct_keys(final(self).entries()),
    {
        let ghost old_entries = self.properties@;
        match find_key(&self.properties, key.as_str()) {
            Some(i) => {
                let mut e = self.properties.remove(i);
                e.values.push(property);
                self.properties.insert(i, e);
                proof {
                    assert(self.properties@ =~= old_entries.update(i as int, e));
                    lemma_map_find(old_entries, key@);
                    lemma_first_key_index(old_entries, key@, 0);
                    lemma_map_update(old_entries, i as int, e);
                    assert forall|a: int, b: int| 0 <= a < b < self.properties@.len() && distinct_keys(old_entries)
                        implies (#[trigger] self.properties@[a]).key@ != (#[trigger] self.properties@[b]).key@ by {
                        assert(self.properties@[a].key@ == old_entries[a].key@);
                        assert(self.properties@[b].key@ == old_entries[b].key@);
                    }
                }
            },
            None => {
                let ghost k = key@;
                let mut values = Vec::new();
                values.push(property);
                self.properties.push(PropertyEntry { key, values });
                proof {
                    lemma_map_find(old_entries, k);
                    assert(self.properties@.drop_last() =~= old_entries);
                    assert(self.properties@.last().values@ =~= seq![property]);
                    lemma_first_key_index(old_entries, k, 0);
                    assert forall|a: int, b: int| 0 <= a < b < self.properties@.len() && distinct_keys(old_entries)
                        implies (#[trigger] self.properties@[a]).key@ != (#[trigger] self.properties@[b]).key@ by {
                        assert(self.properties@[a] == old_entries[a]);
                        if b < old_entries.len() {
                            assert(self.properties@[b] == old_entries[b]);
                        } else {
                            assert(old_entries[a].key_view() != k);
                        }
                    }
                }
            },
        }
        assert(self@ =~= old(self)@.insert(
            key@,
            if old(self)@.contains_key(key@) {
                old(self)@[key@].push(property)
            } else {
                seq![property]
            },
        ));
    }

    /// The list of a key.
    pub fn get(&self, key: &str) -> (r: Option<&Vec<Property>>)
        ensures
            r matches Some(v) ==> self@.contains_key(key@) && v@ == self@[key@],
            r is None ==> !self@.contains_key(key@),
    {
        proof {
            lemma_map_find(self.properties@, key@);
        }
        match find_key(&self.properties, key) {
            Some(i) => Some(&self.properties[i].values),
            None => None,
        }
    }

    /// Removes a key and gives its list back.
    pub fn remove(&mut self, key: &str) -> (r: Option<Vec<Property>>)
        ensures
            final(self)@ == old(self)@.remove(key@),
            r matches Some(v) ==> old(self)@.contains_key(key@) && v@ == old(self)@[key@],
            r is None ==> !old(self)@.contains_key(key@),
            distinct_keys(old(self).entries()) ==> distinct_keys(final(self).entries()),
    {
        let mut entries = Vec::new();
        std::mem::swap(&mut entries, &mut self.properties);
        let ghost old_entries = entries@;
        let found = find_key(&entries, key);
        match found {
            Some(i) => {
                let e = entries.remove(i);
                let kept = retain_key_ne(entries, key);
                self.properties = kept;
                proof {
                    lemma_first_key_index(old_entries, key@, 0);
                    lemma_map_find(old_entries, key@);
                    lemma_filter_remove(old_entries, i as int, key@);
                    lemma_map_filter(old_entries, key@);
                    if distinct_keys(old_entries) {
                        lemma_filter_distinct_keys(old_entries, key_differs::<PropertyEntry>(key@));
                    }
                }
                assert(self@ =~= old(self)@.remove(key@));
                Some(e.values)
            },
            None => {
                self.properties = entries;
                proof {
                    lemma_map_find(old_entries, key@);
                }
                assert(self@ =~= old(self)@.remove(key@));
                None
            },
        }
    }

    /// Removes every key.
    pub fn clear(&mut self)
        ensures
            final(self)@ == Map::<Seq<char>, Seq<Property>>::empty(),
            distinct_keys(final(self).entries()),
    {
        self.properties = Vec::new();
        assert(self@ =~= Map::<Seq<char>, Seq<Property>>::empty());
    }
}

proof fn lemma_first_push(a: Seq<PropertyEntry>, e: PropertyEntry, k: Seq<char>, j: int)
    requires
        0 <= j <= a.len(),
    ensures
        first_key_index(a.push(e), k, j) == match first_key_index(a, k, j) {
            Some(i) => Some(i),
            None => if e.key_view() == k {
                Some(a.len() as int)
            } else {
                None
            },
        },
    decreases a.len() - j,
{
    if j < a.len() {
        assert(a.push(e)[j] == a[j]);
        if a[j].key_view() != k {
            lemma_first_push(a, e, k, j + 1);
        }
    } else {
        assert(a.push(e)[j] == e);
        assert(first_key_index(a.push(e), k, j + 1) is None);
    }
}

/// A key has a list exactly when an entry has it, and the list is that of
/// its first entry.
proof fn lemma_map_find(s: Seq<PropertyEntry>, k: Seq<char>)
    ensures
        entries_map(s).contains_key(k) <==> first_key_index(s, k, 0) is Some,
        first_key_index(s, k, 0) matches Some(i) ==> entries_map(s)[k] == s[i].values@,
    decreases s.len(),
{
    if s.len() > 0 {
        let a = s.drop_last();
        let e = s.last();
        lemma_map_find(a, k);
        assert(a.push(e) =~= s);
        lemma_first_push(a, e, k, 0);
        lemma_first_key_index(a, k, 0);
    }
}

/// Dropping the entries of a key drops the key.
proof fn lemma_map_filter(s: Seq<PropertyEntry>, key: Seq<char>)
    ensures
        entries_map(s.filter(key_differs::<PropertyEntry>(key))) == entries_map(s).remove(key),
    decreases s.len(),
{
    let p = key_differs::<PropertyEntry>(key);
    if s.len() == 0 {
        assert(s.filter(p) =~= s) by {
            reveal(Seq::filter);
        }
        assert(entries_map(s).remove(key) =~= entries_map(s));
    } else {
        let a = s.drop_last();
        let e = s.last();
        assert(a.push(e) =~= s);
        a.lemma_filter_push(e, p);
        lemma_map_filter(a, key);
        let m = entries_map(a);
        if e.key@ == key {
            assert(entries_map(s).remove(key) =~= m.remove(key));
        } else {
            let f = a.filter(p);
            assert(f.push(e).drop_last() =~= f);
            assert(entries_map(f.push(e)) =~= entries_map(s).remove(key));
        }
    }
}

/// Replacing the first entry of a key by one with the same key and another
/// list changes that key's list only.
proof fn lemma_map_update(s: Seq<PropertyEntry>, i: int, e: PropertyEntry)
    requires
        first_key_index(s, e.key@, 0) == Some(i),
    ensures
        entries_map(s.update(i, e)) == entries_map(s).insert(e.key@, e.values@),
    decreases s.len(),
{
    lemma_first_key_index(s, e.key@, 0);
    let a = s.drop_last();
    let l = s.last();
    assert(a.push(l) =~= s);
    lemma_first_push(a, l, e.key@, 0);
    lemma_first_key_index(a, e.key@, 0);
    if i == s.len() - 1 {
        assert(s.update(i, e).drop_last() =~= a);
        assert(s.update(i, e).last() == e);
        lemma_map_find(a, e.key@);
        assert(entries_map(s.update(i, e)) =~= entries_map(s).insert(e.key@, e.values@));
    } else {
        assert(s.update(i, e).drop_last() =~= a.update(i, e));
        lemma_map_update(a, i, e);
        lemma_map_find(a, e.key@);
        assert(entries_map(s.update(i, e)) =~= entries_map(s).insert(e.key@, e.values@));
    }
}

/// Without the first entry of a key, dropping the key's other entries
/// leaves what dropping all of them does.
proof fn lemma_filter_remove(s: Seq<PropertyEntry>, i: int, key: Seq<char>)
    requires
        0 <= i < s.len(),
        s[i].key@ == key,
    ensures
        s.remove(i).filter(key_differs::<PropertyEntry>(key)) == s.filter(key_differs::<PropertyEntry>(key)),
{
    let p = key_differs::<PropertyEntry>(key);
    assert(s =~= s.take(i) + (seq![s[i]] + s.skip(i + 1)));
    assert(s.remove(i) =~= s.take(i) + s.skip(i + 1));
    Seq::filter_distributes_over_add(s.take(i), seq![s[i]] + s.skip(i + 1), p);
    Seq::filter_distributes_over_add(seq![s[i]], s.skip(i + 1), p);
    Seq::filter_distributes_over_add(s.take(i), s.skip(i + 1), p);
    assert(seq![s[i]].filter(p) =~= Seq::<PropertyEntry>::empty()) by {
        assert(Seq::<PropertyEntry>::empty().filter(p) =~= Seq::<PropertyEntry>::empty()) by {
            reveal(Seq::filter);
        }
        Seq::<PropertyEntry>::empty().lemma_filter_push(s[i], p);
        assert(Seq::<PropertyEntry>::empty().push(s[i]) =~= seq![s[i]]);
    }
}

/// Keeping only some entries keeps the keys apart.
proof fn lemma_filter_distinct_keys(s: Seq<PropertyEntry>, pred: spec_fn(PropertyEntry) -> bool)
    requires
        distinct_keys(s),
    ensures
        distinct_keys(s.filter(pred)),
    decreases s.len(),
{
    reveal_with_fuel(Seq::<PropertyEntry>::filter, 1);
    if s.len() > 0 {
        let rest = s.drop_last();
        assert(distinct_keys(rest)) by {
            assert forall|i: int, j: int| 0 <= i < j < rest.len() implies (#[trigger] rest[i]).key@
                != (#[trigger] rest[j]).key@ by {
                assert(rest[i] == s[i] && rest[j] == s[j]);
            }
        }
        lemma_filter_distinct_keys(rest, pred);
        let fr = rest.filter(pred);
        if pred(s.last()) {
            assert forall|k: int| 0 <= k < fr.len() implies fr[k].key@ != s.last().key@ by {
                assert(fr.contains(fr[k]));
                rest.lemma_filter_contains_rev(pred, fr[k]);
                let m = choose|m: int| 0 <= m < rest.len() && rest[m] == fr[k];
                assert(s[m] == rest[m]);
                assert(s[s.len() - 1] == s.last());
            }
            let out = fr.push(s.last());
            assert(s.filter(pred) == out);
            assert forall|i: int, j: int| 0 <= i < j < out.len() implies (#[trigger] out[i]).key@
                != (#[trigger] out[j]).key@ by {
                if j == out.len() - 1 {
                    assert(out[i] == fr[i]);
                } else {
                    assert(out[i] == fr[i] && out[j] == fr[j]);
                }
            }
        }
    }
}

} // verus!
