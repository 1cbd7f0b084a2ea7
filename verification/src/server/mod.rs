//! Server lists kept by player id or address: bans, operators and the
//! whitelist; entity ids and kinds.

use vstd::prelude::*;
use crate::text::{push_str, str_eq};

pub mod banlist;
pub mod join;
pub mod ops;
pub mod throttle;
pub mod whitelist;

verus! {

/// The hexadecimal digit of `d`, lowercase.
pub open spec fn hex_digit(d: int) -> char {
    if d < 10 {
        (48 + d) as char
    } else {
        (87 + d) as char
    }
}

/// The low `n` hexadecimal digits of `v`, most significant first.
pub open spec fn hex_digits(v: nat, n: nat) -> Seq<char>
    decreases n,
{
    if n == 0 {
        seq![]
    } else {
        hex_digits(v / 16, (n - 1) as nat).push(hex_digit((v % 16) as int))
    }
}

/// The hyphenated text of a UUID: its 32 lowercase hexadecimal digits,
/// most significant first, in groups of 8, 4, 4, 4 and 12.
pub open spec fn uuid_text(u: u128) -> Seq<char> {
    let h = hex_digits(u as nat, 32);
    h.subrange(0, 8) + seq!['-'] + h.subrange(8, 12) + seq!['-'] + h.subrange(12, 16) + seq!['-'] + h.subrange(
        16,
        20,
    ) + seq!['-'] + h.subrange(20, 32)
}

/// The hyphenated text of a UUID.
///
/// Calls `uuid::Uuid::from_u128(u).hyphenated().to_string()`. `from_u128`
/// takes the number's big-endian bytes and the hyphenated formatter writes
/// each byte as two lowercase hexadecimal digits, with '-' after the 4th,
/// 6th, 8th and 10th byte; the contract states that text.
#[verifier::external_body]
pub(crate) fn uuid_hyphenated(u: u128) -> (s: String)
    ensures
        s@ == uuid_text(u),
{
    uuid::Uuid::from_u128(u).hyphenated().to_string()
}

/// What `uuid::Uuid::new_v3` gives for a namespace and the UTF-8 bytes of
/// a name: the name-based UUID of RFC 9562 made with MD5.
pub uninterp spec fn uuid_v3(namespace: u128, name: Seq<char>) -> u128;

/// The name-based (MD5) UUID of a name in a namespace.
///
/// Calls `uuid::Uuid::new_v3` on the namespace, turned into a `Uuid` by
/// `from_u128`, and the name's UTF-8 bytes, and gives the result back as a
/// number by `as_u128`. The result depends on its arguments alone and is
/// named.
#[verifier::external_body]
fn uuid_new_v3(namespace: u128, name: &str) -> (r: u128)
    ensures
        r == uuid_v3(namespace, name@),
{
    uuid::Uuid::new_v3(&uuid::Uuid::from_u128(namespace), name.as_bytes()).as_u128()
}

/// The DNS namespace of RFC 9562, 6ba7b810-9dad-11d1-80b4-00c04fd430c8.
pub const DNS_NAMESPACE: u128 = 0x6ba7b810_9dad_11d1_80b4_00c04fd430c8u128;

/// The UUID a player gets on a server that does not authenticate: the
/// name-based UUID of "OfflinePlayer:" and the name, in the DNS namespace.
pub open spec fn offline_uuid_of(name: Seq<char>) -> u128 {
    uuid_v3(DNS_NAMESPACE, "OfflinePlayer:"@ + name)
}

/// The offline-mode UUID of a player name.
pub fn offline_uuid(name: &str) -> (u: u128)
    ensures
        u == offline_uuid_of(name@),
{
    let mut text = String::new();
    push_str(&mut text, "OfflinePlayer:");
    push_str(&mut text, name);
    uuid_new_v3(DNS_NAMESPACE, text.as_str())
}

/// A list entry found by a text key: a player's UUID text or an address.
pub trait Keyed {
    /// The key of the entry.
    spec fn key_view(&self) -> Seq<char>;

    /// The key of the entry.
    fn key(&self) -> (k: &str)
        ensures
            k@ == self.key_view(),
    ;
}

/// Whether an entry's key differs from `k`.
pub open spec fn key_differs<T: Keyed>(k: Seq<char>) -> spec_fn(T) -> bool {
    |e: T| e.key_view() != k
}

/// The entries whose key differs from `k`, in their order.
pub fn retain_key_ne<T: Keyed>(entries: Vec<T>, k: &str) -> (r: Vec<T>)
    ensures
        r@ == entries@.filter(key_differs::<T>(k@)),
{
    let mut rest = entries;
    let ghost all = rest@;
    let mut kept: Vec<T> = Vec::new();
    let ghost mut done: int = 0;
    while rest.len() > 0
        invariant
            0 <= done <= all.len(),
            rest@ == all.skip(done),
            kept@ == all.take(done).filter(key_differs::<T>(k@)),
        decreases rest.len(),
    {
        let e = rest.remove(0);
        let ghost pred = key_differs::<T>(k@);
        proof {
            assert(all.take(done + 1) =~= all.take(done).push(e));
            all.take(done).lemma_filter_push(e, pred);
            assert(all.take(done + 1).filter(pred) == if pred(e) {
                all.take(done).filter(pred).push(e)
            } else {
                all.take(done).filter(pred)
            });
        }
        if !str_eq(e.key(), k) {
            kept.push(e);
        }
        proof {
            done = done + 1;
            assert(rest@ =~= all.skip(done));
        }
    }
    assert(all.take(done) =~= all);
    kept
}

/// The first index at or after `i` whose entry has key `k`.
pub open spec fn first_key_index<T: Keyed>(s: Seq<T>, k: Seq<char>, i: int) -> Option<int>
    decreases s.len() - i,
{
    if i < 0 || i >= s.len() {
        None
    } else if s[i].key_view() == k {
        Some(i)
    } else {
        first_key_index(s, k, i + 1)
    }
}

/// The index of the first entry with key `k`.
pub fn find_key<T: Keyed>(entries: &Vec<T>, k: &str) -> (r: Option<usize>)
    ensures
        r matches Some(i) ==> first_key_index(entries@, k@, 0) == Some(i as int) && i < entries@.len(),
        r is None ==> first_key_index(entries@, k@, 0) is None,
{
    let mut i: usize = 0;
    while i < entries.len()
        invariant
            i <= entries@.len(),
            first_key_index(entries@, k@, 0) == first_key_index(entries@, k@, i as int),
        decreases entries.len() - i,
    {
        if str_eq(entries[i].key(), k) {
            return Some(i);
        }
        i = i + 1;
    }
    None
}

pub proof fn lemma_first_key_index<T: Keyed>(s: Seq<T>, k: Seq<char>, i: int)
    requires
        0 <= i,
    ensures
        first_key_index(s, k, i) matches Some(j) ==> i <= j < s.len() && s[j].key_view() == k,
        first_key_index(s, k, i) is None ==> forall|j: int| i <= j < s.len() ==> s[j].key_view() != k,
    decreases s.len() - i,
{
    if 0 <= i < s.len() && s[i].key_view() != k {
        lemma_first_key_index(s, k, i + 1);
    }
}

/// Once every entry with key `k` is dropped, no entry has key `k`.
pub proof fn law_retain_drops_key<T: Keyed>(s: Seq<T>, k: Seq<char>)
    ensures
        first_key_index(s.filter(key_differs::<T>(k)), k, 0) is None,
{
    let f = s.filter(key_differs::<T>(k));
    broadcast use vstd::seq_lib::group_filter_ensures;
    lemma_first_key_index(f, k, 0);
    if first_key_index(f, k, 0) is Some {
        let j = first_key_index(f, k, 0).unwrap();
        assert(key_differs::<T>(k)(f[j]));
    }
}

/// An entry with key `k` pushed after every other entry with key `k` was
/// dropped is the one found by `k`.
pub proof fn law_replace_finds_new<T: Keyed>(s: Seq<T>, e: T)
    ensures
        first_key_index(s.filter(key_differs::<T>(e.key_view())).push(e), e.key_view(), 0) == Some(
            s.filter(key_differs::<T>(e.key_view())).len() as int,
        ),
{
    let k = e.key_view();
    let f = s.filter(key_differs::<T>(k));
    broadcast use vstd::seq_lib::group_filter_ensures;
    lemma_first_key_index(f.push(e), k, 0);
    let r = first_key_index(f.push(e), k, 0);
    if r is None {
        assert(f.push(e)[f.len() as int] == e);
    } else {
        let j = r.unwrap();
        if j < f.len() {
            assert(f.push(e)[j] == f[j]);
            assert(key_differs::<T>(k)(f[j]));
        }
    }
}

/// The kinds of entities the server tracks.
#[derive(Debug, Clone, Copy, PartialEq, Eq)]
pub enum EntityType {
    Player,
    Mob,
    Item,
    ExperienceOrb,
}

/// Hands out entity ids, counting up from 1.
pub struct EntityIdCounter {
    pub next: i32,
}

impl EntityIdCounter {
    /// A counter whose first id is 1.
    pub fn new() -> (c: Self)
        ensures
            c.next == 1,
    {
        EntityIdCounter { next: 1 }
    }
}

/// The next entity id: the counter's value, which then moves on by one,
/// wrapping past the largest `i32`.
pub fn next_entity_id(counter: &mut EntityIdCounter) -> (id: i32)
    ensures
        id == old(counter).next,
        final(counter).next == (if old(counter).next == i32::MAX { i32::MIN } else { (old(counter).next + 1) as i32 }),
{
    let id = counter.next;
    counter.next = if id == i32::MAX {
        i32::MIN
    } else {
        id + 1
    };
    id
}

#[verifier::external_type_specification]
#[verifier::external_body]
pub struct ExSystemTime(std::time::SystemTime);

/// The time now.
///
/// Calls `SystemTime::now`; nothing is claimed of the time.
#[verifier::external_body]
fn system_time_now() -> std::time::SystemTime {
    std::time::SystemTime::now()
}

/// How long after the Unix epoch a time is, `None` for a time before it.
///
/// Calls `SystemTime::duration_since` with `UNIX_EPOCH`, whose error is a
/// time before the epoch; nothing is claimed of the duration.
#[verifier::external_body]
fn since_unix_epoch(t: &std::time::SystemTime) -> Option<std::time::Duration> {
    match t.duration_since(std::time::UNIX_EPOCH) {
        Ok(d) => Some(d),
        Err(_) => None,
    }
}

/// A duration in nanoseconds.
///
/// Calls `Duration::as_nanos`; nothing is claimed of the number, which
/// depends on the clock the duration came from.
#[verifier::external_body]
fn duration_nanos(d: &std::time::Duration) -> u128 {
    d.as_nanos()
}

/// The current time, in nanoseconds since the Unix epoch, 0 when the
/// clock is before it. Nothing is claimed of the time.
pub(crate) fn unix_time_nanos() -> u128 {
    let now = system_time_now();
    match since_unix_epoch(&now) {
        Some(d) => duration_nanos(&d),
        None => 0,
    }
}

} // verus!
