//! Refusing connections that come again too soon from one address.

use vstd::prelude::*;

verus! {

/// An IP address: four bytes or sixteen, as one number.
#[derive(Debug, Clone, Copy, PartialEq, Eq, Structural)]
pub enum IpAddress {
    V4(u32),
    V6(u128),
}

/// Whether an address is the local host: 127.0.0.0/8 or ::1.
pub open spec fn is_loopback_ip(ip: IpAddress) -> bool {
    match ip {
        IpAddress::V4(a) => a / 0x100_0000 == 127,
        IpAddress::V6(a) => a == 1,
    }
}

impl IpAddress {
    /// Whether the address is the local host.
    pub fn is_loopback(&self) -> (r: bool)
        ensures
            r == is_loopback_ip(*self),
    {
        match self {
            IpAddress::V4(a) => *a / 0x100_0000 == 127,
            IpAddress::V6(a) => *a == 1,
        }
    }
}

/// When an address last connected: the time of the first entry for it.
pub open spec fn last_seen(entries: Seq<(IpAddress, u64)>, ip: IpAddress) -> Option<u64> {
    match first_index_of(entries, ip, 0) {
        Some(i) => Some(entries[i].1),
        None => None,
    }
}

/// Milliseconds from `then` to `now`, 0 when `then` is later.
pub open spec fn elapsed(now: u64, then: u64) -> int {
    if now >= then {
        now - then
    } else {
        0
    }
}

/// The entries with the time of `ip` set to `now`: in place when it has
/// one, at the end otherwise.
pub open spec fn with_time(entries: Seq<(IpAddress, u64)>, ip: IpAddress, now: u64) -> Seq<(IpAddress, u64)> {
    match first_index_of(entries, ip, 0) {
        Some(i) => entries.update(i, (ip, now)),
        None => entries.push((ip, now)),
    }
}

/// The first index at or after `i` of an entry for `ip`.
pub open spec fn first_index_of(entries: Seq<(IpAddress, u64)>, ip: IpAddress, i: int) -> Option<int>
    decreases entries.len() - i,
{
    if i < 0 || i >= entries.len() {
        None
    } else if entries[i].0 == ip {
        Some(i)
    } else {
        first_index_of(entries, ip, i + 1)
    }
}

/// Whether an entry was seen within the last minute before `now`.
pub open spec fn seen_within_minute(now: u64) -> spec_fn((IpAddress, u64)) -> bool {
    |e: (IpAddress, u64)| elapsed(now, e.1) < 60_000
}

/// The entries after a connection allowed at `now`: its time recorded, and
/// once more than 1000 addresses are kept, those not seen within the last
/// minute forgotten.
pub open spec fn entries_after_allow(entries: Seq<(IpAddress, u64)>, ip: IpAddress, now: u64) -> Seq<(IpAddress, u64)> {
    let e = with_time(entries, ip, now);
    if e.len() > 1000 {
        e.filter(seen_within_minute(now))
    } else {
        e
    }
}

/// Whether a connection from `ip` at `now` is allowed: always from the
/// local host, otherwise unless the address connected less than
/// `throttle_ms` milliseconds before.
pub open spec fn connection_allowed(entries: Seq<(IpAddress, u64)>, ip: IpAddress, now: u64, throttle_ms: u64) -> bool {
    is_loopback_ip(ip) || match last_seen(entries, ip) {
        Some(t) => elapsed(now, t) >= throttle_ms,
        None => true,
    }
}

/// No address has two entries.
pub open spec fn distinct_addresses(entries: Seq<(IpAddress, u64)>) -> bool {
    forall|i: int, j: int| 0 <= i < j < entries.len() ==> (#[trigger] entries[i]).0 != (#[trigger] entries[j]).0
}

/// The time each address last connected, and the least time between two
/// connections from one address.
pub struct ConnectionThrottle {
    last_connection: Vec<(IpAddress, u64)>,
    throttle_ms: u64,
}

impl ConnectionThrottle {
    /// The addresses and the times they last connected, in the order first
    /// seen.
    pub closed spec fn entries(&self) -> Seq<(IpAddress, u64)> {
        self.last_connection@
    }

    /// The least time between two connections from one address.
    pub closed spec fn limit(&self) -> u64 {
        self.throttle_ms
    }

    /// A throttle that has seen no connection.
    pub fn new(throttle_ms: u64) -> (t: Self)
        ensures
            t.entries() == Seq::<(IpAddress, u64)>::empty(),
            t.limit() == throttle_ms,
            distinct_addresses(t.entries()),
    {
        ConnectionThrottle { last_connection: Vec::new(), throttle_ms }
    }

    /// Whether a connection from `ip` at `now_ms` (milliseconds on a clock
    /// that does not go back) is allowed; an allowed connection from
    /// another host than the local one is recorded.
    pub fn check(&mut self, ip: IpAddress, now_ms: u64) -> (r: bool)
        ensures
            r == connection_allowed(old(self).entries(), ip, now_ms, old(self).limit()),
            final(self).limit() == old(self).limit(),
            final(self).entries() == if r && !is_loopback_ip(ip) {
                entries_after_allow(old(self).entries(), ip, now_ms)
            } else {
                old(self).entries()
            },
            distinct_addresses(old(self).entries()) ==> distinct_addresses(final(self).entries()),
    {
        proof {
            if distinct_addresses(old(self).entries()) && !is_loopback_ip(ip) {
                law_throttle_addresses_distinct(old(self).entries(), ip, now_ms);
            }
        }
        if ip.is_loopback() {
            return true;
        }
        let ghost old_entries = self.last_connection@;
        let mut i: usize = 0;
        while i < self.last_connection.len()
            invariant
                i <= self.last_connection@.len(),
                *self == *old(self),
                old_entries == old(self).entries(),
                !is_loopback_ip(ip),
                first_index_of(old_entries, ip, 0) == first_index_of(old_entries, ip, i as int),
                distinct_addresses(old_entries) ==> distinct_addresses(entries_after_allow(old_entries, ip, now_ms)),
            decreases self.last_connection.len() - i,
        {
            if self.last_connection[i].0 == ip {
                let last = self.last_connection[i].1;
                let since = if now_ms >= last {
                    now_ms - last
                } else {
                    0
                };
                if since < self.throttle_ms {
                    return false;
                }
                self.last_connection.set(i, (ip, now_ms));
                self.prune(now_ms);
                return true;
            }
            i = i + 1;
        }
        self.last_connection.push((ip, now_ms));
        self.prune(now_ms);
        true
    }

    /// Forgets addresses not seen within a minute of `now_ms`, once more
    /// than 1000 are kept.
    fn prune(&mut self, now_ms: u64)
        ensures
            final(self).limit() == old(self).limit(),
            final(self).entries() == if old(self).entries().len() > 1000 {
                old(self).entries().filter(seen_within_minute(now_ms))
            } else {
                old(self).entries()
            },
    {
        if self.last_connection.len() <= 1000 {
            return;
        }
        let ghost all = self.last_connection@;
        let ghost pred = seen_within_minute(now_ms);
        let mut kept: Vec<(IpAddress, u64)> = Vec::new();
        let mut i: usize = 0;
        while i < self.last_connection.len()
            invariant
                i <= all.len(),
                self.last_connection@ == all,
                pred == seen_within_minute(now_ms),
                kept@ == all.take(i as int).filter(pred),
            decreases self.last_connection.len() - i,
        {
            let e = self.last_connection[i];
            proof {
                assert(all.take(i + 1) =~= all.take(i as int).push(e));
                all.take(i as int).lemma_filter_push(e, pred);
            }
            let since = if now_ms >= e.1 {
                now_ms - e.1
            } else {
                0
            };
            if since < 60_000 {
                kept.push(e);
            }
            i = i + 1;
        }
        assert(all.take(i as int) =~= all);
        self.last_connection = kept;
    }
}

/// The first entry for `ip` at or after `i` is at `k` exactly when `k` holds
/// `ip` and no entry from `i` to `k` does.
proof fn lemma_first_index(entries: Seq<(IpAddress, u64)>, ip: IpAddress, i: int, k: int)
    requires
        0 <= i <= k < entries.len(),
        entries[k].0 == ip,
        forall|j: int| i <= j < k ==> (#[trigger] entries[j]).0 != ip,
    ensures
        first_index_of(entries, ip, i) == Some(k),
    decreases k - i,
{
    if i < k {
        lemma_first_index(entries, ip, i + 1, k);
    }
}

/// What `first_index_of` finds holds `ip`, and nothing before it does.
proof fn lemma_first_index_found(entries: Seq<(IpAddress, u64)>, ip: IpAddress, i: int)
    requires
        0 <= i,
    ensures
        match first_index_of(entries, ip, i) {
            Some(k) => i <= k < entries.len() && entries[k].0 == ip && forall|j: int|
                i <= j < k ==> (#[trigger] entries[j]).0 != ip,
            None => forall|j: int| i <= j < entries.len() ==> (#[trigger] entries[j]).0 != ip,
        },
    decreases entries.len() - i,
{
    if i < entries.len() && entries[i].0 != ip {
        lemma_first_index_found(entries, ip, i + 1);
    }
}

/// A connection allowed at `t1` from an address other than the local host
/// is followed by a refusal of the next from that address less than the
/// limit later.
pub proof fn law_reconnect_too_soon_refused(
    entries: Seq<(IpAddress, u64)>,
    ip: IpAddress,
    t1: u64,
    t2: u64,
    throttle_ms: u64,
)
    requires
        !is_loopback_ip(ip),
        t1 <= t2,
        t2 - t1 < throttle_ms,
    ensures
        !connection_allowed(entries_after_allow(entries, ip, t1), ip, t2, throttle_ms),
{
    let e = with_time(entries, ip, t1);
    lemma_first_index_found(entries, ip, 0);
    let k: int = match first_index_of(entries, ip, 0) {
        Some(i) => i,
        None => entries.len() as int,
    };
    assert(e[k] == (ip, t1));
    assert(forall|j: int| 0 <= j < k ==> (#[trigger] e[j]).0 != ip);
    let pred = seen_within_minute(t1);
    if e.len() > 1000 {
        let a = e.take(k);
        let b = e.skip(k + 1);
        assert(e =~= a + seq![e[k]] + b);
        Seq::filter_distributes_over_add(a + seq![e[k]], b, pred);
        Seq::filter_distributes_over_add(a, seq![e[k]], pred);
        assert(seq![e[k]].filter(pred) =~= seq![e[k]]) by {
            reveal(Seq::filter);
            assert(seq![e[k]].drop_last() =~= Seq::<(IpAddress, u64)>::empty());
        }
        let fa = a.filter(pred);
        let f = e.filter(pred);
        assert(f =~= fa + seq![e[k]] + b.filter(pred));
        assert forall|j: int| 0 <= j < fa.len() implies (#[trigger] fa[j]).0 != ip by {
            a.lemma_filter_contains_rev(pred, fa[j]);
            assert(a.contains(fa[j])) by {
                broadcast use vstd::seq_lib::group_filter_ensures;
            }
        }
        assert(f[fa.len() as int] == (ip, t1));
        lemma_first_index(f, ip, 0, fa.len() as int);
    } else {
        lemma_first_index(e, ip, 0, k);
    }
}

/// Keeping only some entries keeps the addresses apart.
proof fn lemma_filter_distinct(s: Seq<(IpAddress, u64)>, pred: spec_fn((IpAddress, u64)) -> bool)
    requires
        distinct_addresses(s),
    ensures
        distinct_addresses(s.filter(pred)),
    decreases s.len(),
{
    reveal_with_fuel(Seq::<(IpAddress, u64)>::filter, 1);
    if s.len() > 0 {
        let rest = s.drop_last();
        assert(distinct_addresses(rest)) by {
            assert forall|i: int, j: int| 0 <= i < j < rest.len() implies (#[trigger] rest[i]).0
                != (#[trigger] rest[j]).0 by {
                assert(rest[i] == s[i] && rest[j] == s[j]);
            }
        }
        lemma_filter_distinct(rest, pred);
        let fr = rest.filter(pred);
        if pred(s.last()) {
            assert forall|k: int| 0 <= k < fr.len() implies fr[k].0 != s.last().0 by {
                assert(fr.contains(fr[k]));
                rest.lemma_filter_contains_rev(pred, fr[k]);
                let m = choose|m: int| 0 <= m < rest.len() && rest[m] == fr[k];
                assert(s[m] == rest[m]);
                assert(s[s.len() - 1] == s.last());
            }
            let out = fr.push(s.last());
            assert(s.filter(pred) == out);
            assert forall|i: int, j: int| 0 <= i < j < out.len() implies (#[trigger] out[i]).0
                != (#[trigger] out[j]).0 by {
                if j == out.len() - 1 {
                    assert(out[i] == fr[i]);
                } else {
                    assert(out[i] == fr[i] && out[j] == fr[j]);
                }
            }
        }
    }
}

/// A throttle keeps at most one entry for each address: recording an
/// allowed connection, and forgetting old entries, keep the addresses
/// apart.
pub proof fn law_throttle_addresses_distinct(entries: Seq<(IpAddress, u64)>, ip: IpAddress, now: u64)
    requires
        distinct_addresses(entries),
    ensures
        distinct_addresses(entries_after_allow(entries, ip, now)),
{
    lemma_first_index_found(entries, ip, 0);
    let e = with_time(entries, ip, now);
    assert(distinct_addresses(e)) by {
        match first_index_of(entries, ip, 0) {
            Some(k) => {
                assert forall|i: int, j: int| 0 <= i < j < e.len() implies (#[trigger] e[i]).0
                    != (#[trigger] e[j]).0 by {
                    assert(e[i].0 == entries[i].0 && e[j].0 == entries[j].0);
                }
            },
            None => {
                assert forall|i: int, j: int| 0 <= i < j < e.len() implies (#[trigger] e[i]).0
                    != (#[trigger] e[j]).0 by {
                    if j == entries.len() {
                        assert(e[i] == entries[i]);
                    } else {
                        assert(e[i] == entries[i] && e[j] == entries[j]);
                    }
                }
            },
        }
    }
    if e.len() > 1000 {
        lemma_filter_distinct(e, seen_within_minute(now));
    }
}

} // verus!
