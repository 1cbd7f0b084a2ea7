//! Status effects on a player: applying, removing and ticking them.

use vstd::prelude::*;

verus! {

/// The status effects the server knows.
#[derive(PartialEq, Eq, Structural, Clone, Copy, Debug)]
pub enum EffectKind {
    Speed,
    Slowness,
    Strength,
    InstantHealth,
    InstantDamage,
    JumpBoost,
    Regeneration,
    Resistance,
    FireResistance,
    WaterBreathing,
    Invisibility,
    NightVision,
    Weakness,
    Poison,
    Wither,
    Absorption,
}

/// The id by which the protocol names an effect.
pub open spec fn effect_id(k: EffectKind) -> u8 {
    match k {
        EffectKind::Speed => 1,
        EffectKind::Slowness => 2,
        EffectKind::Strength => 5,
        EffectKind::InstantHealth => 6,
        EffectKind::InstantDamage => 7,
        EffectKind::JumpBoost => 8,
        EffectKind::Regeneration => 10,
        EffectKind::Resistance => 11,
        EffectKind::FireResistance => 12,
        EffectKind::WaterBreathing => 13,
        EffectKind::Invisibility => 14,
        EffectKind::NightVision => 16,
        EffectKind::Weakness => 18,
        EffectKind::Poison => 19,
        EffectKind::Wither => 20,
        EffectKind::Absorption => 22,
    }
}

impl EffectKind {
    /// The id by which the protocol names this effect.
    pub fn id(&self) -> (r: u8)
        ensures
            r == effect_id(*self),
    {
        match self {
            EffectKind::Speed => 1,
            EffectKind::Slowness => 2,
            EffectKind::Strength => 5,
            EffectKind::InstantHealth => 6,
            EffectKind::InstantDamage => 7,
            EffectKind::JumpBoost => 8,
            EffectKind::Regeneration => 10,
            EffectKind::Resistance => 11,
            EffectKind::FireResistance => 12,
            EffectKind::WaterBreathing => 13,
            EffectKind::Invisibility => 14,
            EffectKind::NightVision => 16,
            EffectKind::Weakness => 18,
            EffectKind::Poison => 19,
            EffectKind::Wither => 20,
            EffectKind::Absorption => 22,
        }
    }
}

/// The effect a splash potion of the given kind gives, if any: 1
/// regeneration, 2 speed, 3 fire resistance, 4 poison, 5 instant health, 6
/// night vision, 7 and 12 instant damage, 8 weakness, 9 strength, 10
/// slowness, 11 jump boost, 13 water breathing, 14 invisibility.
pub open spec fn splash_kind(id: u8) -> Option<EffectKind> {
    if id == 1 {
        Some(EffectKind::Regeneration)
    } else if id == 2 {
        Some(EffectKind::Speed)
    } else if id == 3 {
        Some(EffectKind::FireResistance)
    } else if id == 4 {
        Some(EffectKind::Poison)
    } else if id == 5 {
        Some(EffectKind::InstantHealth)
    } else if id == 6 {
        Some(EffectKind::NightVision)
    } else if id == 7 || id == 12 {
        Some(EffectKind::InstantDamage)
    } else if id == 8 {
        Some(EffectKind::Weakness)
    } else if id == 9 {
        Some(EffectKind::Strength)
    } else if id == 10 {
        Some(EffectKind::Slowness)
    } else if id == 11 {
        Some(EffectKind::JumpBoost)
    } else if id == 13 {
        Some(EffectKind::WaterBreathing)
    } else if id == 14 {
        Some(EffectKind::Invisibility)
    } else {
        None
    }
}

/// The effect a splash potion of the given kind gives, if any.
pub fn splash_effect_kind(id: u8) -> (r: Option<EffectKind>)
    ensures
        r == splash_kind(id),
{
    match id {
        1 => Some(EffectKind::Regeneration),
        2 => Some(EffectKind::Speed),
        3 => Some(EffectKind::FireResistance),
        4 => Some(EffectKind::Poison),
        5 => Some(EffectKind::InstantHealth),
        6 => Some(EffectKind::NightVision),
        7 => Some(EffectKind::InstantDamage),
        8 => Some(EffectKind::Weakness),
        9 => Some(EffectKind::Strength),
        10 => Some(EffectKind::Slowness),
        11 => Some(EffectKind::JumpBoost),
        12 => Some(EffectKind::InstantDamage),
        13 => Some(EffectKind::WaterBreathing),
        14 => Some(EffectKind::Invisibility),
        _ => None,
    }
}

/// An effect on a player: its kind, its strength (0 for level I) and how
/// many ticks it has left.
#[derive(PartialEq, Eq, Structural, Clone, Copy, Debug)]
pub struct ActiveEffect {
    pub kind: EffectKind,
    pub amplifier: u8,
    pub remaining_ticks: i32,
}

impl ActiveEffect {
    pub fn new(kind: EffectKind, amplifier: u8, remaining_ticks: i32) -> (r: Self)
        ensures
            r == (ActiveEffect { kind, amplifier, remaining_ticks }),
    {
        ActiveEffect { kind, amplifier, remaining_ticks }
    }
}

/// The first position from `i` on of an effect of kind `k`.
pub open spec fn find_kind(s: Seq<ActiveEffect>, k: EffectKind, i: int) -> Option<int>
    decreases s.len() - i,
{
    if i < 0 || i >= s.len() {
        None
    } else if s[i].kind == k {
        Some(i)
    } else {
        find_kind(s, k, i + 1)
    }
}

/// The effects after `e` is applied: it replaces the effect of its kind
/// when at least as strong, leaves a stronger one alone, and is added when
/// there is none of its kind.
pub open spec fn applied(s: Seq<ActiveEffect>, e: ActiveEffect) -> Seq<ActiveEffect> {
    match find_kind(s, e.kind, 0) {
        Some(i) => if e.amplifier >= s[i].amplifier {
            s.update(i, e)
        } else {
            s
        },
        None => s.push(e),
    }
}

/// The effects without those of kind `k`, in order.
pub open spec fn without_kind(s: Seq<ActiveEffect>, k: EffectKind) -> Seq<ActiveEffect>
    decreases s.len(),
{
    if s.len() == 0 {
        seq![]
    } else {
        let r = without_kind(s.drop_last(), k);
        if s.last().kind == k {
            r
        } else {
            r.push(s.last())
        }
    }
}

/// No two effects are of one kind.
pub open spec fn kinds_distinct(s: Seq<ActiveEffect>) -> bool {
    forall|i: int, j: int| 0 <= i < j < s.len() ==> s[i].kind != s[j].kind
}

proof fn lemma_find_kind(s: Seq<ActiveEffect>, k: EffectKind, i: int)
    requires
        0 <= i <= s.len(),
    ensures
        find_kind(s, k, i) matches Some(j) ==> (i <= j < s.len() && s[j].kind == k && forall|m: int|
            i <= m < j ==> s[m].kind != k),
        find_kind(s, k, i) is None ==> forall|m: int| i <= m < s.len() ==> s[m].kind != k,
    decreases s.len() - i,
{
    if i < s.len() {
        lemma_find_kind(s, k, i + 1);
    }
}

/// Applies an effect to a player's effects.
pub fn apply_effect(effects: &mut Vec<ActiveEffect>, effect: ActiveEffect)
    ensures
        final(effects)@ == applied(old(effects)@, effect),
{
    let mut i: usize = 0;
    while i < effects.len()
        invariant
            i <= effects@.len(),
            effects@ == old(effects)@,
            find_kind(effects@, effect.kind, 0) == find_kind(effects@, effect.kind, i as int),
        decreases effects@.len() - i,
    {
        if effects[i].kind == effect.kind {
            if effect.amplifier >= effects[i].amplifier {
                effects.set(i, effect);
            }
            return;
        }
        i = i + 1;
    }
    effects.push(effect);
}

/// Removes every effect of a kind, keeping the others in order.
pub fn remove_effect(effects: &mut Vec<ActiveEffect>, kind: EffectKind)
    ensures
        final(effects)@ == without_kind(old(effects)@, kind),
{
    let mut kept: Vec<ActiveEffect> = Vec::new();
    let mut i: usize = 0;
    while i < effects.len()
        invariant
            i <= effects@.len(),
            effects@ == old(effects)@,
            kept@ == without_kind(effects@.take(i as int), kind),
        decreases effects@.len() - i,
    {
        let e = effects[i];
        proof {
            assert(effects@.take(i as int + 1).drop_last() =~= effects@.take(i as int));
        }
        if e.kind != kind {
            kept.push(e);
        }
        i = i + 1;
    }
    proof {
        assert(effects@.take(effects@.len() as int) =~= effects@);
    }
    *effects = kept;
}

/// How often, in ticks, an effect of the given base period acts at the
/// given strength: the period divided by one more than the amplifier, and
/// at least every tick.
pub open spec fn effect_period(base: int, amplifier: u8) -> int {
    let v = base / (1 + amplifier as int);
    if v < 1 {
        1
    } else {
        v
    }
}

/// The effects after a tick: each has one tick fewer.
pub open spec fn effects_ticked(s: Seq<ActiveEffect>) -> Seq<ActiveEffect> {
    s.map_values(|e: ActiveEffect| ActiveEffect { remaining_ticks: (e.remaining_ticks - 1) as i32, ..e })
}

/// The kinds of the effects that run out on this tick, in order.
pub open spec fn expiring(s: Seq<ActiveEffect>) -> Seq<EffectKind>
    decreases s.len(),
{
    if s.len() == 0 {
        seq![]
    } else {
        let r = expiring(s.drop_last());
        if s.last().remaining_ticks <= 1 {
            r.push(s.last().kind)
        } else {
            r
        }
    }
}

/// Whether an effect of kind `k` that still runs after this tick acts on
/// tick `tick`, once every `base` ticks at its strength.
pub open spec fn acts(s: Seq<ActiveEffect>, k: EffectKind, base: int, tick: i64) -> bool {
    exists|i: int|
        0 <= i < s.len() && #[trigger] s[i].kind == k && s[i].remaining_ticks > 1 && (tick as int) % effect_period(
            base,
            s[i].amplifier,
        ) == 0
}

/// What the effects do on a tick: which run out, and whether regeneration
/// heals, poison hurts and wither hurts on it.
pub struct EffectTick {
    pub expired: Vec<EffectKind>,
    pub regenerate: bool,
    pub poison: bool,
    pub wither: bool,
}

fn period(base: i32, amplifier: u8) -> (r: i64)
    requires
        0 <= base <= 50,
    ensures
        r == effect_period(base as int, amplifier),
        r >= 1,
{
    let v = base / (1 + amplifier as i32);
    if v < 1 {
        1
    } else {
        v as i64
    }
}

fn divides(tick: i64, p: i64) -> (r: bool)
    requires
        p >= 1,
    ensures
        r == ((tick as int) % (p as int) == 0),
{
    match tick.checked_rem_euclid(p) {
        Some(m) => m == 0,
        None => false,
    }
}

/// One tick of a player's effects on tick `tick`: each effect loses a tick;
/// those that run out are named (and left for `remove_effect`);
/// regeneration acts every 50 ticks, poison every 25 and wither every 40,
/// each divided by one more than its amplifier.
pub fn tick_effects(effects: &mut Vec<ActiveEffect>, tick: i64) -> (r: EffectTick)
    requires
        forall|i: int| 0 <= i < old(effects)@.len() ==> #[trigger] old(effects)@[i].remaining_ticks > i32::MIN,
    ensures
        final(effects)@ == effects_ticked(old(effects)@),
        r.expired@ == expiring(old(effects)@),
        r.regenerate == acts(old(effects)@, EffectKind::Regeneration, 50, tick),
        r.poison == acts(old(effects)@, EffectKind::Poison, 25, tick),
        r.wither == acts(old(effects)@, EffectKind::Wither, 40, tick),
{
    let ghost start = effects@;
    let mut expired: Vec<EffectKind> = Vec::new();
    let mut regenerate = false;
    let mut poison = false;
    let mut wither = false;
    let mut i: usize = 0;
    while i < effects.len()
        invariant
            i <= effects@.len(),
            effects@.len() == start.len(),
            forall|m: int| i <= m < start.len() ==> effects@[m] == start[m],
            forall|m: int| 0 <= m < i ==> effects@[m] == effects_ticked(start)[m],
            forall|m: int| 0 <= m < start.len() ==> #[trigger] start[m].remaining_ticks > i32::MIN,
            expired@ == expiring(start.take(i as int)),
            regenerate == acts(start.take(i as int), EffectKind::Regeneration, 50, tick),
            poison == acts(start.take(i as int), EffectKind::Poison, 25, tick),
            wither == acts(start.take(i as int), EffectKind::Wither, 40, tick),
        decreases effects@.len() - i,
    {
        let e = effects[i];
        assert(e == start[i as int]);
        assert(start[i as int].remaining_ticks > i32::MIN);
        let left = e.remaining_ticks - 1;
        effects.set(i, ActiveEffect { kind: e.kind, amplifier: e.amplifier, remaining_ticks: left });
        let ghost pre = start.take(i as int);
        let ghost next = start.take(i as int + 1);
        proof {
            assert(next.drop_last() =~= pre);
            assert(next.last() == e);
        }
        if left <= 0 {
            expired.push(e.kind);
        } else {
            match e.kind {
                EffectKind::Regeneration => {
                    if divides(tick, period(50, e.amplifier)) {
                        regenerate = true;
                    }
                },
                EffectKind::Poison => {
                    if divides(tick, period(25, e.amplifier)) {
                        poison = true;
                    }
                },
                EffectKind::Wither => {
                    if divides(tick, period(40, e.amplifier)) {
                        wither = true;
                    }
                },
                _ => {},
            }
        }
        proof {
            assert forall|k: EffectKind, base: int| acts(next, k, base, tick) == (acts(pre, k, base, tick) || (e.kind
                == k && e.remaining_ticks > 1 && (tick as int) % effect_period(base, e.amplifier) == 0)) by {
                if acts(next, k, base, tick) {
                    let w = choose|w: int|
                        0 <= w < next.len() && #[trigger] next[w].kind == k && next[w].remaining_ticks > 1 && (tick as int)
                            % effect_period(base, next[w].amplifier) == 0;
                    if w < i {
                        assert(pre[w] == next[w]);
                    }
                }
                if acts(pre, k, base, tick) {
                    let w = choose|w: int|
                        0 <= w < pre.len() && #[trigger] pre[w].kind == k && pre[w].remaining_ticks > 1 && (tick as int)
                            % effect_period(base, pre[w].amplifier) == 0;
                    assert(next[w] == pre[w]);
                }
                if e.kind == k && e.remaining_ticks > 1 && (tick as int) % effect_period(base, e.amplifier) == 0 {
                    assert(next[i as int] == e);
                }
            }
        }
        i = i + 1;
    }
    proof {
        assert(start.take(start.len() as int) =~= start);
        assert(effects@ =~= effects_ticked(start));
    }
    EffectTick { expired, regenerate, poison, wither }
}

/// Applying effects keeps one effect per kind, and the effect of the
/// applied kind afterwards is at least as strong as the one applied; one at
/// least as strong as the old one replaces it.
pub proof fn law_apply_keeps_one_per_kind(s: Seq<ActiveEffect>, e: ActiveEffect)
    requires
        kinds_distinct(s),
    ensures
        kinds_distinct(applied(s, e)),
        find_kind(applied(s, e), e.kind, 0) matches Some(i) && applied(s, e)[i].amplifier >= e.amplifier,
        (find_kind(s, e.kind, 0) is None || e.amplifier >= s[find_kind(s, e.kind, 0).unwrap()].amplifier)
            ==> (find_kind(applied(s, e), e.kind, 0) matches Some(i) && applied(s, e)[i] == e),
{
    lemma_find_kind(s, e.kind, 0);
    let t = applied(s, e);
    lemma_find_kind(t, e.kind, 0);
    match find_kind(s, e.kind, 0) {
        Some(i) => {
            assert(t[i].kind == e.kind);
        },
        None => {
            assert(t[s.len() as int] == e);
        },
    }
}

/// After removing a kind, no effect of it is left and every other effect
/// stays.
pub proof fn law_remove_effect(s: Seq<ActiveEffect>, k: EffectKind)
    ensures
        forall|i: int| 0 <= i < without_kind(s, k).len() ==> #[trigger] without_kind(s, k)[i].kind != k,
        forall|x: ActiveEffect| x.kind != k ==> (s.contains(x) <==> without_kind(s, k).contains(x)),
    decreases s.len(),
{
    if s.len() > 0 {
        law_remove_effect(s.drop_last(), k);
        let d = s.drop_last();
        let r = without_kind(d, k);
        let w = without_kind(s, k);
        if s.last().kind == k {
            assert(w == r);
        } else {
            assert(w == r.push(s.last()));
        }
        assert forall|x: ActiveEffect| x.kind != k implies (s.contains(x) <==> w.contains(x)) by {
            if s.contains(x) {
                let j = choose|j: int| 0 <= j < s.len() && s[j] == x;
                if j < s.len() - 1 {
                    assert(d[j] == x);
                    assert(d.contains(x));
                    assert(r.contains(x));
                    let m = choose|m: int| 0 <= m < r.len() && r[m] == x;
                    assert(w[m] == x);
                } else {
                    assert(w[r.len() as int] == x);
                }
            }
            if w.contains(x) {
                let j = choose|j: int| 0 <= j < w.len() && w[j] == x;
                if j < r.len() {
                    assert(r[j] == x);
                    assert(r.contains(x));
                    assert(d.contains(x));
                    let m = choose|m: int| 0 <= m < d.len() && d[m] == x;
                    assert(s[m] == x);
                } else {
                    assert(s[s.len() - 1] == x);
                }
            }
        }
    }
}

} // verus!
