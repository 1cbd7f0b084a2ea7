use coral::effects::{apply_effect, remove_effect, splash_effect_kind, tick_effects, ActiveEffect, EffectKind};

#[test]
fn applying_effects_keeps_the_stronger_one() {
    let mut effects = Vec::new();
    apply_effect(&mut effects, ActiveEffect::new(EffectKind::Speed, 1, 100));
    apply_effect(&mut effects, ActiveEffect::new(EffectKind::Poison, 0, 40));
    assert_eq!(effects.len(), 2);
    // weaker speed leaves the stronger one
    apply_effect(&mut effects, ActiveEffect::new(EffectKind::Speed, 0, 900));
    assert_eq!(effects[0], ActiveEffect::new(EffectKind::Speed, 1, 100));
    // equal strength replaces it, duration and all
    apply_effect(&mut effects, ActiveEffect::new(EffectKind::Speed, 1, 30));
    assert_eq!(effects[0], ActiveEffect::new(EffectKind::Speed, 1, 30));
    assert_eq!(effects.len(), 2);
    remove_effect(&mut effects, EffectKind::Speed);
    assert_eq!(effects, vec![ActiveEffect::new(EffectKind::Poison, 0, 40)]);
    remove_effect(&mut effects, EffectKind::Wither);
    assert_eq!(effects.len(), 1);
}

#[test]
fn effects_act_on_their_periods() {
    let mut effects = vec![
        ActiveEffect::new(EffectKind::Regeneration, 0, 100),
        ActiveEffect::new(EffectKind::Poison, 1, 100),
        ActiveEffect::new(EffectKind::Wither, 0, 1),
    ];
    let t = tick_effects(&mut effects, 50);
    assert!(t.regenerate);
    assert!(!t.poison);
    // the wither effect ran out on this tick, so it does not act
    assert!(!t.wither);
    assert_eq!(t.expired, vec![EffectKind::Wither]);
    assert_eq!(effects[0].remaining_ticks, 99);
    assert_eq!(effects[2].remaining_ticks, 0);
    // poison at amplifier 1 acts every 25 / 2 = 12 ticks
    let t = tick_effects(&mut effects, 24);
    assert!(t.poison);
    assert!(!t.regenerate);
    let t = tick_effects(&mut effects, -12);
    assert!(t.poison);
}

#[test]
fn strong_effects_act_every_tick() {
    let mut effects = vec![ActiveEffect::new(EffectKind::Wither, 200, 10)];
    let t = tick_effects(&mut effects, 7);
    assert!(t.wither);
    assert!(t.expired.is_empty());
}

#[test]
fn splash_potions_and_ids() {
    assert_eq!(splash_effect_kind(1), Some(EffectKind::Regeneration));
    assert_eq!(splash_effect_kind(7), Some(EffectKind::InstantDamage));
    assert_eq!(splash_effect_kind(12), Some(EffectKind::InstantDamage));
    assert_eq!(splash_effect_kind(14), Some(EffectKind::Invisibility));
    assert_eq!(splash_effect_kind(0), None);
    assert_eq!(splash_effect_kind(15), None);
    assert_eq!(EffectKind::Poison.id(), 19);
    assert_eq!(EffectKind::Regeneration.id(), 10);
}
