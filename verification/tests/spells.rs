use combat_core::auras::{tick_overtime, Aura, Overtime};
use combat_core::combatant::{Caster, Combatant};
use combat_core::damage::Damage;
use combat_core::damage_text::AppliedDamage;
use combat_core::geometry::FixedVec3;
use combat_core::health::{health_system, Health};
use combat_core::lifetime::Lifetime;
use combat_core::projectile::{Projectile, ProjectileBundle};
use combat_core::spells::spell_system::{
    basic_attack, cast_spell, spell_kind_of, CastStart, SpellEffect, SpellKind,
};
use combat_core::spells::{
    casting_system, spell_init_system, spell_system, CastSpellFire, CastSpellInit, CastTime,
    Casting, SpellsPlugin,
};

const SECOND: u64 = 1_000_000_000;

fn at(x: i32, y: i32, z: i32) -> FixedVec3 {
    FixedVec3 { x, y, z }
}

fn caster() -> Caster {
    Caster { entity: 0, position: at(0, 0, 0), forward: at(0, 0, -1000) }
}

fn combatant(entity: u64, position: FixedVec3, current: u32) -> Combatant {
    Combatant { entity, position, health: Health { max: 150, current }, overtime: None }
}

fn init(id: &str, cast_time: CastTime) -> CastSpellInit {
    CastSpellInit {
        spell_id: id.to_string(),
        cast_time,
        damage: 10,
        apply_auras: vec![Aura::OvertimeEffect],
    }
}

#[test]
fn instant_cast_fires_on_the_spot() {
    let mut casting: Option<Casting> = None;
    match spell_init_system(&init("a", CastTime::Instant), &mut casting) {
        CastStart::Fired(fire) => assert_eq!(fire.id, "a"),
        other => panic!("{:?}", other),
    }
    assert!(casting.is_none());
    assert!(casting_system(&mut casting, 10 * SECOND).is_none());
}

#[test]
fn zero_duration_cast_is_instant() {
    let mut casting: Option<Casting> = None;
    let outcome = spell_init_system(&init("s", CastTime::Duration(0)), &mut casting);
    assert!(matches!(outcome, CastStart::Fired(fire) if fire.id == "s"));
    assert!(casting.is_none());
}

#[test]
fn timed_cast_fires_once_when_its_time_has_passed() {
    let mut casting: Option<Casting> = None;
    let outcome = spell_init_system(&init("s", CastTime::Duration(2 * SECOND)), &mut casting);
    assert!(matches!(outcome, CastStart::Started));
    let cast = casting.as_ref().unwrap();
    assert_eq!(cast.current_duration, 0);
    assert_eq!(cast.total_duration, 2 * SECOND);
    assert_eq!(cast.spell_id, "s");
    assert!(casting_system(&mut casting, SECOND).is_none());
    assert_eq!(casting.as_ref().unwrap().current_duration, SECOND);
    assert!(casting_system(&mut casting, SECOND - 1).is_none());
    let fire = casting_system(&mut casting, 1).unwrap();
    assert_eq!(fire.id, "s");
    assert!(casting.is_none());
    for _ in 0..5 {
        assert!(casting_system(&mut casting, SECOND).is_none());
        assert!(casting.is_none());
    }
}

#[test]
fn timed_cast_survives_huge_frames() {
    let mut casting = Some(Casting {
        current_duration: u64::MAX - 1,
        total_duration: u64::MAX,
        spell_id: "a".to_string(),
    });
    assert!(casting_system(&mut casting, 0).is_some() == false);
    assert!(casting_system(&mut casting, u64::MAX).is_some());
    assert!(casting.is_none());
}

#[test]
fn second_timed_cast_is_turned_away() {
    let mut casting: Option<Casting> = None;
    spell_init_system(&init("s", CastTime::Duration(SECOND)), &mut casting);
    casting_system(&mut casting, SECOND / 2);
    let outcome = spell_init_system(&init("a", CastTime::Duration(5 * SECOND)), &mut casting);
    assert!(matches!(outcome, CastStart::Busy));
    let cast = casting.as_ref().unwrap();
    assert_eq!(cast.spell_id, "s");
    assert_eq!(cast.current_duration, SECOND / 2);
    assert_eq!(cast.total_duration, SECOND);
    let outcome = spell_init_system(&init("a", CastTime::Instant), &mut casting);
    assert!(matches!(outcome, CastStart::Fired(fire) if fire.id == "a"));
    assert_eq!(casting.as_ref().unwrap().spell_id, "s");
}

#[test]
fn identifiers_name_the_two_spells() {
    assert_eq!(spell_kind_of("s"), Some(SpellKind::Ranged));
    assert_eq!(spell_kind_of("a"), Some(SpellKind::Melee));
    assert_eq!(spell_kind_of(""), None);
    assert_eq!(spell_kind_of("sa"), None);
    assert_eq!(spell_kind_of("S"), None);
    assert_eq!(spell_kind_of("fireball"), None);
    assert_eq!(SpellsPlugin, SpellsPlugin);
}

#[test]
fn ranged_spell_hands_over_a_projectile() {
    let expected = ProjectileBundle {
        position: at(100, 200, 300),
        lifetime: Lifetime { duration: SECOND, elapsed: 0 },
        damage: Damage { amount: 10 },
        projectile: Projectile { despawn_after_hit: true, direction: at(0, 0, -1000), speed: 1000 },
    };
    let character = Caster { entity: 0, position: at(100, 200, 300), forward: at(0, 0, -1000) };
    assert_eq!(cast_spell(&character), expected);
    let mut others = vec![combatant(1, at(100, 200, 300), 150)];
    match spell_system(&CastSpellFire { id: "s".to_string() }, &character, &mut others) {
        SpellEffect::Projectile(bundle) => assert_eq!(bundle, expected),
        other => panic!("{:?}", other),
    }
    assert_eq!(others[0].health.current, 150);
    assert!(others[0].overtime.is_none());
}

#[test]
fn unknown_spell_is_ignored() {
    let mut others = vec![combatant(1, at(0, 0, 0), 150)];
    let effect = spell_system(&CastSpellFire { id: "x".to_string() }, &caster(), &mut others);
    assert!(matches!(effect, SpellEffect::Nothing));
    assert_eq!(others[0].health.current, 150);
    assert!(others[0].overtime.is_none());
}

#[test]
fn melee_hits_within_two_units_on_the_plane() {
    let mut others = vec![
        combatant(1, at(1999, 0, 0), 150),
        combatant(2, at(2000, 0, 0), 150),
        combatant(3, at(0, 90_000, -1000), 150),
        combatant(0, at(0, 0, 0), 150),
        combatant(4, at(-1200, 0, 1600), 150),
        combatant(5, at(-1200, 0, 1599), 4),
    ];
    let marks = basic_attack(&caster(), &mut others);
    assert_eq!(
        marks,
        vec![
            AppliedDamage { entity: 1, value: 10 },
            AppliedDamage { entity: 3, value: 10 },
            AppliedDamage { entity: 5, value: 10 },
        ]
    );
    let healths: Vec<u32> = others.iter().map(|c| c.health.current).collect();
    assert_eq!(healths, vec![140, 150, 140, 150, 150, 0]);
    let bleeding: Vec<bool> = others.iter().map(|c| c.overtime.is_some()).collect();
    assert_eq!(bleeding, vec![true, false, true, false, false, true]);
    assert_eq!(others[0].overtime.as_ref().unwrap().applied, vec![Overtime::damage_per_second(3, 5)]);
}

#[test]
fn melee_bleed_goes_behind_other_effects() {
    let mut others = vec![combatant(1, at(0, 0, 500), 150)];
    basic_attack(&caster(), &mut others);
    others[0].overtime.as_mut().unwrap().applied[0].elapsed = 7;
    basic_attack(&caster(), &mut others);
    let effects = &others[0].overtime.as_ref().unwrap().applied;
    assert_eq!(effects.len(), 2);
    assert_eq!(effects[0].elapsed, 7);
    assert_eq!(effects[1], Overtime::damage_per_second(3, 5));
    assert_eq!(others[0].health.current, 130);
}

#[test]
fn melee_then_bleed_then_detach() {
    let mut others = vec![combatant(1, at(1000, 0, 0), 150)];
    let effect = spell_system(&CastSpellFire { id: "a".to_string() }, &caster(), &mut others);
    match effect {
        SpellEffect::Melee(marks) => assert_eq!(marks, vec![AppliedDamage { entity: 1, value: 10 }]),
        other => panic!("{:?}", other),
    }
    let target = &mut others[0];
    assert_eq!(target.health, Health { max: 150, current: 140 });
    assert_eq!(target.overtime.as_ref().unwrap().applied, vec![Overtime::damage_per_second(3, 5)]);
    for _ in 0..5 {
        assert!(target.overtime.is_some());
        tick_overtime(target.entity, &mut target.health, &mut target.overtime, SECOND);
    }
    assert_eq!(target.health.current, 125);
    assert!(target.overtime.is_none());
}

#[test]
fn lethal_melee_then_sweep() {
    let mut others = vec![combatant(1, at(1000, 0, 0), 5), combatant(2, at(9000, 0, 0), 5)];
    basic_attack(&caster(), &mut others);
    assert_eq!(others[0].health.current, 0);
    let healths: Vec<(u64, Health)> = others.iter().map(|c| (c.entity, c.health)).collect();
    assert_eq!(health_system(&healths), vec![1]);
}
