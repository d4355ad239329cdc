use combat_core::auras::{
    apply_overtime, overtime_system, tick_overtime, Aura, Overtime, OvertimeComponent,
    OvertimeUnit,
};
use combat_core::combatant::Combatant;
use combat_core::damage_text::AppliedDamage;
use combat_core::geometry::FixedVec3;
use combat_core::health::Health;

const SECOND: u64 = 1_000_000_000;

fn origin() -> FixedVec3 {
    FixedVec3 { x: 0, y: 0, z: 0 }
}

#[test]
fn damage_per_second_is_a_one_second_bleed() {
    let effect = Overtime::damage_per_second(3, 5);
    assert_eq!(
        effect,
        Overtime { damage_healing_flag: false, amount: 3, period: SECOND, elapsed: 0, count: 5 }
    );
}

#[test]
fn every_gives_the_period() {
    assert_eq!(
        Overtime::every(true, 4, 2, OvertimeUnit::Minute, 3),
        Overtime {
            damage_healing_flag: true,
            amount: 4,
            period: 120_000_000_000,
            elapsed: 0,
            count: 3
        }
    );
    assert_eq!(Overtime::every(false, 1, 1, OvertimeUnit::Second, 1), Overtime::damage_per_second(1, 1));
    assert_eq!(Overtime::every(false, 1, 0, OvertimeUnit::Hour, 1).period, 0);
    assert_eq!(Overtime::every(false, 1, 5_124_095, OvertimeUnit::Hour, 1).period, 18_446_742_000_000_000_000);
    assert_eq!(Overtime::every(false, 1, 5_124_096, OvertimeUnit::Hour, 1).period, u64::MAX);
    assert_eq!(Overtime::every(false, 1, u32::MAX, OvertimeUnit::Hour, 1).period, u64::MAX);
    assert_eq!(Overtime::every(false, 1, u32::MAX, OvertimeUnit::Second, 1).period, 4_294_967_295_000_000_000);
}

#[test]
fn units_in_nanoseconds() {
    assert_eq!(OvertimeUnit::Second.nanos(), 1_000_000_000);
    assert_eq!(OvertimeUnit::Minute.nanos(), 60_000_000_000);
    assert_eq!(OvertimeUnit::Hour.nanos(), 3_600_000_000_000);
    assert_ne!(Aura::OvertimeEffect, Aura::MovementEffect);
    assert_ne!(Aura::OvertimeEffect, Aura::DamageChange);
}

#[test]
fn clock_runs_without_firing_before_the_period() {
    let mut effect = Overtime::damage_per_second(3, 5);
    assert!(!effect.tick(400_000_000));
    assert_eq!(effect.elapsed, 400_000_000);
    assert_eq!(effect.count, 5);
    assert!(!effect.tick(599_999_999));
    assert_eq!(effect.elapsed, 999_999_999);
}

#[test]
fn clock_fires_at_the_period_and_keeps_the_rest() {
    let mut effect = Overtime::damage_per_second(3, 5);
    effect.tick(700_000_000);
    assert!(effect.tick(400_000_000));
    assert_eq!(effect.elapsed, 100_000_000);
    assert_eq!(effect.count, 4);
    let mut exact = Overtime::damage_per_second(3, 5);
    assert!(exact.tick(SECOND));
    assert_eq!(exact.elapsed, 0);
}

#[test]
fn long_frame_fires_once() {
    let mut effect = Overtime::damage_per_second(3, 5);
    assert!(effect.tick(3 * SECOND + 250));
    assert_eq!(effect.elapsed, 250);
    assert_eq!(effect.count, 4);
}

#[test]
fn zero_period_fires_every_frame() {
    let mut effect =
        Overtime { damage_healing_flag: true, amount: 1, period: 0, elapsed: 0, count: 2 };
    assert!(effect.tick(5));
    assert_eq!(effect.elapsed, 0);
    assert!(effect.tick(0));
    assert_eq!(effect.count, 0);
    assert!(!effect.tick(5));
}

#[test]
fn spent_effect_does_not_fire() {
    let mut effect = Overtime::damage_per_second(3, 0);
    assert!(!effect.tick(SECOND));
    assert_eq!(effect.count, 0);
}

#[test]
fn huge_frames_do_not_overflow() {
    let mut effect = Overtime {
        damage_healing_flag: false,
        amount: 1,
        period: u64::MAX,
        elapsed: u64::MAX - 1,
        count: 1,
    };
    assert!(effect.tick(u64::MAX));
    assert_eq!(effect.elapsed, u64::MAX - 1);
}

#[test]
fn apply_overtime_makes_the_component() {
    let mut component: Option<OvertimeComponent> = None;
    apply_overtime(Overtime::damage_per_second(3, 5), &mut component);
    assert_eq!(component.as_ref().unwrap().applied, vec![Overtime::damage_per_second(3, 5)]);
    apply_overtime(Overtime::damage_per_second(1, 2), &mut component);
    assert_eq!(
        component.unwrap().applied,
        vec![Overtime::damage_per_second(3, 5), Overtime::damage_per_second(1, 2)]
    );
}

#[test]
fn overtime_applies_count_deltas_then_detaches() {
    let mut health = Health { max: 150, current: 140 };
    let mut component: Option<OvertimeComponent> = None;
    apply_overtime(Overtime::damage_per_second(3, 5), &mut component);
    let mut shown = 0;
    for frame in 0..5 {
        assert!(component.is_some());
        let marks = tick_overtime(9, &mut health, &mut component, SECOND);
        assert_eq!(marks, vec![AppliedDamage { entity: 9, value: 3 }]);
        shown += marks.len();
        assert_eq!(health.current, 140 - 3 * (frame + 1));
    }
    assert_eq!(shown, 5);
    assert_eq!(health.current, 125);
    assert!(component.is_none());
    let marks = tick_overtime(9, &mut health, &mut component, SECOND);
    assert!(marks.is_empty());
    assert_eq!(health.current, 125);
}

#[test]
fn overtime_changes_are_a_period_apart() {
    let mut health = Health { max: 100, current: 100 };
    let mut component: Option<OvertimeComponent> = None;
    apply_overtime(Overtime::damage_per_second(10, 2), &mut component);
    let quarter = SECOND / 4;
    let mut fired_at = Vec::new();
    for frame in 1..=8u64 {
        let marks = tick_overtime(1, &mut health, &mut component, quarter);
        if !marks.is_empty() {
            fired_at.push(frame * quarter);
        }
    }
    assert_eq!(fired_at, vec![SECOND, 2 * SECOND]);
    assert_eq!(health.current, 80);
    assert!(component.is_none());
}

#[test]
fn effects_stack_and_expire_on_their_own() {
    let mut health = Health { max: 100, current: 50 };
    let mut component: Option<OvertimeComponent> = None;
    apply_overtime(Overtime::damage_per_second(10, 1), &mut component);
    apply_overtime(
        Overtime { damage_healing_flag: true, amount: 4, period: SECOND, elapsed: 0, count: 2 },
        &mut component,
    );
    let marks = tick_overtime(2, &mut health, &mut component, SECOND);
    assert_eq!(
        marks,
        vec![AppliedDamage { entity: 2, value: 10 }, AppliedDamage { entity: 2, value: 4 }]
    );
    assert_eq!(health.current, 44);
    assert_eq!(
        component.as_ref().unwrap().applied,
        vec![Overtime { damage_healing_flag: true, amount: 4, period: SECOND, elapsed: 0, count: 1 }]
    );
    tick_overtime(2, &mut health, &mut component, SECOND);
    assert_eq!(health.current, 48);
    assert!(component.is_none());
}

#[test]
fn heal_then_damage_in_list_order() {
    let mut health = Health { max: 100, current: 98 };
    let mut component: Option<OvertimeComponent> = None;
    apply_overtime(
        Overtime { damage_healing_flag: true, amount: 5, period: SECOND, elapsed: 0, count: 1 },
        &mut component,
    );
    apply_overtime(Overtime::damage_per_second(1, 1), &mut component);
    tick_overtime(2, &mut health, &mut component, SECOND);
    assert_eq!(health.current, 99);
}

#[test]
fn overtime_system_ticks_every_combatant() {
    let mut bleeding: Option<OvertimeComponent> = None;
    apply_overtime(Overtime::damage_per_second(3, 1), &mut bleeding);
    let mut combatants = vec![
        Combatant {
            entity: 1,
            position: origin(),
            health: Health { max: 10, current: 10 },
            overtime: None,
        },
        Combatant {
            entity: 2,
            position: origin(),
            health: Health { max: 10, current: 10 },
            overtime: bleeding,
        },
    ];
    let marks = overtime_system(&mut combatants, SECOND / 2);
    assert!(marks.is_empty());
    assert_eq!(combatants[1].overtime.as_ref().unwrap().applied[0].elapsed, SECOND / 2);
    let marks = overtime_system(&mut combatants, SECOND / 2);
    assert_eq!(marks, vec![AppliedDamage { entity: 2, value: 3 }]);
    assert_eq!(combatants[0].health.current, 10);
    assert!(combatants[0].overtime.is_none());
    assert_eq!(combatants[1].health.current, 7);
    assert!(combatants[1].overtime.is_none());
    assert_eq!(combatants[1].entity, 2);
}
