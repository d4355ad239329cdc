use combat_core::damage::{apply_damage, apply_health, Damage};
use combat_core::damage_text::AppliedDamage;
use combat_core::health::{health_system, Health};

#[test]
fn damage_takes_the_amount() {
    let mut health = Health { max: 150, current: 150 };
    let shown = apply_damage(7, 10, &mut health);
    assert_eq!(health, Health { max: 150, current: 140 });
    assert_eq!(shown, AppliedDamage { entity: 7, value: 10 });
}

#[test]
fn damage_stops_at_zero() {
    let mut health = Health { max: 150, current: 5 };
    apply_damage(1, 10, &mut health);
    assert_eq!(health.current, 0);
    assert_eq!(health.max, 150);
}

#[test]
fn damage_of_any_size_never_wraps() {
    let mut health = Health { max: u32::MAX, current: 1 };
    apply_damage(1, u32::MAX, &mut health);
    assert_eq!(health.current, 0);
    let mut health = Health { max: 10, current: 10 };
    apply_damage(1, 0, &mut health);
    assert_eq!(health.current, 10);
    apply_damage(1, 10, &mut health);
    assert_eq!(health.current, 0);
    apply_damage(1, 10, &mut health);
    assert_eq!(health.current, 0);
}

#[test]
fn healing_adds_the_amount() {
    let mut health = Health { max: 150, current: 100 };
    let shown = apply_health(3, 20, &mut health);
    assert_eq!(health, Health { max: 150, current: 120 });
    assert_eq!(shown, AppliedDamage { entity: 3, value: 20 });
}

#[test]
fn healing_stops_at_the_maximum() {
    let mut health = Health { max: 150, current: 145 };
    apply_health(1, 20, &mut health);
    assert_eq!(health.current, 150);
    apply_health(1, 20, &mut health);
    assert_eq!(health.current, 150);
}

#[test]
fn healing_of_any_size_never_wraps() {
    let mut health = Health { max: u32::MAX, current: u32::MAX - 1 };
    apply_health(1, u32::MAX, &mut health);
    assert_eq!(health.current, u32::MAX);
    let mut health = Health { max: 10, current: 0 };
    apply_health(1, u32::MAX, &mut health);
    assert_eq!(health.current, 10);
}

#[test]
fn full_health_and_getters() {
    let health = Health::full(150);
    assert_eq!(health.current(), 150);
    assert_eq!(health.max(), 150);
    let damage = Damage { amount: 10 };
    assert_eq!(damage.amount, 10);
}

#[test]
fn lethal_damage_then_sweep_removes() {
    let mut health = Health { max: 20, current: 5 };
    apply_damage(4, 10, &mut health);
    assert_eq!(health.current, 0);
    let world = vec![(3, Health { max: 20, current: 20 }), (4, health)];
    assert_eq!(health_system(&world), vec![4]);
}

#[test]
fn sweep_names_the_dead_in_order() {
    let world = vec![
        (1, Health { max: 10, current: 0 }),
        (2, Health { max: 10, current: 1 }),
        (3, Health { max: 10, current: 0 }),
        (4, Health { max: 10, current: 10 }),
    ];
    assert_eq!(health_system(&world), vec![1, 3]);
}

#[test]
fn sweep_twice_finds_nothing_new() {
    let mut world = vec![(1, Health { max: 10, current: 0 }), (2, Health { max: 10, current: 3 })];
    let dead = health_system(&world);
    world.retain(|entry| !dead.contains(&entry.0));
    assert_eq!(health_system(&world), Vec::<u64>::new());
    assert_eq!(health_system(&Vec::new()), Vec::<u64>::new());
}
