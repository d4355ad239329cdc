use combat_core::geometry::{
    advance, floor_sqrt, is_within_radius, normalized_toward, scale, FixedVec3, UNIT,
};

fn at(x: i32, y: i32, z: i32) -> FixedVec3 {
    FixedVec3 { x, y, z }
}

#[test]
fn unit_is_a_thousand() {
    assert_eq!(UNIT, 1000);
}

#[test]
fn radius_test_is_strict() {
    assert!(is_within_radius(at(0, 0, 0), at(1999, 0, 0), 2000));
    assert!(!is_within_radius(at(0, 0, 0), at(2000, 0, 0), 2000));
    assert!(is_within_radius(at(0, 0, 0), at(1200, 0, 1599), 2000));
    assert!(!is_within_radius(at(0, 0, 0), at(1200, 0, 1600), 2000));
    assert!(!is_within_radius(at(5, 5, 5), at(5, 5, 5), 0));
    assert!(is_within_radius(at(5, 5, 5), at(5, 5, 5), 1));
}

#[test]
fn radius_test_ignores_height() {
    assert!(is_within_radius(at(0, 0, 0), at(100, 1_000_000, 100), 500));
    assert!(is_within_radius(at(0, i32::MIN, 0), at(0, i32::MAX, 0), 1));
}

#[test]
fn radius_test_at_the_ends_of_the_world() {
    assert!(!is_within_radius(at(i32::MIN, 0, i32::MIN), at(i32::MAX, 0, i32::MAX), u32::MAX));
    assert!(is_within_radius(at(i32::MIN, 0, 0), at(i32::MAX, 0, 0), u32::MAX) == false);
    assert!(is_within_radius(at(i32::MIN, 0, 0), at(i32::MAX - 1, 0, 0), u32::MAX));
}

#[test]
fn advance_by_direction_times_speed() {
    assert_eq!(advance(at(0, 0, 0), at(1000, 0, 0), 1000), at(1000, 0, 0));
    assert_eq!(advance(at(10, 20, 30), at(3000, 0, -3000), 500), at(1510, 20, -1470));
    assert_eq!(advance(at(0, 0, 0), at(1, -1, 0), 500), at(0, -1, 0));
    assert_eq!(advance(at(0, 0, 0), at(1999, -1999, 0), 1), at(1, -2, 0));
    assert_eq!(advance(at(7, 8, 9), at(1000, 1000, 1000), 0), at(7, 8, 9));
    assert_eq!(advance(at(0, 0, 0), at(-1000, 0, 0), -1000), at(1000, 0, 0));
}

#[test]
fn advance_stops_at_the_ends_of_the_world() {
    assert_eq!(
        advance(at(i32::MAX - 5, i32::MIN + 5, 0), at(1000, -1000, 0), 1000),
        at(i32::MAX, i32::MIN, 0)
    );
    assert_eq!(
        advance(at(0, 0, 0), at(i32::MIN, i32::MAX, i32::MIN), i32::MIN),
        at(i32::MAX, i32::MIN, i32::MAX)
    );
}

#[test]
fn floor_sqrt_rounds_down() {
    assert_eq!(floor_sqrt(0), 0);
    assert_eq!(floor_sqrt(1), 1);
    assert_eq!(floor_sqrt(3), 1);
    assert_eq!(floor_sqrt(4), 2);
    assert_eq!(floor_sqrt(24), 4);
    assert_eq!(floor_sqrt(25), 5);
    assert_eq!(floor_sqrt(1_000_000), 1000);
    assert_eq!(floor_sqrt(999_999), 999);
    assert_eq!(floor_sqrt((1u128 << 68) - 1), (1u64 << 34) - 1);
}

#[test]
fn normalized_has_unit_length() {
    assert_eq!(normalized_toward(at(0, 0, 0), at(5000, 0, 0)), at(1000, 0, 0));
    assert_eq!(normalized_toward(at(0, 0, 0), at(0, 0, -7)), at(0, 0, -1000));
    assert_eq!(normalized_toward(at(1000, 1000, 1000), at(4000, 1000, 5000)), at(600, 0, 800));
    assert_eq!(normalized_toward(at(0, 0, 0), at(-3000, 0, 4000)), at(-600, 0, 800));
    assert_eq!(normalized_toward(at(0, 0, 0), at(1000, 1000, 1000)), at(577, 577, 577));
    assert_eq!(normalized_toward(at(0, 0, 0), at(-1000, -1000, -1000)), at(-577, -577, -577));
}

#[test]
fn normalized_of_nothing_is_zero() {
    assert_eq!(normalized_toward(at(3, 4, 5), at(3, 4, 5)), at(0, 0, 0));
}

#[test]
fn normalized_across_the_world() {
    let r = normalized_toward(at(i32::MIN, i32::MIN, i32::MIN), at(i32::MAX, i32::MAX, i32::MAX));
    assert_eq!(r, at(577, 577, 577));
    let r = normalized_toward(at(i32::MAX, 0, 0), at(i32::MIN, 0, 0));
    assert_eq!(r, at(-1000, 0, 0));
}

#[test]
fn scale_multiplies_and_clamps() {
    assert_eq!(scale(at(600, 0, -800), 3), at(1800, 0, -2400));
    assert_eq!(scale(at(1, 2, 3), 0), at(0, 0, 0));
    assert_eq!(scale(at(i32::MAX, i32::MIN, 1), 2), at(i32::MAX, i32::MIN, 2));
    assert_eq!(scale(at(i32::MAX, i32::MIN, 1), -2), at(i32::MIN, i32::MAX, -2));
}
