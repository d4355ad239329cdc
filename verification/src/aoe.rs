//! Ground targeting: the caster picks a point of the ground, and a click
//! sends a projectile toward it.

use crate::damage::Damage;
use crate::geometry::{normalized_toward, scale, scaled, unit_toward, FixedVec3};
use crate::lifetime::Lifetime;
use crate::projectile::{Projectile, ProjectileBundle};
use crate::timer::NANOS_PER_SECOND;
use vstd::prelude::*;

verus! {

/// Damage of the ground-targeted projectile.
pub const GROUND_DAMAGE: u32 = 10;

/// Speed of the ground-targeted projectile, in thousandths.
pub const GROUND_SPEED: i32 = 500;

/// Length of the ground-targeted projectile's direction, in units.
pub const GROUND_DIRECTION_LENGTH: i32 = 3;

/// Seconds that the ground-targeted projectile lasts.
pub const GROUND_LIFETIME_SECONDS: u32 = 30;

/// Where the pointer's ray meets the ground.
#[derive(Clone, Copy, Debug, PartialEq, Eq, Structural)]
pub struct RayCastEvent {
    pub point: FixedVec3,
}

/// On a caster who is picking a point of the ground: the point picked so
/// far.
#[derive(Clone, Copy, Debug, PartialEq, Eq, Structural)]
pub struct Targeting {
    pub position: FixedVec3,
}

/// The wish to begin ground targeting.
#[derive(Clone, Copy, Debug, PartialEq, Eq, Structural)]
pub struct GroundTargetInitEvent {}

/// Marks what shows the picked point.
#[derive(Clone, Copy, Debug, PartialEq, Eq, Structural)]
pub struct Pointer;

/// The key that begins ground targeting was pressed: hands over the wish to
/// begin. Nothing without the key.
pub fn target_init_system(key_just_pressed: bool) -> (event: Option<GroundTargetInitEvent>)
    ensures
        event.is_some() == key_just_pressed,
{
    if key_just_pressed {
        Some(GroundTargetInitEvent {  })
    } else {
        None
    }
}

/// Takes up the wish to begin ground targeting: a caster who is not
/// targeting begins, with the origin as the point picked so far; one who is
/// targeting goes on as before. Nothing changes without the wish.
pub fn ground_targeting_system(
    event: Option<GroundTargetInitEvent>,
    targeting: &mut Option<Targeting>,
)
    ensures
        *final(targeting) == if event.is_some() && old(targeting).is_none() {
            Some(Targeting { position: FixedVec3 { x: 0, y: 0, z: 0 } })
        } else {
            *old(targeting)
        },
{
    if event.is_some() && targeting.is_none() {
        *targeting = Some(Targeting { position: FixedVec3 { x: 0, y: 0, z: 0 } });
    }
}

/// Follows the pointer: while the caster is targeting, the picked point is
/// where the pointer's ray last met the ground. A ray that meets nothing
/// leaves the point where it was.
pub fn targeting_system(targeting: &mut Option<Targeting>, hit: Option<RayCastEvent>)
    ensures
        *final(targeting) == if old(targeting).is_some() && hit.is_some() {
            Some(Targeting { position: hit.unwrap().point })
        } else {
            *old(targeting)
        },
{
    if targeting.is_some() {
        match hit {
            Some(ray) => {
                *targeting = Some(Targeting { position: ray.point });
            },
            None => {},
        }
    }
}

/// The projectile that a click sends from `origin` toward `target`: its
/// direction is the unit vector from the one to the other, stretched to
/// `GROUND_DIRECTION_LENGTH` units, and its first hit uses it up.
pub open spec fn ground_projectile(origin: FixedVec3, target: FixedVec3) -> ProjectileBundle {
    ProjectileBundle {
        position: origin,
        lifetime: Lifetime {
            duration: (GROUND_LIFETIME_SECONDS * NANOS_PER_SECOND) as u64,
            elapsed: 0,
        },
        damage: Damage { amount: GROUND_DAMAGE },
        projectile: Projectile {
            despawn_after_hit: true,
            speed: GROUND_SPEED,
            direction: scaled(unit_toward(origin, target), GROUND_DIRECTION_LENGTH),
        },
    }
}

/// Confirms the picked point: a click while the caster is targeting hands
/// over one projectile, from where the caster stands toward the point, and
/// ends the targeting. Without a click, or for a caster who is not
/// targeting, nothing happens.
pub fn targeting_click_system(
    targeting: &mut Option<Targeting>,
    clicked: bool,
    caster_position: FixedVec3,
) -> (bundle: Option<ProjectileBundle>)
    ensures
        clicked && old(targeting).is_some() ==> final(targeting).is_none() && bundle == Some(
            ground_projectile(caster_position, old(targeting).unwrap().position),
        ),
        !(clicked && old(targeting).is_some()) ==> *final(targeting) == *old(targeting)
            && bundle.is_none(),
{
    if !clicked {
        return None;
    }
    match targeting.take() {
        None => None,
        Some(picked) => {
            let direction = scale(
                normalized_toward(caster_position, picked.position),
                GROUND_DIRECTION_LENGTH,
            );
            Some(
                ProjectileBundle {
                    position: caster_position,
                    lifetime: Lifetime::from_seconds(GROUND_LIFETIME_SECONDS),
                    damage: Damage { amount: GROUND_DAMAGE },
                    projectile: Projectile {
                        despawn_after_hit: true,
                        speed: GROUND_SPEED,
                        direction,
                    },
                },
            )
        },
    }
}

} // verus!
