//! Projectiles: how they travel and whom they hit.
//!
//! A projectile moves by `direction * speed` in every tick, both counted in
//! thousandths. It hits a target when it is closer to the target's position
//! than the radius of the target's hit box, on the horizontal plane.

use crate::damage::{apply_damage, damaged, Damage};
use crate::damage_text::AppliedDamage;
use crate::geometry::{advance, advanced, is_within_radius, within_radius, FixedVec3};
use crate::health::Health;
use crate::lifetime::Lifetime;
use vstd::prelude::*;

verus! {

/// The room a combatant takes up. Only the radius counts for a hit.
#[derive(Clone, Copy, Debug, PartialEq, Eq, Structural)]
pub struct HitBox {
    pub radius: u32,
    pub height: u32,
}

/// How a projectile travels and whether its first hit uses it up.
#[derive(Clone, Copy, Debug, PartialEq, Eq, Structural)]
pub struct Projectile {
    pub despawn_after_hit: bool,
    pub direction: FixedVec3,
    pub speed: i32,
}

/// A combatant that projectiles can hit.
#[derive(Clone, Copy, Debug, PartialEq, Eq, Structural)]
pub struct Target {
    pub entity: u64,
    pub position: FixedVec3,
    pub hitbox: HitBox,
    pub health: Health,
}

/// A projectile in flight.
#[derive(Clone, Copy, Debug, PartialEq, Eq, Structural)]
pub struct Shot {
    pub entity: u64,
    pub position: FixedVec3,
    pub projectile: Projectile,
    pub damage: Damage,
}

/// What a spell hands over for a new projectile: where it starts, how long
/// it lasts, what it carries and how it travels.
#[derive(Clone, Copy, Debug, PartialEq, Eq, Structural)]
pub struct ProjectileBundle {
    pub position: FixedVec3,
    pub lifetime: Lifetime,
    pub damage: Damage,
    pub projectile: Projectile,
}

/// Whether `shot` is inside the hit box of `target`.
pub open spec fn reaches(shot: Shot, target: Target) -> bool {
    within_radius(target.position, shot.position, target.hitbox.radius)
}

/// Whether `shot` is inside the hit box of one of `targets`.
pub open spec fn reaches_any(shot: Shot, targets: Seq<Target>) -> bool {
    exists|j: int| 0 <= j < targets.len() && reaches(shot, #[trigger] targets[j])
}

/// Whether `shot` damages the target at `i`: it is inside that target's hit
/// box and, if its first hit uses it up, inside no earlier one.
pub open spec fn strikes(shot: Shot, targets: Seq<Target>, i: int) -> bool {
    &&& 0 <= i < targets.len()
    &&& reaches(shot, targets[i])
    &&& shot.projectile.despawn_after_hit ==> !reaches_any(shot, targets.take(i))
}

/// Health of the target at `i` after `shots` have passed over `targets`, in
/// their order.
pub open spec fn health_under_fire(targets: Seq<Target>, i: int, shots: Seq<Shot>) -> Health
    decreases shots.len(),
{
    if shots.len() == 0 {
        targets[i].health
    } else {
        let before = health_under_fire(targets, i, shots.drop_last());
        if strikes(shots.last(), targets, i) {
            damaged(before, shots.last().damage.amount)
        } else {
            before
        }
    }
}

/// The shots that fly on: all but those that a hit uses up.
pub open spec fn flying_on(shots: Seq<Shot>, targets: Seq<Target>) -> Seq<Shot>
    decreases shots.len(),
{
    if shots.len() == 0 {
        Seq::empty()
    } else {
        let before = flying_on(shots.drop_last(), targets);
        if shots.last().projectile.despawn_after_hit && reaches_any(shots.last(), targets) {
            before
        } else {
            before.push(shots.last())
        }
    }
}

/// The numbers shown for one shot: one over each target it damages.
pub open spec fn shot_marks(shot: Shot, targets: Seq<Target>) -> Seq<AppliedDamage>
    decreases targets.len(),
{
    if targets.len() == 0 {
        Seq::empty()
    } else {
        let before = shot_marks(shot, targets.drop_last());
        if strikes(shot, targets, targets.len() - 1) {
            before.push(AppliedDamage { entity: targets.last().entity, value: shot.damage.amount })
        } else {
            before
        }
    }
}

/// The numbers shown for `shots`, shot by shot.
pub open spec fn volley_marks(shots: Seq<Shot>, targets: Seq<Target>) -> Seq<AppliedDamage>
    decreases shots.len(),
{
    if shots.len() == 0 {
        Seq::empty()
    } else {
        volley_marks(shots.drop_last(), targets) + shot_marks(shots.last(), targets)
    }
}

/// `targets` with the health that `shots` leave them.
pub open spec fn under_fire(targets: Seq<Target>, shots: Seq<Shot>) -> Seq<Target> {
    Seq::new(
        targets.len(),
        |i: int|
            Target {
                entity: targets[i].entity,
                position: targets[i].position,
                hitbox: targets[i].hitbox,
                health: health_under_fire(targets, i, shots),
            },
    )
}

proof fn lemma_strikes_prefix(shot: Shot, targets: Seq<Target>, t: int)
    requires
        0 <= t < targets.len(),
    ensures
        strikes(shot, targets.take(t + 1), t) == strikes(shot, targets, t),
{
    assert(targets.take(t + 1).take(t) == targets.take(t));
    assert(targets.take(t + 1)[t] == targets[t]);
}

proof fn lemma_reaches_any_step(shot: Shot, targets: Seq<Target>, t: int)
    requires
        0 <= t < targets.len(),
    ensures
        reaches_any(shot, targets.take(t + 1)) == (reaches_any(shot, targets.take(t)) || reaches(
            shot,
            targets[t],
        )),
{
    let longer = targets.take(t + 1);
    let shorter = targets.take(t);
    if reaches_any(shot, longer) {
        let j = choose|j: int| 0 <= j < longer.len() && reaches(shot, #[trigger] longer[j]);
        if j < t {
            assert(shorter[j] == longer[j]);
        }
    }
    if reaches_any(shot, shorter) {
        let j = choose|j: int| 0 <= j < shorter.len() && reaches(shot, #[trigger] shorter[j]);
        assert(longer[j] == shorter[j]);
    }
    if reaches(shot, targets[t]) {
        assert(longer[t] == targets[t]);
    }
}

/// The hits of one tick: every shot damages each target whose hit box it is
/// in, or only the first of them if a hit uses the shot up, and such a shot
/// is then gone. Targets keep their place, shots that fly on their order.
/// Returns the numbers to show.
pub fn projectile_system(targets: &mut Vec<Target>, shots: &mut Vec<Shot>) -> (marks: Vec<
    AppliedDamage,
>)
    ensures
        final(targets)@ == under_fire(old(targets)@, old(shots)@),
        final(shots)@ == flying_on(old(shots)@, old(targets)@),
        marks@ == volley_marks(old(shots)@, old(targets)@),
{
    let ghost before = targets@;
    let ghost volley = shots@;
    let mut marks: Vec<AppliedDamage> = Vec::new();
    let mut kept: Vec<Shot> = Vec::new();
    let mut s: usize = 0;
    assert(targets@ =~= under_fire(before, volley.take(0)));
    while s < shots.len()
        invariant
            s <= shots.len(),
            shots@ == volley,
            targets@ == under_fire(before, volley.take(s as int)),
            kept@ == flying_on(volley.take(s as int), before),
            marks@ == volley_marks(volley.take(s as int), before),
        decreases shots.len() - s,
    {
        let shot = shots[s];
        let ghost fired = volley.take(s as int);
        let ghost marked = marks@;
        proof {
            assert(volley.take(s + 1).drop_last() == fired);
            assert(volley.take(s + 1).last() == shot);
        }
        let mut hit: bool = false;
        let mut t: usize = 0;
        while t < targets.len()
            invariant
                t <= targets.len(),
                targets.len() == before.len(),
                hit == reaches_any(shot, before.take(t as int)),
                marks@ == marked + shot_marks(shot, before.take(t as int)),
                forall|i: int|
                    0 <= i < before.len() ==> {
                        &&& (#[trigger] targets[i]).entity == before[i].entity
                        &&& targets[i].position == before[i].position
                        &&& targets[i].hitbox == before[i].hitbox
                        &&& targets[i].health == if i < t && strikes(shot, before, i) {
                            damaged(health_under_fire(before, i, fired), shot.damage.amount)
                        } else {
                            health_under_fire(before, i, fired)
                        }
                    },
            decreases targets.len() - t,
        {
            let mut target = targets[t];
            proof {
                lemma_reaches_any_step(shot, before, t as int);
                lemma_strikes_prefix(shot, before, t as int);
                assert(before.take(t + 1).drop_last() == before.take(t as int));
                assert(before.take(t + 1).last() == before[t as int]);
                assert(reaches(shot, target) == reaches(shot, before[t as int]));
            }
            let inside = is_within_radius(target.position, shot.position, target.hitbox.radius);
            if inside && !(shot.projectile.despawn_after_hit && hit) {
                let mark = apply_damage(target.entity, shot.damage.amount, &mut target.health);
                targets.set(t, target);
                marks.push(mark);
                proof {
                    assert(marked + shot_marks(shot, before.take(t as int)).push(mark) =~= (marked
                        + shot_marks(shot, before.take(t as int))).push(mark));
                }
            }
            if inside {
                hit = true;
            }
            t += 1;
        }
        proof {
            assert(before.take(t as int) == before);
            assert(targets@ =~= under_fire(before, volley.take(s + 1)));
        }
        if !(shot.projectile.despawn_after_hit && hit) {
            kept.push(shot);
        }
        s += 1;
    }
    proof {
        assert(volley.take(s as int) == volley);
    }
    *shots = kept;
    marks
}

/// A shot that its first hit uses up damages one target and no more: the
/// first whose hit box it is in. If it is in any hit box it damages that
/// target and does not fly on; a shot that hits nothing, or that hits do not
/// use up, flies on.
pub proof fn lemma_single_hit(shot: Shot, targets: Seq<Target>, i: int, j: int)
    ensures
        shot.projectile.despawn_after_hit && strikes(shot, targets, i) && strikes(shot, targets, j)
            ==> i == j,
        reaches_any(shot, targets) ==> exists|k: int| strikes(shot, targets, k),
        shot.projectile.despawn_after_hit && reaches_any(shot, targets) ==> flying_on(
            seq![shot],
            targets,
        ).len() == 0,
        !shot.projectile.despawn_after_hit || !reaches_any(shot, targets) ==> flying_on(
            seq![shot],
            targets,
        ) == seq![shot],
        !shot.projectile.despawn_after_hit ==> (strikes(shot, targets, i) <==> 0 <= i
            < targets.len() && reaches(shot, targets[i])),
{
    if shot.projectile.despawn_after_hit && strikes(shot, targets, i) && strikes(shot, targets, j) {
        if i < j {
            assert(targets.take(j)[i] == targets[i]);
        }
        if j < i {
            assert(targets.take(i)[j] == targets[j]);
        }
    }
    if reaches_any(shot, targets) {
        assert(targets.take(targets.len() as int) == targets);
        lemma_first_reached(shot, targets, targets.len() as int);
    }
    assert(seq![shot].drop_last().len() == 0);
    assert(flying_on(seq![shot].drop_last(), targets).len() == 0);
    assert(seq![shot].last() == shot);
    assert(flying_on(seq![shot].drop_last(), targets).push(shot) =~= seq![shot]);
}

proof fn lemma_first_reached(shot: Shot, targets: Seq<Target>, n: int)
    requires
        0 <= n <= targets.len(),
        reaches_any(shot, targets.take(n)),
    ensures
        exists|k: int| strikes(shot, targets, k),
    decreases n,
{
    let prefix = targets.take(n);
    let j = choose|j: int| 0 <= j < prefix.len() && reaches(shot, #[trigger] prefix[j]);
    assert(prefix[j] == targets[j]);
    if reaches_any(shot, targets.take(j)) {
        lemma_first_reached(shot, targets, j);
    } else {
        assert(strikes(shot, targets, j));
    }
}

/// Where `shots` stand after one tick of travel.
pub open spec fn travelled(shots: Seq<Shot>) -> Seq<Shot> {
    Seq::new(
        shots.len(),
        |i: int|
            Shot {
                entity: shots[i].entity,
                position: advanced(
                    shots[i].position,
                    shots[i].projectile.direction,
                    shots[i].projectile.speed,
                ),
                projectile: shots[i].projectile,
                damage: shots[i].damage,
            },
    )
}

/// Moves every shot by one tick of travel.
pub fn projectile_movement_system(shots: &mut Vec<Shot>)
    ensures
        final(shots)@ == travelled(old(shots)@),
{
    let mut i: usize = 0;
    while i < shots.len()
        invariant
            i <= shots.len(),
            shots.len() == old(shots).len(),
            forall|k: int| 0 <= k < i ==> shots[k] == travelled(old(shots)@)[k],
            forall|k: int| i <= k < shots.len() ==> shots[k] == old(shots)[k],
        decreases shots.len() - i,
    {
        let mut shot = shots[i];
        shot.position = advance(shot.position, shot.projectile.direction, shot.projectile.speed);
        shots.set(i, shot);
        i += 1;
    }
    assert(shots@ =~= travelled(old(shots)@));
}

/// One tick for the projectiles, in its two phases: first every shot
/// travels, then the hits are worked out where the shots now stand. Returns
/// the numbers to show.
pub fn projectile_tick(targets: &mut Vec<Target>, shots: &mut Vec<Shot>) -> (marks: Vec<
    AppliedDamage,
>)
    ensures
        final(targets)@ == under_fire(old(targets)@, travelled(old(shots)@)),
        final(shots)@ == flying_on(travelled(old(shots)@), old(targets)@),
        marks@ == volley_marks(travelled(old(shots)@), old(targets)@),
{
    projectile_movement_system(shots);
    projectile_system(targets, shots)
}

} // verus!
