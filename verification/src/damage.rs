//! One-shot damage and healing.

use crate::damage_text::{spawn_damage_text_on_entity, AppliedDamage};
use crate::health::Health;
use vstd::prelude::*;

verus! {

/// Damage carried by a projectile or dealt by an instant effect.
#[derive(Clone, Copy, Debug, PartialEq, Eq, Structural)]
pub struct Damage {
    pub amount: u32,
}

/// Health left after `amount` damage: never below zero.
pub open spec fn damaged(health: Health, amount: u32) -> Health {
    Health {
        max: health.max,
        current: if amount >= health.current { 0 } else { (health.current - amount) as u32 },
    }
}

/// Health after `amount` healing: never above the maximum.
pub open spec fn healed(health: Health, amount: u32) -> Health {
    Health {
        max: health.max,
        current: if health.current + amount >= health.max { health.max } else { (health.current + amount) as u32 },
    }
}

/// Takes `amount` from the health of `entity`, stopping at zero, and hands
/// back the number to show over it.
pub fn apply_damage(entity: u64, amount: u32, health: &mut Health) -> (shown: AppliedDamage)
    ensures
        *final(health) == damaged(*old(health), amount),
        final(health).max == old(health).max,
        final(health).current == if old(health).current - amount > 0 {
            old(health).current - amount
        } else {
            0
        },
        old(health).wf() ==> final(health).wf(),
        shown == (AppliedDamage { entity, value: amount }),
{
    let taken = if amount < health.current { amount } else { health.current };
    health.current = health.current - taken;
    spawn_damage_text_on_entity(entity, amount)
}

/// Adds `amount` to the health of `entity`, stopping at its maximum, and
/// hands back the number to show over it.
pub fn apply_health(entity: u64, amount: u32, health: &mut Health) -> (shown: AppliedDamage)
    ensures
        *final(health) == healed(*old(health), amount),
        final(health).max == old(health).max,
        final(health).current == if old(health).current + amount < old(health).max {
            old(health).current + amount
        } else {
            old(health).max as int
        },
        old(health).wf() ==> final(health).wf(),
        shown == (AppliedDamage { entity, value: amount }),
{
    let sum: u64 = health.current as u64 + amount as u64;
    if sum >= health.max as u64 {
        health.current = health.max;
    } else {
        health.current = sum as u32;
    }
    spawn_damage_text_on_entity(entity, amount)
}

/// Damage leaves `max(0, current - amount)` and keeps a combatant well formed.
pub proof fn lemma_damage_clamps(health: Health, amount: u32)
    ensures
        damaged(health, amount).max == health.max,
        damaged(health, amount).current == if health.current - amount > 0 { health.current - amount } else { 0 },
        damaged(health, amount).current <= health.current,
        health.wf() ==> damaged(health, amount).wf(),
{
}

/// Healing leaves `min(max, current + amount)` and keeps a combatant well
/// formed.
pub proof fn lemma_heal_clamps(health: Health, amount: u32)
    ensures
        healed(health, amount).max == health.max,
        healed(health, amount).current == if health.current + amount < health.max {
            health.current + amount
        } else {
            health.max as int
        },
        health.wf() ==> healed(health, amount).current >= health.current,
        health.wf() ==> healed(health, amount).wf(),
{
}

} // verus!
