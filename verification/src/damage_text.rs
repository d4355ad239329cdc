//! The numbers that float over a combatant whose health was changed.

use crate::lifetime::Lifetime;
use crate::timer::NANOS_PER_SECOND;
use vstd::prelude::*;

verus! {

/// Seconds that a floating number lasts.
pub const DAMAGE_TEXT_SECONDS: u32 = 2;

/// Says that the health of `entity` was changed by `value`, and that the
/// number is still to be shown.
#[derive(Clone, Copy, Debug, PartialEq, Eq, Structural)]
pub struct AppliedDamage {
    pub entity: u64,
    pub value: u32,
}

/// The combatant that a floating number belongs to.
#[derive(Clone, Copy, Debug, PartialEq, Eq, Structural)]
pub struct DamageTextAttach {
    pub attached_to: u64,
}

/// The number shown.
#[derive(Clone, Copy, Debug, PartialEq, Eq, Structural)]
pub struct DamageText {
    pub value: u32,
}

/// How long a floating number has left.
#[derive(Clone, Copy, Debug, PartialEq, Eq, Structural)]
pub struct DamageTextLifetime {
    pub timer: Lifetime,
}

/// A floating number as it enters the world.
#[derive(Clone, Copy, Debug, PartialEq, Eq, Structural)]
pub struct DamageTextBundle {
    pub amount: DamageText,
    pub damage: DamageTextAttach,
    pub lifetime: DamageTextLifetime,
}

/// Notes that the health of `entity` was changed by `value`.
pub fn spawn_damage_text_on_entity(entity: u64, value: u32) -> (applied: AppliedDamage)
    ensures
        applied == (AppliedDamage { entity, value }),
{
    AppliedDamage { entity, value }
}

/// The floating number for one change of health: it carries the amount and
/// the combatant, and lasts `DAMAGE_TEXT_SECONDS` whatever becomes of the
/// combatant.
pub open spec fn damage_text_of(applied: AppliedDamage) -> DamageTextBundle {
    DamageTextBundle {
        amount: DamageText { value: applied.value },
        damage: DamageTextAttach { attached_to: applied.entity },
        lifetime: DamageTextLifetime {
            timer: Lifetime {
                duration: (DAMAGE_TEXT_SECONDS * NANOS_PER_SECOND) as u64,
                elapsed: 0,
            },
        },
    }
}

/// Makes the floating numbers for the changes of health of one frame, one
/// for each change and in their order.
pub fn spawn_damage_text_children(applied: &Vec<AppliedDamage>) -> (texts: Vec<DamageTextBundle>)
    ensures
        texts@ == applied@.map_values(|a: AppliedDamage| damage_text_of(a)),
{
    let mut texts: Vec<DamageTextBundle> = Vec::new();
    let mut i: usize = 0;
    while i < applied.len()
        invariant
            i <= applied.len(),
            texts@ == applied@.take(i as int).map_values(|a: AppliedDamage| damage_text_of(a)),
        decreases applied.len() - i,
    {
        let one = applied[i];
        texts.push(
            DamageTextBundle {
                amount: DamageText { value: one.value },
                damage: DamageTextAttach { attached_to: one.entity },
                lifetime: DamageTextLifetime { timer: Lifetime::from_seconds(DAMAGE_TEXT_SECONDS) },
            },
        );
        i += 1;
        proof {
            assert(texts@ =~= applied@.take(i as int).map_values(
                |a: AppliedDamage| damage_text_of(a),
            ));
        }
    }
    proof {
        assert(applied@.take(i as int) == applied@);
    }
    texts
}

} // verus!
