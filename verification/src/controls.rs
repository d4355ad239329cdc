//! What the keys mean: which wish to cast a spell a key press stands for.

use crate::spells::model::{CastSpellInit, CastTime};
use crate::timer::NANOS_PER_SECOND;
use vstd::prelude::*;

verus! {

/// Seconds that the ranged spell takes to cast.
pub const RANGED_CAST_SECONDS: u64 = 2;

/// Damage named in the wish to cast either spell.
pub const CAST_DAMAGE: u32 = 10;

/// The key of the ranged spell was pressed: the wish to cast the spell `s`,
/// which takes `RANGED_CAST_SECONDS`. Nothing without the key.
pub fn on_mouse_shoot(key_just_pressed: bool) -> (wish: Option<CastSpellInit>)
    ensures
        wish.is_some() == key_just_pressed,
        key_just_pressed ==> {
            &&& wish.unwrap().spell_id@ == seq!['s']
            &&& wish.unwrap().cast_time == CastTime::Duration(
                (RANGED_CAST_SECONDS * NANOS_PER_SECOND) as u64,
            )
            &&& wish.unwrap().damage == CAST_DAMAGE
            &&& wish.unwrap().apply_auras@.len() == 0
        },
{
    if key_just_pressed {
        proof {
            reveal_strlit("s");
            assert("s"@ =~= seq!['s']);
        }
        Some(
            CastSpellInit {
                spell_id: "s".to_string(),
                cast_time: CastTime::Duration(RANGED_CAST_SECONDS * NANOS_PER_SECOND),
                damage: CAST_DAMAGE,
                apply_auras: Vec::new(),
            },
        )
    } else {
        None
    }
}

/// The key of the melee attack was pressed: the wish to cast the spell `a`,
/// which takes no time. Nothing without the key.
pub fn basic_attack(key_just_pressed: bool) -> (wish: Option<CastSpellInit>)
    ensures
        wish.is_some() == key_just_pressed,
        key_just_pressed ==> {
            &&& wish.unwrap().spell_id@ == seq!['a']
            &&& wish.unwrap().cast_time == CastTime::Instant
            &&& wish.unwrap().damage == CAST_DAMAGE
            &&& wish.unwrap().apply_auras@.len() == 0
        },
{
    if key_just_pressed {
        proof {
            reveal_strlit("a");
            assert("a"@ =~= seq!['a']);
        }
        Some(
            CastSpellInit {
                spell_id: "a".to_string(),
                cast_time: CastTime::Instant,
                damage: CAST_DAMAGE,
                apply_auras: Vec::new(),
            },
        )
    } else {
        None
    }
}

} // verus!
