//! The events of spell casting.

use crate::auras::Aura;
use vstd::prelude::*;

verus! {

/// How long a spell takes to cast, in nanoseconds.
#[derive(Clone, Copy, Debug, PartialEq, Eq, Structural)]
pub enum CastTime {
    Instant,
    Duration(u64),
}

impl CastTime {
    /// A cast that takes no time fires at once.
    pub open spec fn is_instant(self) -> bool {
        match self {
            CastTime::Instant => true,
            CastTime::Duration(d) => d == 0,
        }
    }

    /// The nanoseconds the cast takes.
    pub open spec fn nanos(self) -> u64 {
        match self {
            CastTime::Instant => 0,
            CastTime::Duration(d) => d,
        }
    }
}

/// The wish to cast a spell.
#[derive(Debug)]
pub struct CastSpellInit {
    pub spell_id: String,
    pub cast_time: CastTime,
    pub damage: u32,
    pub apply_auras: Vec<Aura>,
}

/// The moment a spell takes effect.
#[derive(Debug)]
pub struct CastSpellFire {
    pub id: String,
}

} // verus!
