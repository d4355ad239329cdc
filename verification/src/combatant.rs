//! The combatant as the spell rules meet it.

use crate::auras::{listed, Overtime, OvertimeComponent};
use crate::geometry::FixedVec3;
use crate::health::Health;
use vstd::prelude::*;

verus! {

/// Anything with health: where it stands, how much health it has, and the
/// periodic effects at work on it, if any.
#[derive(Debug)]
pub struct Combatant {
    pub entity: u64,
    pub position: FixedVec3,
    pub health: Health,
    pub overtime: Option<OvertimeComponent>,
}

/// A combatant as the rules see it: the periodic effects are a list, if the
/// combatant carries any.
pub struct CombatantView {
    pub entity: u64,
    pub position: FixedVec3,
    pub health: Health,
    pub overtime: Option<Seq<Overtime>>,
}

impl View for Combatant {
    type V = CombatantView;

    open spec fn view(&self) -> CombatantView {
        CombatantView {
            entity: self.entity,
            position: self.position,
            health: self.health,
            overtime: listed(self.overtime),
        }
    }
}

impl CombatantView {
    /// The periodic effects at work on the combatant: none without a list.
    pub open spec fn effects(self) -> Seq<Overtime> {
        match self.overtime {
            Some(list) => list,
            None => Seq::empty(),
        }
    }
}

/// Combatants as the rules see them.
pub open spec fn views(combatants: Seq<Combatant>) -> Seq<CombatantView> {
    combatants.map_values(|c: Combatant| c@)
}

/// The one who casts: where they stand and which way they face, as a vector
/// of length `UNIT`.
#[derive(Clone, Copy, Debug, PartialEq, Eq, Structural)]
pub struct Caster {
    pub entity: u64,
    pub position: FixedVec3,
    pub forward: FixedVec3,
}

} // verus!
