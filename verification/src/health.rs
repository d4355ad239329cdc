//! Health of a combatant and the sweep that finds the dead.

use vstd::prelude::*;

verus! {

/// Current and maximum health of one combatant.
#[derive(Clone, Copy, Debug, PartialEq, Eq, Structural)]
pub struct Health {
    pub max: u32,
    pub current: u32,
}

impl Health {
    /// A combatant has room for at least one point and never holds more than
    /// its maximum.
    pub open spec fn wf(&self) -> bool {
        1 <= self.max && self.current <= self.max
    }

    /// A combatant at full health.
    pub fn full(max: u32) -> (h: Health)
        ensures
            h.max == max,
            h.current == max,
            max >= 1 ==> h.wf(),
    {
        Health { max, current: max }
    }

    /// The health the combatant has now.
    pub fn current(&self) -> (r: u32)
        ensures
            r == self.current,
    {
        self.current
    }

    /// The most health the combatant can have.
    pub fn max(&self) -> (r: u32)
        ensures
            r == self.max,
    {
        self.max
    }

    /// Whether the death sweep removes this combatant.
    pub open spec fn is_dead(&self) -> bool {
        self.current == 0
    }
}

/// The handles of the dead among `entities`, in their order.
pub open spec fn dead_handles(entities: Seq<(u64, Health)>) -> Seq<u64>
    decreases entities.len(),
{
    if entities.len() == 0 {
        Seq::empty()
    } else {
        let rest = dead_handles(entities.drop_last());
        if entities.last().1.is_dead() {
            rest.push(entities.last().0)
        } else {
            rest
        }
    }
}

/// The death sweep: names every combatant whose health is zero, in order,
/// for the caller to remove from the world.
pub fn health_system(entities: &Vec<(u64, Health)>) -> (dead: Vec<u64>)
    ensures
        dead@ == dead_handles(entities@),
{
    let mut dead: Vec<u64> = Vec::new();
    let mut i: usize = 0;
    while i < entities.len()
        invariant
            i <= entities.len(),
            dead@ == dead_handles(entities@.take(i as int)),
        decreases entities.len() - i,
    {
        proof {
            assert(entities@.take(i + 1).drop_last() == entities@.take(i as int));
        }
        if entities[i].1.current == 0 {
            dead.push(entities[i].0);
        }
        i += 1;
    }
    proof {
        assert(entities@.take(i as int) == entities@);
    }
    dead
}

/// A handle is named by the sweep exactly when a combatant with that handle
/// has no health left.
pub proof fn lemma_dead_handles_contains(entities: Seq<(u64, Health)>, id: u64)
    ensures
        dead_handles(entities).contains(id) <==> exists|i: int|
            0 <= i < entities.len() && (#[trigger] entities[i]).0 == id && entities[i].1.is_dead(),
    decreases entities.len(),
{
    if entities.len() > 0 {
        let init = entities.drop_last();
        let last = entities.last();
        lemma_dead_handles_contains(init, id);
        let rest = dead_handles(init);
        if dead_handles(entities).contains(id) {
            if last.1.is_dead() && last.0 == id {
                assert(entities[entities.len() - 1] == last);
            } else {
                if last.1.is_dead() {
                    let k = choose|k: int| 0 <= k < rest.push(last.0).len() && rest.push(last.0)[k] == id;
                    assert(k < rest.len());
                    assert(rest[k] == id);
                }
                assert(rest.contains(id));
                let j = choose|j: int| 0 <= j < init.len() && (#[trigger] init[j]).0 == id && init[j].1.is_dead();
                assert(entities[j] == init[j]);
            }
        }
        if exists|i: int| 0 <= i < entities.len() && (#[trigger] entities[i]).0 == id && entities[i].1.is_dead() {
            let i = choose|i: int| 0 <= i < entities.len() && (#[trigger] entities[i]).0 == id && entities[i].1.is_dead();
            if i == entities.len() - 1 {
                assert(rest.push(last.0)[rest.len() as int] == id);
            } else {
                assert(init[i] == entities[i]);
                assert(rest.contains(id));
                let k = choose|k: int| 0 <= k < rest.len() && rest[k] == id;
                if last.1.is_dead() {
                    assert(rest.push(last.0)[k] == id);
                }
            }
        }
    }
}

} // verus!
