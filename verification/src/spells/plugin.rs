//! The spell rules as one unit: what one frame does to a caster and to
//! those around.

use crate::combatant::{views, Caster, Combatant, CombatantView};
use crate::spells::casting::{cast_after, cast_fires, cast_of, casting_system, Casting, CastingView};
use crate::spells::model::{CastSpellFire, CastSpellInit, CastTime};
use crate::spells::spell_system::{
    spell_effect, spell_init_system, spell_struck, spell_system, CastStart, SpellEffect,
    SpellEffectView,
};
use vstd::prelude::*;

verus! {

/// The spell rules: the timed cast, the wish to cast and the spells' effects,
/// in this order.
#[derive(Clone, Copy, Debug, PartialEq, Eq, Structural)]
pub struct SpellsPlugin;

/// What one frame of the spell rules did.
#[derive(Debug)]
pub struct SpellsFrame {
    /// What each spell that fired in the frame did, in the order of firing.
    pub effects: Vec<SpellEffect>,
    /// Whether the wish to cast was dropped because a cast is under way.
    pub busy: bool,
}

/// The wish to cast, as the rules see it: the spell's identifier and its
/// cast time.
pub open spec fn wish_of(wish: Option<&CastSpellInit>) -> Option<(Seq<char>, CastTime)> {
    match wish {
        Some(init) => Some((init.spell_id@, init.cast_time)),
        None => None,
    }
}

/// Whether the wish is dropped: it asks for a timed cast of a caster who is
/// casting.
pub open spec fn turned_away(casting: Option<CastingView>, wish: Option<(Seq<char>, CastTime)>) -> bool {
    wish.is_some() && !wish.unwrap().1.is_instant() && casting.is_some()
}

/// The cast of a caster after the wish is taken up: a wish for a timed cast
/// begins one for a caster who casts nothing; nothing else changes the cast.
pub open spec fn cast_begun(casting: Option<CastingView>, wish: Option<(Seq<char>, CastTime)>) -> Option<
    CastingView,
> {
    if wish.is_some() && !wish.unwrap().1.is_instant() && casting.is_none() {
        Some(
            CastingView {
                current_duration: 0,
                total_duration: wish.unwrap().1.nanos(),
                spell_id: wish.unwrap().0,
            },
        )
    } else {
        casting
    }
}

/// The spells that fire in one frame: first that of a timed cast whose time
/// has passed, then that of a wish for an instant cast.
pub open spec fn frame_fires(
    casting: Option<CastingView>,
    delta: u64,
    wish: Option<(Seq<char>, CastTime)>,
) -> Seq<Seq<char>> {
    let timed = if cast_fires(casting, delta) {
        seq![casting.unwrap().spell_id]
    } else {
        Seq::empty()
    };
    if wish.is_some() && wish.unwrap().1.is_instant() {
        timed.push(wish.unwrap().0)
    } else {
        timed
    }
}

/// What the spells `ids`, fired in their order, make of `others`.
pub open spec fn struck_by_all(ids: Seq<Seq<char>>, caster: Caster, others: Seq<CombatantView>) -> Seq<
    CombatantView,
>
    decreases ids.len(),
{
    if ids.len() == 0 {
        others
    } else {
        spell_struck(ids.last(), caster, struck_by_all(ids.drop_last(), caster, others))
    }
}

/// What each of the spells `ids` does, fired in their order, each among
/// what the ones before it left of `others`.
pub open spec fn effects_of_all(ids: Seq<Seq<char>>, caster: Caster, others: Seq<CombatantView>) -> Seq<
    SpellEffectView,
>
    decreases ids.len(),
{
    if ids.len() == 0 {
        Seq::empty()
    } else {
        effects_of_all(ids.drop_last(), caster, others).push(
            spell_effect(ids.last(), caster, struck_by_all(ids.drop_last(), caster, others)),
        )
    }
}

/// The identifiers of fired spells.
pub open spec fn fired_ids(fires: Seq<CastSpellFire>) -> Seq<Seq<char>> {
    fires.map_values(|fire: CastSpellFire| fire.id@)
}

/// What spells did, as the rules see it.
pub open spec fn effect_views(effects: Seq<SpellEffect>) -> Seq<SpellEffectView> {
    effects.map_values(|effect: SpellEffect| effect@)
}

impl SpellsPlugin {
    /// One frame of `delta` nanoseconds of the spell rules for one caster.
    /// First a cast under way moves on, and fires if its time has passed.
    /// Then the wish to cast, if there is one, is taken up: an instant spell
    /// fires, a timed one begins its cast or is dropped. Last, each spell
    /// that fired takes effect, in the order of firing.
    pub fn update(
        &self,
        wish: Option<&CastSpellInit>,
        casting: &mut Option<Casting>,
        delta: u64,
        caster: &Caster,
        others: &mut Vec<Combatant>,
    ) -> (frame: SpellsFrame)
        ensures
            cast_of(*final(casting)) == cast_begun(
                cast_after(cast_of(*old(casting)), delta),
                wish_of(wish),
            ),
            frame.busy == turned_away(cast_after(cast_of(*old(casting)), delta), wish_of(wish)),
            views(final(others)@) == struck_by_all(
                frame_fires(cast_of(*old(casting)), delta, wish_of(wish)),
                *caster,
                views(old(others)@),
            ),
            effect_views(frame.effects@) == effects_of_all(
                frame_fires(cast_of(*old(casting)), delta, wish_of(wish)),
                *caster,
                views(old(others)@),
            ),
    {
        let ghost ids = frame_fires(cast_of(*casting), delta, wish_of(wish));
        let ghost before = views(others@);
        let mut fires: Vec<CastSpellFire> = Vec::new();
        match casting_system(casting, delta) {
            Some(fire) => {
                fires.push(fire);
            },
            None => {},
        }
        let mut busy = false;
        match wish {
            Some(init) => {
                match spell_init_system(init, casting) {
                    CastStart::Fired(fire) => {
                        fires.push(fire);
                    },
                    CastStart::Started => {},
                    CastStart::Busy => {
                        busy = true;
                    },
                }
            },
            None => {},
        }
        assert(fired_ids(fires@) =~= ids);
        let mut effects: Vec<SpellEffect> = Vec::new();
        let mut i: usize = 0;
        while i < fires.len()
            invariant
                i <= fires.len(),
                fired_ids(fires@) == ids,
                views(others@) == struck_by_all(ids.take(i as int), *caster, before),
                effect_views(effects@) == effects_of_all(ids.take(i as int), *caster, before),
            decreases fires.len() - i,
        {
            proof {
                assert(ids.take(i + 1).drop_last() == ids.take(i as int));
                assert(ids.take(i + 1).last() == fires[i as int].id@);
            }
            let effect = spell_system(&fires[i], caster, others);
            effects.push(effect);
            i += 1;
            proof {
                assert(effect_views(effects@) =~= effects_of_all(ids.take(i as int), *caster, before));
            }
        }
        proof {
            assert(ids.take(i as int) == ids);
        }
        SpellsFrame { effects, busy }
    }
}

} // verus!
