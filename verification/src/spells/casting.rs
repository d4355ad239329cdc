//! The timed cast: a spell that fires when its cast time has passed.

use crate::spells::model::CastSpellFire;
use vstd::prelude::*;

verus! {

/// A cast under way: `current_duration` nanoseconds of `total_duration`
/// have passed.
#[derive(Debug)]
pub struct Casting {
    pub current_duration: u64,
    pub total_duration: u64,
    pub spell_id: String,
}

/// A cast under way, as the rules see it.
pub struct CastingView {
    pub current_duration: u64,
    pub total_duration: u64,
    pub spell_id: Seq<char>,
}

impl View for Casting {
    type V = CastingView;

    open spec fn view(&self) -> CastingView {
        CastingView {
            current_duration: self.current_duration,
            total_duration: self.total_duration,
            spell_id: self.spell_id@,
        }
    }
}

/// The cast of a caster who may be casting nothing, as the rules see it.
pub open spec fn cast_of(casting: Option<Casting>) -> Option<CastingView> {
    match casting {
        Some(c) => Some(c@),
        None => None,
    }
}

/// Whether a cast fires in a frame of `delta` nanoseconds: its cast time
/// has then passed.
pub open spec fn cast_fires(casting: Option<CastingView>, delta: u64) -> bool {
    casting.is_some() && casting.unwrap().current_duration + delta
        >= casting.unwrap().total_duration
}

/// The cast after a frame of `delta` nanoseconds: over once it has fired,
/// else `delta` further on.
pub open spec fn cast_after(casting: Option<CastingView>, delta: u64) -> Option<CastingView> {
    if casting.is_none() || cast_fires(casting, delta) {
        None
    } else {
        Some(
            CastingView {
                current_duration: (casting.unwrap().current_duration + delta) as u64,
                total_duration: casting.unwrap().total_duration,
                spell_id: casting.unwrap().spell_id,
            },
        )
    }
}

/// One frame of `delta` nanoseconds for a caster: a cast under way moves
/// on, and when its cast time has passed the spell fires and the cast is
/// over. A caster who casts nothing stays so and fires nothing.
pub fn casting_system(casting: &mut Option<Casting>, delta: u64) -> (fired: Option<CastSpellFire>)
    ensures
        cast_of(*final(casting)) == cast_after(cast_of(*old(casting)), delta),
        fired.is_some() == cast_fires(cast_of(*old(casting)), delta),
        fired.is_some() ==> fired.unwrap().id@ == old(casting).unwrap().spell_id@,
{
    let current = casting.take();
    match current {
        None => None,
        Some(mut cast) => {
            let sum: u128 = cast.current_duration as u128 + delta as u128;
            if sum >= cast.total_duration as u128 {
                Some(CastSpellFire { id: cast.spell_id })
            } else {
                cast.current_duration = sum as u64;
                *casting = Some(cast);
                None
            }
        },
    }
}

/// The cast after the frames `deltas`, in their order.
pub open spec fn cast_after_frames(casting: Option<CastingView>, deltas: Seq<u64>) -> Option<
    CastingView,
>
    decreases deltas.len(),
{
    if deltas.len() == 0 {
        casting
    } else {
        cast_after(cast_after_frames(casting, deltas.drop_last()), deltas.last())
    }
}

/// In how many of the frames `deltas` the cast fires.
pub open spec fn casts_fired(casting: Option<CastingView>, deltas: Seq<u64>) -> nat
    decreases deltas.len(),
{
    if deltas.len() == 0 {
        0
    } else {
        let before = casts_fired(casting, deltas.drop_last());
        if cast_fires(cast_after_frames(casting, deltas.drop_last()), deltas.last()) {
            before + 1
        } else {
            before
        }
    }
}

/// The nanoseconds in the frames `deltas` together.
pub open spec fn frames_time(deltas: Seq<u64>) -> nat
    decreases deltas.len(),
{
    if deltas.len() == 0 {
        0
    } else {
        frames_time(deltas.drop_last()) + deltas.last() as nat
    }
}

/// A timed cast fires once and never again: over any run of frames it has
/// fired exactly once if the time that passed has made up its cast time, and
/// not at all before that. Until it fires the cast is under way with all
/// the time that passed on its clock; after that the caster casts nothing.
pub proof fn lemma_cast_fires_once(cast: CastingView, deltas: Seq<u64>)
    requires
        cast.current_duration < cast.total_duration,
    ensures
        casts_fired(Some(cast), deltas) == if cast.current_duration + frames_time(deltas)
            >= cast.total_duration {
            1nat
        } else {
            0nat
        },
        cast.current_duration + frames_time(deltas) >= cast.total_duration ==> cast_after_frames(
            Some(cast),
            deltas,
        ).is_none(),
        cast.current_duration + frames_time(deltas) < cast.total_duration ==> cast_after_frames(
            Some(cast),
            deltas,
        ) == Some(
            CastingView {
                current_duration: (cast.current_duration + frames_time(deltas)) as u64,
                total_duration: cast.total_duration,
                spell_id: cast.spell_id,
            },
        ),
    decreases deltas.len(),
{
    if deltas.len() > 0 {
        lemma_cast_fires_once(cast, deltas.drop_last());
    }
}

/// A caster who casts nothing fires nothing, however much time passes.
pub proof fn lemma_idle_never_fires(deltas: Seq<u64>)
    ensures
        casts_fired(None, deltas) == 0,
        cast_after_frames(None, deltas).is_none(),
    decreases deltas.len(),
{
    if deltas.len() > 0 {
        lemma_idle_never_fires(deltas.drop_last());
    }
}

} // verus!
