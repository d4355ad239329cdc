//! How a cast begins and what a spell does when it fires.

use crate::auras::{apply_overtime, Overtime};
use crate::combatant::{views, Caster, Combatant, CombatantView};
use crate::damage::{apply_damage, damaged, Damage};
use crate::damage_text::AppliedDamage;
use crate::geometry::{is_within_radius, within_radius};
use crate::lifetime::Lifetime;
use crate::projectile::{Projectile, ProjectileBundle};
use crate::spells::casting::{cast_of, Casting, CastingView};
use crate::spells::model::{CastSpellFire, CastSpellInit, CastTime};
use crate::timer::NANOS_PER_SECOND;
use vstd::prelude::*;

verus! {

/// Reach of the melee attack, in thousandths of a unit.
pub const MELEE_RADIUS: u32 = 2000;

/// Damage of the melee attack.
pub const MELEE_DAMAGE: u32 = 10;

/// Damage of each change of the bleed that the melee attack leaves.
pub const MELEE_BLEED_DAMAGE: u32 = 3;

/// Number of changes of the bleed that the melee attack leaves.
pub const MELEE_BLEED_COUNT: u32 = 5;

/// Damage of the ranged spell's projectile.
pub const RANGED_DAMAGE: u32 = 10;

/// Speed of the ranged spell's projectile, in thousandths.
pub const RANGED_SPEED: i32 = 1000;

/// Seconds that the ranged spell's projectile lasts.
pub const RANGED_LIFETIME_SECONDS: u32 = 1;

/// The spells there are.
#[derive(Clone, Copy, Debug, PartialEq, Eq, Structural)]
pub enum SpellKind {
    /// The ranged spell, identifier `s`.
    Ranged,
    /// The melee basic attack, identifier `a`.
    Melee,
}

/// The spell that an identifier names, if any.
pub open spec fn spell_kind(id: Seq<char>) -> Option<SpellKind> {
    if id == seq!['s'] {
        Some(SpellKind::Ranged)
    } else if id == seq!['a'] {
        Some(SpellKind::Melee)
    } else {
        None
    }
}

/// Looks up the spell that `id` names.
pub fn spell_kind_of(id: &str) -> (kind: Option<SpellKind>)
    ensures
        kind == spell_kind(id@),
{
    if id.unicode_len() != 1 {
        assert(seq!['s'].len() == 1 && seq!['a'].len() == 1);
        return None;
    }
    let c = id.get_char(0);
    if c == 's' {
        assert(id@ =~= seq!['s']);
        Some(SpellKind::Ranged)
    } else if c == 'a' {
        assert(id@ =~= seq!['a']);
        assert(seq!['s'][0] != seq!['a'][0]);
        Some(SpellKind::Melee)
    } else {
        assert(seq!['s'][0] == 's' && seq!['a'][0] == 'a');
        None
    }
}

/// What became of the wish to cast a spell.
#[derive(Debug)]
pub enum CastStart {
    /// The spell fired at once.
    Fired(CastSpellFire),
    /// A timed cast has begun.
    Started,
    /// The caster is casting already; the wish is dropped.
    Busy,
}

/// Takes up the wish to cast a spell. A spell that takes no time fires at
/// once and leaves the caster as they were. A spell that takes time begins
/// a timed cast, unless one is under way: then the wish is dropped and the
/// cast under way goes on.
pub fn spell_init_system(event: &CastSpellInit, casting: &mut Option<Casting>) -> (outcome:
    CastStart)
    ensures
        event.cast_time.is_instant() ==> *final(casting) == *old(casting) && (outcome matches CastStart::Fired(
            fire,
        ) && fire.id@ == event.spell_id@),
        !event.cast_time.is_instant() && old(casting).is_some() ==> *final(casting) == *old(casting)
            && outcome is Busy,
        !event.cast_time.is_instant() && old(casting).is_none() ==> outcome is Started && cast_of(
            *final(casting),
        ) == Some(
            CastingView {
                current_duration: 0,
                total_duration: event.cast_time.nanos(),
                spell_id: event.spell_id@,
            },
        ),
{
    let total: u64 = match event.cast_time {
        CastTime::Instant => 0,
        CastTime::Duration(d) => d,
    };
    if total == 0 {
        CastStart::Fired(CastSpellFire { id: event.spell_id.clone() })
    } else if casting.is_some() {
        CastStart::Busy
    } else {
        *casting = Some(
            Casting { current_duration: 0, total_duration: total, spell_id: event.spell_id.clone() },
        );
        CastStart::Started
    }
}

/// The projectile of the ranged spell: it starts where the caster stands and
/// flies the way the caster faces, and its first hit uses it up.
pub open spec fn ranged_projectile(character: Caster) -> ProjectileBundle {
    ProjectileBundle {
        position: character.position,
        lifetime: Lifetime {
            duration: (RANGED_LIFETIME_SECONDS * NANOS_PER_SECOND) as u64,
            elapsed: 0,
        },
        damage: Damage { amount: RANGED_DAMAGE },
        projectile: Projectile {
            despawn_after_hit: true,
            speed: RANGED_SPEED,
            direction: character.forward,
        },
    }
}

/// The ranged spell: one projectile for the caller to put into the world.
pub fn cast_spell(character: &Caster) -> (bundle: ProjectileBundle)
    ensures
        bundle == ranged_projectile(*character),
{
    ProjectileBundle {
        position: character.position,
        lifetime: Lifetime::from_seconds(RANGED_LIFETIME_SECONDS),
        damage: Damage { amount: RANGED_DAMAGE },
        projectile: Projectile {
            despawn_after_hit: true,
            speed: RANGED_SPEED,
            direction: character.forward,
        },
    }
}

/// The bleed that the melee attack leaves.
pub open spec fn melee_bleed() -> Overtime {
    Overtime {
        damage_healing_flag: false,
        amount: MELEE_BLEED_DAMAGE,
        period: NANOS_PER_SECOND,
        elapsed: 0,
        count: MELEE_BLEED_COUNT,
    }
}

/// Whether the melee attack of `player` hits `other`: anyone but the
/// attacker who stands within reach on the horizontal plane.
pub open spec fn melee_hits(player: Caster, other: CombatantView) -> bool {
    other.entity != player.entity && within_radius(other.position, player.position, MELEE_RADIUS)
}

/// What the melee attack makes of a combatant it hits: damaged, with the
/// bleed behind the effects already at work.
pub open spec fn melee_struck(other: CombatantView) -> CombatantView {
    CombatantView {
        entity: other.entity,
        position: other.position,
        health: damaged(other.health, MELEE_DAMAGE),
        overtime: Some(other.effects().push(melee_bleed())),
    }
}

/// What a melee attack of `player` makes of `others`: those it hits are
/// struck, the rest are as they were.
pub open spec fn melee(player: Caster, others: Seq<CombatantView>) -> Seq<CombatantView> {
    others.map_values(
        |other: CombatantView|
            if melee_hits(player, other) {
                melee_struck(other)
            } else {
                other
            },
    )
}

/// The numbers shown for a melee attack: one over each combatant it hits.
pub open spec fn melee_marks(player: Caster, others: Seq<CombatantView>) -> Seq<AppliedDamage>
    decreases others.len(),
{
    if others.len() == 0 {
        Seq::empty()
    } else {
        let before = melee_marks(player, others.drop_last());
        if melee_hits(player, others.last()) {
            before.push(AppliedDamage { entity: others.last().entity, value: MELEE_DAMAGE })
        } else {
            before
        }
    }
}

/// The melee basic attack: damages every combatant within reach of the
/// attacker, the attacker excepted, and leaves a bleed on each. Returns the
/// numbers to show.
pub fn basic_attack(player: &Caster, others: &mut Vec<Combatant>) -> (marks: Vec<AppliedDamage>)
    ensures
        views(final(others)@) == melee(*player, views(old(others)@)),
        marks@ == melee_marks(*player, views(old(others)@)),
{
    let mut marks: Vec<AppliedDamage> = Vec::new();
    let mut i: usize = 0;
    let ghost before = views(others@);
    while i < others.len()
        invariant
            i <= others.len(),
            others.len() == old(others).len(),
            before == views(old(others)@),
            forall|k: int| 0 <= k < i ==> (#[trigger] others[k])@ == melee(*player, before)[k],
            forall|k: int| i <= k < others.len() ==> others[k] == old(others)[k],
            marks@ == melee_marks(*player, before.take(i as int)),
        decreases others.len() - i,
    {
        proof {
            assert(before.take(i + 1).drop_last() == before.take(i as int));
            assert(before[i as int] == others[i as int]@);
        }
        let entity = others[i].entity;
        if entity != player.entity && is_within_radius(
            others[i].position,
            player.position,
            MELEE_RADIUS,
        ) {
            let mark = apply_damage(entity, MELEE_DAMAGE, &mut others[i].health);
            apply_overtime(
                Overtime::damage_per_second(MELEE_BLEED_DAMAGE, MELEE_BLEED_COUNT),
                &mut others[i].overtime,
            );
            marks.push(mark);
        }
        i += 1;
    }
    proof {
        assert(before.take(i as int) == before);
        assert(views(others@) =~= melee(*player, before));
    }
    marks
}

/// What a fired spell did.
#[derive(Debug)]
pub enum SpellEffect {
    /// The identifier names no spell: nothing happens.
    Nothing,
    /// The ranged spell: a projectile to put into the world.
    Projectile(ProjectileBundle),
    /// The melee attack: the numbers to show over those it hit.
    Melee(Vec<AppliedDamage>),
}

/// What a fired spell did, as the rules see it.
pub enum SpellEffectView {
    Nothing,
    Projectile(ProjectileBundle),
    Melee(Seq<AppliedDamage>),
}

impl View for SpellEffect {
    type V = SpellEffectView;

    open spec fn view(&self) -> SpellEffectView {
        match self {
            SpellEffect::Nothing => SpellEffectView::Nothing,
            SpellEffect::Projectile(bundle) => SpellEffectView::Projectile(*bundle),
            SpellEffect::Melee(marks) => SpellEffectView::Melee(marks@),
        }
    }
}

/// What the spell named `id` does when `caster` fires it among `others`.
pub open spec fn spell_effect(id: Seq<char>, caster: Caster, others: Seq<CombatantView>) -> SpellEffectView {
    match spell_kind(id) {
        Some(SpellKind::Ranged) => SpellEffectView::Projectile(ranged_projectile(caster)),
        Some(SpellKind::Melee) => SpellEffectView::Melee(melee_marks(caster, others)),
        None => SpellEffectView::Nothing,
    }
}

/// What the spell named `id` makes of `others` when `caster` fires it.
pub open spec fn spell_struck(id: Seq<char>, caster: Caster, others: Seq<CombatantView>) -> Seq<
    CombatantView,
> {
    match spell_kind(id) {
        Some(SpellKind::Melee) => melee(caster, others),
        _ => others,
    }
}

/// Carries out a fired spell by its identifier: the ranged spell hands over
/// its projectile, the melee attack strikes those within reach, and an
/// identifier that names no spell changes nothing.
pub fn spell_system(event: &CastSpellFire, caster: &Caster, others: &mut Vec<Combatant>) -> (effect:
    SpellEffect)
    ensures
        effect@ == spell_effect(event.id@, *caster, views(old(others)@)),
        views(final(others)@) == spell_struck(event.id@, *caster, views(old(others)@)),
        spell_kind(event.id@) != Some(SpellKind::Melee) ==> final(others)@ == old(others)@,
{
    match spell_kind_of(event.id.as_str()) {
        Some(SpellKind::Ranged) => SpellEffect::Projectile(cast_spell(caster)),
        Some(SpellKind::Melee) => SpellEffect::Melee(basic_attack(caster, others)),
        None => SpellEffect::Nothing,
    }
}

} // verus!
