//! Auras: effects that stay on a combatant. Of the three kinds only the
//! periodic one, damage or healing over time, has rules so far.

use crate::combatant::{views, Combatant, CombatantView};
use crate::damage::{apply_damage, apply_health, damaged, healed};
use crate::damage_text::AppliedDamage;
use crate::health::Health;
use crate::timer::{lemma_ticked_bounds, ticked, timer_tick, NANOS_PER_SECOND};
use vstd::prelude::*;

verus! {

/// The kinds of aura.
#[derive(Clone, Copy, Debug, PartialEq, Eq, Structural)]
pub enum Aura {
    MovementEffect,
    OvertimeEffect,
    DamageChange,
}

/// The units in which the period of a periodic effect is given.
#[derive(Clone, Copy, Debug, PartialEq, Eq, Structural)]
pub enum OvertimeUnit {
    Second,
    Hour,
    Minute,
}

impl OvertimeUnit {
    /// Length of the unit in nanoseconds.
    pub open spec fn spec_nanos(self) -> u64 {
        match self {
            OvertimeUnit::Second => 1_000_000_000,
            OvertimeUnit::Minute => 60_000_000_000,
            OvertimeUnit::Hour => 3_600_000_000_000,
        }
    }

    /// Length of the unit in nanoseconds.
    pub fn nanos(&self) -> (r: u64)
        ensures
            r == self.spec_nanos(),
    {
        match self {
            OvertimeUnit::Second => NANOS_PER_SECOND,
            OvertimeUnit::Minute => 60 * NANOS_PER_SECOND,
            OvertimeUnit::Hour => 3600 * NANOS_PER_SECOND,
        }
    }
}

/// One periodic change of health: `count` times `amount`, once every
/// `period` nanoseconds, of which `elapsed` have passed since the last one.
#[derive(Clone, Copy, Debug, PartialEq, Eq, Structural)]
pub struct Overtime {
    /// `true` heals, `false` damages.
    pub damage_healing_flag: bool,
    pub amount: u32,
    pub period: u64,
    pub elapsed: u64,
    pub count: u32,
}

/// The nanoseconds in `every` units of `time_unit`, as far as 64 bits hold
/// them.
pub open spec fn period_of(every: u32, time_unit: OvertimeUnit) -> u64 {
    if every * time_unit.spec_nanos() > u64::MAX {
        u64::MAX
    } else {
        (every * time_unit.spec_nanos()) as u64
    }
}

impl Overtime {
    /// `count` times `amount`, healing or damage, once every `every` units
    /// of `time_unit`.
    pub fn every(
        damage_healing_flag: bool,
        amount: u32,
        every: u32,
        time_unit: OvertimeUnit,
        count: u32,
    ) -> (r: Overtime)
        ensures
            r == (Overtime {
                damage_healing_flag,
                amount,
                period: period_of(every, time_unit),
                elapsed: 0,
                count,
            }),
    {
        let unit: u64 = time_unit.nanos();
        assert(every * unit <= 0xffff_ffff * 3_600_000_000_000) by (nonlinear_arith)
            requires
                0 <= every <= 0xffff_ffff,
                0 <= unit <= 3_600_000_000_000,
        ;
        let product: u128 = every as u128 * unit as u128;
        let period: u64 = if product > u64::MAX as u128 {
            u64::MAX
        } else {
            product as u64
        };
        Overtime { damage_healing_flag, amount, period, elapsed: 0, count }
    }

    /// `count` times `amount` damage, once a second.
    pub fn damage_per_second(amount: u32, count: u32) -> (r: Overtime)
        ensures
            r == (Overtime {
                damage_healing_flag: false,
                amount,
                period: NANOS_PER_SECOND,
                elapsed: 0,
                count,
            }),
    {
        Overtime::every(false, amount, 1, OvertimeUnit::Second, count)
    }

    /// Whether the effect changes health in a frame of `delta` nanoseconds:
    /// it has a change left and its clock reaches the period.
    pub open spec fn fires(self, delta: u64) -> bool {
        self.count > 0 && self.elapsed + delta >= self.period
    }

    /// The effect after a frame of `delta` nanoseconds: the clock has
    /// moved on, and a change that was made is no longer owed.
    pub open spec fn after(self, delta: u64) -> Overtime {
        Overtime {
            damage_healing_flag: self.damage_healing_flag,
            amount: self.amount,
            period: self.period,
            elapsed: ticked(true, self.period, self.elapsed, delta).0 as u64,
            count: if self.fires(delta) {
                (self.count - 1) as u32
            } else {
                self.count
            },
        }
    }

    /// Health after one change by this effect.
    pub open spec fn changed(self, health: Health) -> Health {
        if self.damage_healing_flag {
            healed(health, self.amount)
        } else {
            damaged(health, self.amount)
        }
    }

    /// Lets `delta` nanoseconds pass on the effect's clock and says whether
    /// the effect changes health in this frame.
    pub fn tick(&mut self, delta: u64) -> (fired: bool)
        ensures
            *final(self) == old(self).after(delta),
            fired == old(self).fires(delta),
    {
        let (elapsed, finished) = timer_tick(true, self.period, self.elapsed, delta);
        proof {
            lemma_ticked_bounds(true, self.period, self.elapsed, delta);
        }
        self.elapsed = elapsed;
        if finished && self.count > 0 {
            self.count = self.count - 1;
            true
        } else {
            false
        }
    }
}

/// The periodic effects at work on one combatant, oldest first.
#[derive(Debug)]
pub struct OvertimeComponent {
    pub applied: Vec<Overtime>,
}

impl View for OvertimeComponent {
    type V = Seq<Overtime>;

    open spec fn view(&self) -> Seq<Overtime> {
        self.applied@
    }
}

/// The effects listed by a component that may be missing.
pub open spec fn effects_of(component: Option<OvertimeComponent>) -> Seq<Overtime> {
    match component {
        Some(c) => c@,
        None => Seq::empty(),
    }
}

/// Puts `overtime` behind the effects already at work, with a new component
/// where there was none.
pub fn apply_overtime(overtime: Overtime, applied: &mut Option<OvertimeComponent>)
    ensures
        listed(*final(applied)) == Some(effects_of(*old(applied)).push(overtime)),
{
    match applied {
        Some(component) => {
            component.applied.push(overtime);
        },
        None => {
            let mut list: Vec<Overtime> = Vec::with_capacity(100);
            list.push(overtime);
            *applied = Some(OvertimeComponent { applied: list });
        },
    }
}

/// Health after a frame of `delta` nanoseconds under `effects`, each one
/// that fires changing what the ones before it left.
pub open spec fn health_after(effects: Seq<Overtime>, health: Health, delta: u64) -> Health
    decreases effects.len(),
{
    if effects.len() == 0 {
        health
    } else {
        let before = health_after(effects.drop_last(), health, delta);
        if effects.last().fires(delta) {
            effects.last().changed(before)
        } else {
            before
        }
    }
}

/// The effects that stay after a frame of `delta` nanoseconds: each with
/// its frame behind it, without those that owe no further change.
pub open spec fn effects_after(effects: Seq<Overtime>, delta: u64) -> Seq<Overtime>
    decreases effects.len(),
{
    if effects.len() == 0 {
        Seq::empty()
    } else {
        let before = effects_after(effects.drop_last(), delta);
        if effects.last().after(delta).count > 0 {
            before.push(effects.last().after(delta))
        } else {
            before
        }
    }
}

/// The numbers shown over `entity` in a frame of `delta` nanoseconds: one
/// for each effect that fires.
pub open spec fn marks_after(entity: u64, effects: Seq<Overtime>, delta: u64) -> Seq<AppliedDamage>
    decreases effects.len(),
{
    if effects.len() == 0 {
        Seq::empty()
    } else {
        let before = marks_after(entity, effects.drop_last(), delta);
        if effects.last().fires(delta) {
            before.push(AppliedDamage { entity, value: effects.last().amount })
        } else {
            before
        }
    }
}

/// The list of a component that may be missing.
pub open spec fn listed(component: Option<OvertimeComponent>) -> Option<Seq<Overtime>> {
    match component {
        Some(c) => Some(c@),
        None => None,
    }
}

/// The list that a combatant carries for `effects`: none for an empty one.
pub open spec fn carried(effects: Seq<Overtime>) -> Option<Seq<Overtime>> {
    if effects.len() == 0 {
        None
    } else {
        Some(effects)
    }
}

/// One frame of `delta` nanoseconds for the periodic effects on `entity`:
/// every effect's clock moves on, the effects that fire change `health` in
/// their order, the effects that owe nothing more leave the list, and a
/// component left with no effect is taken off. Returns the numbers to show.
pub fn tick_overtime(
    entity: u64,
    health: &mut Health,
    component: &mut Option<OvertimeComponent>,
    delta: u64,
) -> (marks: Vec<AppliedDamage>)
    ensures
        *final(health) == health_after(effects_of(*old(component)), *old(health), delta),
        listed(*final(component)) == carried(effects_after(effects_of(*old(component)), delta)),
        marks@ == marks_after(entity, effects_of(*old(component)), delta),
{
    let mut marks: Vec<AppliedDamage> = Vec::new();
    let mut kept: Vec<Overtime> = Vec::new();
    match component {
        None => {},
        Some(current) => {
            let ghost effects = current.applied@;
            let mut i: usize = 0;
            while i < current.applied.len()
                invariant
                    i <= current.applied.len(),
                    current.applied@ == effects,
                    *health == health_after(effects.take(i as int), *old(health), delta),
                    kept@ == effects_after(effects.take(i as int), delta),
                    marks@ == marks_after(entity, effects.take(i as int), delta),
                decreases current.applied.len() - i,
            {
                proof {
                    assert(effects.take(i + 1).drop_last() == effects.take(i as int));
                }
                let mut effect = current.applied[i];
                let fired = effect.tick(delta);
                if fired {
                    let mark = if effect.damage_healing_flag {
                        apply_health(entity, effect.amount, health)
                    } else {
                        apply_damage(entity, effect.amount, health)
                    };
                    marks.push(mark);
                }
                if effect.count > 0 {
                    kept.push(effect);
                }
                i += 1;
            }
            proof {
                assert(effects.take(i as int) == effects);
            }
        },
    }
    if kept.is_empty() {
        *component = None;
    } else {
        *component = Some(OvertimeComponent { applied: kept });
    }
    marks
}

/// What a frame of `delta` nanoseconds makes of a combatant: its effects
/// have changed its health and those that stay are listed; it stands where
/// it stood.
pub open spec fn overtime_passed(combatant: CombatantView, delta: u64) -> CombatantView {
    CombatantView {
        entity: combatant.entity,
        position: combatant.position,
        health: health_after(combatant.effects(), combatant.health, delta),
        overtime: carried(effects_after(combatant.effects(), delta)),
    }
}

/// The numbers shown in a frame of `delta` nanoseconds, combatant by
/// combatant.
pub open spec fn overtime_marks(combatants: Seq<CombatantView>, delta: u64) -> Seq<AppliedDamage>
    decreases combatants.len(),
{
    if combatants.len() == 0 {
        Seq::empty()
    } else {
        overtime_marks(combatants.drop_last(), delta) + marks_after(
            combatants.last().entity,
            combatants.last().effects(),
            delta,
        )
    }
}

/// One frame of `delta` nanoseconds for the periodic effects on all
/// combatants, each on its own. Returns the numbers to show.
pub fn overtime_system(combatants: &mut Vec<Combatant>, delta: u64) -> (marks: Vec<AppliedDamage>)
    ensures
        views(final(combatants)@) == views(old(combatants)@).map_values(
            |c: CombatantView| overtime_passed(c, delta),
        ),
        marks@ == overtime_marks(views(old(combatants)@), delta),
{
    let mut marks: Vec<AppliedDamage> = Vec::new();
    let mut i: usize = 0;
    let ghost before = views(combatants@);
    while i < combatants.len()
        invariant
            i <= combatants.len(),
            combatants.len() == old(combatants).len(),
            before == views(old(combatants)@),
            forall|k: int| 0 <= k < i ==> (#[trigger] combatants[k])@ == overtime_passed(before[k], delta),
            forall|k: int| i <= k < combatants.len() ==> combatants[k] == old(combatants)[k],
            marks@ == overtime_marks(before.take(i as int), delta),
        decreases combatants.len() - i,
    {
        proof {
            assert(before.take(i + 1).drop_last() == before.take(i as int));
            assert(before[i as int] == combatants[i as int]@);
        }
        let combatant = &mut combatants[i];
        let mut shown = tick_overtime(
            combatant.entity,
            &mut combatant.health,
            &mut combatant.overtime,
            delta,
        );
        marks.append(&mut shown);
        i += 1;
    }
    proof {
        assert(before.take(i as int) == before);
        assert(views(combatants@) =~= before.map_values(
            |c: CombatantView| overtime_passed(c, delta),
        ));
    }
    marks
}

/// The effect after the frames `deltas`, in their order.
pub open spec fn after_frames(effect: Overtime, deltas: Seq<u64>) -> Overtime
    decreases deltas.len(),
{
    if deltas.len() == 0 {
        effect
    } else {
        after_frames(effect, deltas.drop_last()).after(deltas.last())
    }
}

/// In how many of the frames `deltas` the effect changes health.
pub open spec fn times_fired(effect: Overtime, deltas: Seq<u64>) -> nat
    decreases deltas.len(),
{
    if deltas.len() == 0 {
        0
    } else {
        let before = times_fired(effect, deltas.drop_last());
        if after_frames(effect, deltas.drop_last()).fires(deltas.last()) {
            before + 1
        } else {
            before
        }
    }
}

/// The nanoseconds in the frames `deltas` together.
pub open spec fn total_time(deltas: Seq<u64>) -> nat
    decreases deltas.len(),
{
    if deltas.len() == 0 {
        0
    } else {
        total_time(deltas.drop_last()) + deltas.last() as nat
    }
}

/// Over any run of frames an effect that starts with `count` changes owed
/// makes as many changes as it no longer owes, so never more than `count`;
/// once it owes none it has made exactly `count`, and it leaves the list in
/// that very frame. Amount, kind and period never change.
pub proof fn lemma_overtime_fires_count_times(effect: Overtime, deltas: Seq<u64>)
    ensures
        times_fired(effect, deltas) + after_frames(effect, deltas).count == effect.count,
        after_frames(effect, deltas).count == 0 ==> times_fired(effect, deltas) == effect.count,
        after_frames(effect, deltas).amount == effect.amount,
        after_frames(effect, deltas).damage_healing_flag == effect.damage_healing_flag,
        after_frames(effect, deltas).period == effect.period,
        deltas.len() > 0 && after_frames(effect, deltas).count == 0 ==> effects_after(
            seq![after_frames(effect, deltas.drop_last())],
            deltas.last(),
        ).len() == 0,
    decreases deltas.len(),
{
    if deltas.len() > 0 {
        lemma_overtime_fires_count_times(effect, deltas.drop_last());
        let previous = seq![after_frames(effect, deltas.drop_last())];
        assert(previous.drop_last().len() == 0);
        assert(effects_after(previous.drop_last(), deltas.last()).len() == 0);
        assert(previous.last() == after_frames(effect, deltas.drop_last()));
    }
}

/// Health after the frames `deltas` under one effect alone.
pub open spec fn health_after_frames(effect: Overtime, health: Health, deltas: Seq<u64>) -> Health
    decreases deltas.len(),
{
    if deltas.len() == 0 {
        health
    } else {
        health_after(
            seq![after_frames(effect, deltas.drop_last())],
            health_after_frames(effect, health, deltas.drop_last()),
            deltas.last(),
        )
    }
}

/// Every change is one `amount`: after any run of frames a damaging effect
/// has taken `amount` as often as it fired, stopping at zero, and a healing
/// effect has given `amount` as often as it fired, stopping at the maximum.
pub proof fn lemma_overtime_changes_add_up(effect: Overtime, health: Health, deltas: Seq<u64>)
    requires
        health.wf(),
    ensures
        health_after_frames(effect, health, deltas).wf(),
        health_after_frames(effect, health, deltas).max == health.max,
        !effect.damage_healing_flag ==> health_after_frames(effect, health, deltas).current == if
            health.current > times_fired(effect, deltas) * effect.amount {
            health.current - times_fired(effect, deltas) * effect.amount
        } else {
            0
        },
        effect.damage_healing_flag ==> health_after_frames(effect, health, deltas).current == if
            health.current + times_fired(effect, deltas) * effect.amount < health.max {
            health.current + times_fired(effect, deltas) * effect.amount
        } else {
            health.max as int
        },
    decreases deltas.len(),
{
    if deltas.len() > 0 {
        let init = deltas.drop_last();
        lemma_overtime_changes_add_up(effect, health, init);
        lemma_overtime_fires_count_times(effect, init);
        let now = after_frames(effect, init);
        let one = seq![now];
        let before = health_after_frames(effect, health, init);
        assert(one.drop_last().len() == 0);
        assert(health_after(one.drop_last(), before, deltas.last()) == before);
        assert(one.last() == now);
        let n = times_fired(effect, init);
        let m = times_fired(effect, deltas);
        let amount = effect.amount as int;
        assert(n * amount >= 0) by (nonlinear_arith)
            requires
                n >= 0,
                amount >= 0,
        ;
        if now.fires(deltas.last()) {
            assert(m * amount == n * amount + amount) by (nonlinear_arith)
                requires
                    m == n + 1,
            ;
        } else {
            assert(m == n);
        }
    } else {
        assert(times_fired(effect, deltas) * effect.amount == 0) by (nonlinear_arith)
            requires
                times_fired(effect, deltas) == 0,
        ;
    }
}

/// Changes are a period apart: an effect with a positive period that
/// started with its clock at zero has, after any run of frames, fired at
/// most once for every full period of the time that passed. While every
/// frame is shorter than the period and changes are still owed, no period is
/// missed: the time that passed is the periods fired plus what the clock
/// shows.
pub proof fn lemma_overtime_changes_a_period_apart(effect: Overtime, deltas: Seq<u64>)
    requires
        effect.period > 0,
        effect.elapsed == 0,
    ensures
        times_fired(effect, deltas) * effect.period + after_frames(effect, deltas).elapsed
            <= total_time(deltas),
        after_frames(effect, deltas).elapsed < effect.period,
        after_frames(effect, deltas).count > 0 && (forall|i: int|
            0 <= i < deltas.len() ==> deltas[i] < effect.period) ==> times_fired(effect, deltas)
            * effect.period + after_frames(effect, deltas).elapsed == total_time(deltas),
    decreases deltas.len(),
{
    if deltas.len() > 0 {
        let init = deltas.drop_last();
        let d = deltas.last();
        lemma_overtime_changes_a_period_apart(effect, init);
        lemma_overtime_fires_count_times(effect, init);
        let before = after_frames(effect, init);
        let n = times_fired(effect, init);
        let p = effect.period;
        lemma_ticked_bounds(true, before.period, before.elapsed, d);
        let sum = before.elapsed + d;
        assert(before.period == p);
        if sum >= p {
            assert(sum % (p as int) + p <= sum) by (nonlinear_arith)
                requires
                    sum >= p,
                    p > 0,
            ;
            assert((n + 1) * p == n * p + p) by (nonlinear_arith);
            if d < p {
                assert(sum % (p as int) + p == sum) by (nonlinear_arith)
                    requires
                        p <= sum < 2 * p,
                        p > 0,
                ;
            }
        }
        if after_frames(effect, deltas).count > 0 && (forall|i: int|
            0 <= i < deltas.len() ==> deltas[i] < effect.period) {
            assert(before.count > 0);
            assert(forall|i: int| 0 <= i < init.len() ==> init[i] == deltas[i]);
            assert(d == deltas[deltas.len() - 1]);
        }
    }
}

} // verus!
