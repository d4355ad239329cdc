//! Lifetimes: whatever carries one leaves the world when it has run out.

use crate::timer::{lemma_ticked_bounds, ticked, timer_tick, NANOS_PER_SECOND};
use vstd::prelude::*;

verus! {

/// A one-shot clock: `elapsed` nanoseconds of `duration` have passed.
#[derive(Clone, Copy, Debug, PartialEq, Eq, Structural)]
pub struct Lifetime {
    pub duration: u64,
    pub elapsed: u64,
}

impl Lifetime {
    /// A lifetime of `seconds` seconds, none of which has passed.
    pub fn from_seconds(seconds: u32) -> (r: Lifetime)
        ensures
            r == (Lifetime { duration: (seconds * NANOS_PER_SECOND) as u64, elapsed: 0 }),
            r.remaining() == seconds * NANOS_PER_SECOND,
    {
        assert(seconds * NANOS_PER_SECOND <= u64::MAX) by (nonlinear_arith)
            requires
                seconds <= u32::MAX,
                NANOS_PER_SECOND == 1_000_000_000,
        ;
        Lifetime { duration: seconds as u64 * NANOS_PER_SECOND, elapsed: 0 }
    }

    /// The nanoseconds left.
    pub open spec fn remaining(self) -> int {
        if self.elapsed >= self.duration {
            0
        } else {
            self.duration - self.elapsed
        }
    }

    /// Whether a frame of `delta` nanoseconds uses up what is left.
    pub open spec fn expires(self, delta: u64) -> bool {
        self.elapsed + delta >= self.duration
    }

    /// The lifetime after a frame of `delta` nanoseconds.
    pub open spec fn after(self, delta: u64) -> Lifetime {
        Lifetime {
            duration: self.duration,
            elapsed: ticked(false, self.duration, self.elapsed, delta).0 as u64,
        }
    }

    /// Lets `delta` nanoseconds pass and says whether the lifetime has run
    /// out.
    pub fn tick(&mut self, delta: u64) -> (expired: bool)
        ensures
            *final(self) == old(self).after(delta),
            expired == old(self).expires(delta),
    {
        let (elapsed, finished) = timer_tick(false, self.duration, self.elapsed, delta);
        proof {
            lemma_ticked_bounds(false, self.duration, self.elapsed, delta);
        }
        self.elapsed = elapsed;
        finished
    }
}

/// A lifetime counts down: a frame takes its length from what is left,
/// stopping at zero, and the lifetime runs out exactly when nothing is left.
pub proof fn lemma_lifetime_counts_down(lifetime: Lifetime, delta: u64)
    ensures
        lifetime.after(delta).remaining() == if lifetime.remaining() > delta {
            lifetime.remaining() - delta
        } else {
            0
        },
        lifetime.expires(delta) <==> lifetime.after(delta).remaining() == 0,
{
}

/// The entries of `entities` whose lifetime outlasts a frame of `delta`
/// nanoseconds, each with the frame behind it.
pub open spec fn lasting(entities: Seq<(u64, Lifetime)>, delta: u64) -> Seq<(u64, Lifetime)>
    decreases entities.len(),
{
    if entities.len() == 0 {
        Seq::empty()
    } else {
        let before = lasting(entities.drop_last(), delta);
        if entities.last().1.expires(delta) {
            before
        } else {
            before.push((entities.last().0, entities.last().1.after(delta)))
        }
    }
}

/// The handles of the entries of `entities` whose lifetime runs out in a
/// frame of `delta` nanoseconds.
pub open spec fn expired(entities: Seq<(u64, Lifetime)>, delta: u64) -> Seq<u64>
    decreases entities.len(),
{
    if entities.len() == 0 {
        Seq::empty()
    } else {
        let before = expired(entities.drop_last(), delta);
        if entities.last().1.expires(delta) {
            before.push(entities.last().0)
        } else {
            before
        }
    }
}

/// One frame of `delta` nanoseconds for everything with a lifetime: keeps
/// what outlasts the frame and names what does not, for the caller to remove
/// from the world.
pub fn lifetime_despawn(entities: &mut Vec<(u64, Lifetime)>, delta: u64) -> (gone: Vec<u64>)
    ensures
        final(entities)@ == lasting(old(entities)@, delta),
        gone@ == expired(old(entities)@, delta),
{
    let mut gone: Vec<u64> = Vec::new();
    let mut kept: Vec<(u64, Lifetime)> = Vec::new();
    let mut i: usize = 0;
    while i < entities.len()
        invariant
            i <= entities.len(),
            entities@ == old(entities)@,
            kept@ == lasting(entities@.take(i as int), delta),
            gone@ == expired(entities@.take(i as int), delta),
        decreases entities.len() - i,
    {
        proof {
            assert(entities@.take(i + 1).drop_last() == entities@.take(i as int));
        }
        let (entity, mut lifetime) = entities[i];
        if lifetime.tick(delta) {
            gone.push(entity);
        } else {
            kept.push((entity, lifetime));
        }
        i += 1;
    }
    proof {
        assert(entities@.take(i as int) == entities@);
    }
    *entities = kept;
    gone
}

} // verus!
