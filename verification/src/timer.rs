//! Repeating countdowns that pace the spawns.

use bevy::time::{Timer, TimerMode};
use std::time::Duration;
use vstd::prelude::*;

verus! {

/// Interval between two stars, in microseconds.
pub const STAR_SPAWN_PERIOD_US: u32 = 1_000_000;

/// Interval between two enemies, in microseconds.
pub const ENEMY_SPAWN_PERIOD_US: u32 = 5_000_000;

/// What a countdown brings forth each time it expires.
#[derive(Clone, Copy, Debug, PartialEq, Eq, Structural)]
pub enum SpawnKind {
    Enemy,
    Collectible,
}

/// A repeating countdown. Times are whole microseconds.
#[derive(Clone, Copy, Debug, PartialEq, Eq, Structural)]
pub struct SpawnTimer {
    /// What the countdown paces.
    pub kind: SpawnKind,
    /// The interval between two expiries.
    pub period_us: u32,
    /// The time run since the last expiry.
    pub elapsed_us: u32,
    /// Whether the last tick reached the end of an interval.
    pub finished: bool,
}

/// The time that a countdown of period `period_us` shows once `delta_us` is
/// added to `elapsed_us`: what is left over after the whole intervals. A
/// countdown without a period always shows zero.
pub open spec fn elapsed_after(period_us: u32, elapsed_us: u32, delta_us: u32) -> int {
    if period_us == 0 {
        0
    } else {
        (elapsed_us + delta_us) % (period_us as int)
    }
}

/// Whether adding `delta_us` to `elapsed_us` reaches the end of an interval.
pub open spec fn expires(period_us: u32, elapsed_us: u32, delta_us: u32) -> bool {
    elapsed_us + delta_us >= period_us
}

/// Ticks a repeating `bevy::time::Timer` once. The timer is built with
/// `Timer::new` with the given period in `TimerMode::Repeating`, set to the
/// given elapsed time with `Timer::set_elapsed`, and advanced with
/// `Timer::tick`. Returned are `Timer::elapsed` in microseconds and
/// `Timer::finished`.
///
/// Claimed of `Timer::tick` on an unpaused repeating timer: it adds the
/// delta to the elapsed time, reports the timer as finished exactly when the
/// sum reaches the period, and then keeps the remainder of the sum by the
/// period as the new elapsed time (zero for a period of zero).
#[verifier::external_body]
fn tick_repeating(period_us: u32, elapsed_us: u32, delta_us: u32) -> (after: (u32, bool))
    ensures
        after.0 == elapsed_after(period_us, elapsed_us, delta_us),
        after.1 == expires(period_us, elapsed_us, delta_us),
{
    let mut timer = Timer::new(Duration::from_micros(period_us as u64), TimerMode::Repeating);
    timer.set_elapsed(Duration::from_micros(elapsed_us as u64));
    timer.tick(Duration::from_micros(delta_us as u64));
    (timer.elapsed().as_micros() as u32, timer.finished())
}

impl SpawnTimer {
    /// The elapsed time lies within the period.
    pub open spec fn wf(self) -> bool {
        if self.period_us == 0 {
            self.elapsed_us == 0
        } else {
            self.elapsed_us < self.period_us
        }
    }

    /// The countdown after a tick of `delta_us`.
    pub open spec fn ticked(self, delta_us: u32) -> SpawnTimer {
        SpawnTimer {
            kind: self.kind,
            period_us: self.period_us,
            elapsed_us: elapsed_after(self.period_us, self.elapsed_us, delta_us) as u32,
            finished: expires(self.period_us, self.elapsed_us, delta_us),
        }
    }

    /// A fresh countdown of the given kind and period.
    pub fn new(kind: SpawnKind, period_us: u32) -> (timer: SpawnTimer)
        ensures
            timer == (SpawnTimer { kind, period_us, elapsed_us: 0, finished: false }),
            timer.wf(),
    {
        SpawnTimer { kind, period_us, elapsed_us: 0, finished: false }
    }

    /// A fresh countdown for stars, one every `STAR_SPAWN_PERIOD_US`.
    pub fn stars() -> (timer: SpawnTimer)
        ensures
            timer == (SpawnTimer {
                kind: SpawnKind::Collectible,
                period_us: STAR_SPAWN_PERIOD_US,
                elapsed_us: 0,
                finished: false,
            }),
    {
        SpawnTimer::new(SpawnKind::Collectible, STAR_SPAWN_PERIOD_US)
    }

    /// A fresh countdown for enemies, one every `ENEMY_SPAWN_PERIOD_US`.
    pub fn enemies() -> (timer: SpawnTimer)
        ensures
            timer == (SpawnTimer {
                kind: SpawnKind::Enemy,
                period_us: ENEMY_SPAWN_PERIOD_US,
                elapsed_us: 0,
                finished: false,
            }),
    {
        SpawnTimer::new(SpawnKind::Enemy, ENEMY_SPAWN_PERIOD_US)
    }

    /// Advances the countdown by `delta_us`. The countdown never stops: when
    /// an interval ends it starts over and carries the surplus into the next
    /// interval. However many intervals the tick spans, it reports one expiry.
    pub fn tick(&mut self, delta_us: u32)
        ensures
            *final(self) == old(self).ticked(delta_us),
            final(self).kind == old(self).kind,
            final(self).period_us == old(self).period_us,
            final(self).elapsed_us == elapsed_after(
                old(self).period_us,
                old(self).elapsed_us,
                delta_us,
            ),
            final(self).finished == expires(old(self).period_us, old(self).elapsed_us, delta_us),
            final(self).wf(),
    {
        let (elapsed_us, finished) = tick_repeating(self.period_us, self.elapsed_us, delta_us);
        self.elapsed_us = elapsed_us;
        self.finished = finished;
    }

    /// Whether the last tick reached the end of an interval.
    pub fn finished(&self) -> (done: bool)
        ensures
            done == self.finished,
    {
        self.finished
    }
}

/// Ticks that together stay short of the period never expire, and the
/// countdown adds them up.
pub proof fn lemma_short_tick_accumulates(timer: SpawnTimer, delta_us: u32)
    requires
        timer.elapsed_us + delta_us < timer.period_us,
    ensures
        !expires(timer.period_us, timer.elapsed_us, delta_us),
        elapsed_after(timer.period_us, timer.elapsed_us, delta_us) == timer.elapsed_us + delta_us,
{
    vstd::arithmetic::div_mod::lemma_small_mod(
        (timer.elapsed_us + delta_us) as nat,
        timer.period_us as nat,
    );
}

/// A tick that crosses the end of one interval, and not of the next, expires
/// and carries the surplus over.
pub proof fn lemma_crossing_tick_carries_surplus(timer: SpawnTimer, delta_us: u32)
    requires
        timer.period_us <= timer.elapsed_us + delta_us < 2 * timer.period_us,
    ensures
        expires(timer.period_us, timer.elapsed_us, delta_us),
        elapsed_after(timer.period_us, timer.elapsed_us, delta_us) == timer.elapsed_us + delta_us
            - timer.period_us,
{
    let sum = timer.elapsed_us + delta_us;
    let period = timer.period_us as int;
    vstd::arithmetic::div_mod::lemma_fundamental_div_mod_converse(sum, period, 1, sum - period);
}

} // verus!
