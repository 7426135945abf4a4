//! The repeating countdown that paces obstacle spawning.

use vstd::prelude::*;
use bevy::time::Timer;
use bevy::time::TimerMode;
use std::time::Duration;

verus! {

/// A repeating countdown in whole milliseconds.
///
/// A period of zero fires on every tick. Otherwise the timer fires on the tick
/// that carries the time elapsed to or past the period, once however many
/// periods that tick covers, and keeps only the remainder.
#[derive(Clone, Copy, Debug, PartialEq, Eq, Structural)]
pub struct SpawnTimer {
    period_ms: u32,
    elapsed_ms: u32,
}

/// Advances a repeating `bevy::time::Timer` of the given period, set to the
/// given elapsed time, by `delta_ms`, and hands back the time then elapsed and
/// the answer of `just_finished`.
///
/// The timer is made by `Timer::new` in `TimerMode::Repeating`, positioned by
/// `Timer::set_elapsed` and advanced by `Timer::tick`. For a running repeating
/// timer, `tick` adds the delta to the elapsed time and, when the sum reaches
/// the period, counts the periods covered and keeps the remainder;
/// `just_finished` says whether that count is above zero. With the elapsed
/// time below the period and every value a whole number of milliseconds under
/// 2^32, the count stays below 2^32, so it is above zero exactly when the sum
/// reached the period.
#[verifier::external_body]
fn timer_tick(period_ms: u32, elapsed_ms: u32, delta_ms: u32) -> (r: (u32, bool))
    requires
        0 < period_ms,
        elapsed_ms < period_ms,
    ensures
        r.0 as int == (elapsed_ms + delta_ms) % (period_ms as int),
        r.1 == (elapsed_ms + delta_ms >= period_ms),
{
    let mut timer = Timer::new(Duration::from_millis(period_ms as u64), TimerMode::Repeating);
    timer.set_elapsed(Duration::from_millis(elapsed_ms as u64));
    timer.tick(Duration::from_millis(delta_ms as u64));
    (timer.elapsed().as_millis() as u32, timer.just_finished())
}

impl SpawnTimer {
    /// The period in milliseconds.
    pub closed spec fn period(self) -> int {
        self.period_ms as int
    }

    /// The time elapsed in the current period, in milliseconds.
    pub closed spec fn elapsed(self) -> int {
        self.elapsed_ms as int
    }

    /// The elapsed time is below the period, or both are zero.
    pub closed spec fn wf(self) -> bool {
        if self.period_ms == 0 {
            self.elapsed_ms == 0
        } else {
            self.elapsed_ms < self.period_ms
        }
    }

    /// Whether a tick of `delta` milliseconds fires the timer.
    pub open spec fn fires(self, delta: int) -> bool {
        self.period() == 0 || self.elapsed() + delta >= self.period()
    }

    /// The timer after a tick of `delta` milliseconds.
    pub closed spec fn after(self, delta: int) -> SpawnTimer {
        SpawnTimer {
            period_ms: self.period_ms,
            elapsed_ms: if self.period_ms == 0 {
                0
            } else {
                ((self.elapsed_ms + delta) % (self.period_ms as int)) as u32
            },
        }
    }

    /// A timer of the given period with no time elapsed.
    pub fn new(period_ms: u32) -> (t: SpawnTimer)
        ensures
            t.wf(),
            t.period() == period_ms,
            t.elapsed() == 0,
    {
        SpawnTimer { period_ms, elapsed_ms: 0 }
    }

    /// The period in milliseconds.
    pub fn period_ms(&self) -> (p: u32)
        ensures
            p == self.period(),
    {
        self.period_ms
    }

    /// The time elapsed in the current period, in milliseconds.
    pub fn elapsed_ms(&self) -> (e: u32)
        ensures
            e == self.elapsed(),
    {
        self.elapsed_ms
    }

    /// Advances the timer by `delta_ms` and says whether it fired.
    pub fn tick(&mut self, delta_ms: u32) -> (fired: bool)
        requires
            old(self).wf(),
        ensures
            final(self).wf(),
            *final(self) == old(self).after(delta_ms as int),
            fired == old(self).fires(delta_ms as int),
            final(self).period() == old(self).period(),
            old(self).period() == 0 ==> final(self).elapsed() == 0,
            old(self).period() > 0 ==> final(self).elapsed() == (old(self).elapsed() + delta_ms)
                % old(self).period(),
    {
        if self.period_ms == 0 {
            return true;
        }
        let (elapsed, fired) = timer_tick(self.period_ms, self.elapsed_ms, delta_ms);
        self.elapsed_ms = elapsed;
        fired
    }
}

/// What a tick leaves behind: the period is kept, and the elapsed time is the
/// remainder of the sum by the period.
pub proof fn lemma_timer_after(t: SpawnTimer, delta: int)
    requires
        t.wf(),
        0 <= delta <= u32::MAX,
    ensures
        t.after(delta).wf(),
        t.after(delta).period() == t.period(),
        t.period() == 0 ==> t.after(delta).elapsed() == 0,
        t.period() > 0 ==> t.after(delta).elapsed() == (t.elapsed() + delta) % t.period(),
{
}

/// A tick never leaves a firing behind: whatever time one tick covered, also
/// many periods at once, a following tick of no time does not fire.
pub proof fn lemma_timer_no_catch_up(t: SpawnTimer, delta: int)
    requires
        t.wf(),
        t.period() > 0,
        0 <= delta <= u32::MAX,
    ensures
        !t.after(delta).fires(0),
{
}

/// A tick of no time leaves a timer with a period as it was, and does not
/// fire it.
pub proof fn lemma_timer_idle(t: SpawnTimer)
    requires
        t.wf(),
        t.period() > 0,
    ensures
        t.after(0) == t,
        !t.fires(0),
{
    assert(t.elapsed() % t.period() == t.elapsed()) by {
        vstd::arithmetic::div_mod::lemma_small_mod(t.elapsed() as nat, t.period() as nat);
    }
}

} // verus!
