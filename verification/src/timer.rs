//! Countdown and elapsed-time primitives used throughout the gameplay logic.
//!
//! Durations are whole milliseconds. A `Timer` counts a remaining duration
//! down to zero and floors there; a `Stopwatch` accumulates elapsed time.

use vstd::prelude::*;

verus! {

/// A countdown timer: holds a remaining duration in milliseconds.
///
/// `update` subtracts the frame's delta-time, floored at zero, so the
/// remaining duration is never negative; `is_finished` is true exactly when
/// it has reached zero.
#[derive(Clone, Copy, PartialEq, Eq, Structural, Debug)]
pub struct Timer {
    pub remaining_ms: u32,
}

impl Timer {
    /// The remaining duration, in milliseconds.
    pub open spec fn spec_duration(self) -> u32 {
        self.remaining_ms
    }

    pub fn new(duration_ms: u32) -> (r: Timer)
        ensures
            r.spec_duration() == duration_ms,
    {
        Timer { remaining_ms: duration_ms }
    }

    /// A timer that is already finished.
    pub fn new_finished() -> (r: Timer)
        ensures
            r.spec_duration() == 0,
            r.spec_is_finished(),
    {
        Timer { remaining_ms: 0 }
    }

    pub fn reset(&mut self, duration_ms: u32)
        ensures
            final(self).spec_duration() == duration_ms,
    {
        self.remaining_ms = duration_ms;
    }

    /// The timer as `update(delta_ms)` leaves it: the remaining duration
    /// less the delta, floored at zero.
    pub open spec fn spec_updated(self, delta_ms: u32) -> Timer {
        Timer {
            remaining_ms: if self.remaining_ms >= delta_ms {
                (self.remaining_ms - delta_ms) as u32
            } else {
                0u32
            },
        }
    }

    /// Advance by `delta_ms`; the remaining duration clamps at zero.
    pub fn update(&mut self, delta_ms: u32)
        ensures
            *final(self) == old(self).spec_updated(delta_ms),
            final(self).spec_duration() == if old(self).spec_duration() >= delta_ms {
                old(self).spec_duration() - delta_ms
            } else {
                0int
            },
    {
        if self.remaining_ms >= delta_ms {
            self.remaining_ms = self.remaining_ms - delta_ms;
        } else {
            self.remaining_ms = 0;
        }
    }

    pub open spec fn spec_is_finished(self) -> bool {
        self.remaining_ms == 0
    }

    pub fn is_finished(&self) -> (r: bool)
        ensures
            r == self.spec_is_finished(),
    {
        self.remaining_ms == 0
    }

    pub fn get_duration(&self) -> (r: u32)
        ensures
            r == self.spec_duration(),
    {
        self.remaining_ms
    }
}

/// The timer after a whole run of frame deltas, applied in order.
pub open spec fn spec_after_updates(t: Timer, deltas: Seq<u32>) -> Timer
    decreases deltas.len(),
{
    if deltas.len() == 0 {
        t
    } else {
        spec_after_updates(t.spec_updated(deltas[0]), deltas.drop_first())
    }
}

/// The total elapsed time of a run of frame deltas.
pub open spec fn spec_sum(deltas: Seq<u32>) -> int
    decreases deltas.len(),
{
    if deltas.len() == 0 {
        0
    } else {
        deltas[0] + spec_sum(deltas.drop_first())
    }
}

/// A run of deltas never sums to less than nothing.
pub proof fn lemma_sum_nonneg(deltas: Seq<u32>)
    ensures
        spec_sum(deltas) >= 0,
    decreases deltas.len(),
{
    if deltas.len() > 0 {
        lemma_sum_nonneg(deltas.drop_first());
    }
}

/// A countdown given at least its remaining duration of elapsed time has
/// run out: the law behind a target of lifetime `L` expiring once the
/// elapsed time reaches `L`.
pub proof fn lemma_timer_expires(t: Timer, deltas: Seq<u32>)
    requires
        spec_sum(deltas) >= t.remaining_ms,
    ensures
        spec_after_updates(t, deltas).remaining_ms == 0,
    decreases deltas.len(),
{
    if deltas.len() == 0 {
    } else {
        let t2 = t.spec_updated(deltas[0]);
        lemma_sum_nonneg(deltas.drop_first());
        lemma_timer_expires(t2, deltas.drop_first());
    }
}

/// A finished countdown stays finished, however a run goes on.
pub proof fn lemma_timer_stays_finished(t: Timer, deltas: Seq<u32>)
    requires
        t.remaining_ms == 0,
    ensures
        spec_after_updates(t, deltas).remaining_ms == 0,
    decreases deltas.len(),
{
    if deltas.len() > 0 {
        lemma_timer_stays_finished(t.spec_updated(deltas[0]), deltas.drop_first());
    }
}

/// An elapsed-time counter, in milliseconds.
#[derive(Clone, Copy, PartialEq, Eq, Structural, Debug)]
pub struct Stopwatch {
    pub elapsed_ms: u64,
}

impl Stopwatch {
    /// The elapsed duration, in milliseconds.
    pub open spec fn spec_duration(self) -> u64 {
        self.elapsed_ms
    }

    pub fn new() -> (r: Stopwatch)
        ensures
            r.spec_duration() == 0,
    {
        Stopwatch { elapsed_ms: 0 }
    }

    /// Advance by `delta_ms`, saturating at the largest representable value.
    pub fn update(&mut self, delta_ms: u32)
        ensures
            final(self).spec_duration() == if old(self).spec_duration() + delta_ms <= u64::MAX {
                old(self).spec_duration() + delta_ms
            } else {
                u64::MAX as int
            },
    {
        if self.elapsed_ms <= u64::MAX - delta_ms as u64 {
            self.elapsed_ms = self.elapsed_ms + delta_ms as u64;
        } else {
            self.elapsed_ms = u64::MAX;
        }
    }

    pub fn reset(&mut self)
        ensures
            final(self).spec_duration() == 0,
    {
        self.elapsed_ms = 0;
    }

    pub fn get_duration(&self) -> (r: u64)
        ensures
            r == self.spec_duration(),
    {
        self.elapsed_ms
    }
}

} // verus!
