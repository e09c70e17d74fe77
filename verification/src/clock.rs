//! The simulation clock: a repeating rate gate.
//!
//! The clock accumulates elapsed time and reports whether a diffusion step is
//! due. It never catches up: a check fires at most one step, takes exactly one
//! interval out of the accumulated time and leaves the rest queued for the
//! checks that follow.
use vstd::prelude::*;
use std::time::Duration;
use crate::time::duration_nanos;

verus! {

/// The default interval between two diffusion steps: 200 ms.
pub const DEFAULT_INTERVAL_NANOS: u128 = 200_000_000;

/// A fixed-interval, non-catch-up rate gate. Both fields are in nanoseconds.
#[derive(Clone, Copy, Debug, PartialEq, Eq, Structural)]
pub struct SimulationClock {
    /// The period of the clock.
    pub interval: u128,
    /// Time that has been fed to the clock and not yet consumed by a step.
    pub accumulated: u128,
}

/// The sum of a sequence of time steps.
pub open spec fn total(deltas: Seq<nat>) -> nat
    decreases deltas.len(),
{
    if deltas.len() == 0 {
        0
    } else {
        total(deltas.drop_last()) + deltas.last()
    }
}

impl SimulationClock {
    /// The clock after `delta` more nanoseconds: the accumulated time grows by
    /// `delta` and stops at the largest value that can be stored.
    pub open spec fn ticked(self, delta: nat) -> SimulationClock {
        SimulationClock {
            interval: self.interval,
            accumulated: if self.accumulated + delta > u128::MAX {
                u128::MAX
            } else {
                (self.accumulated + delta) as u128
            },
        }
    }

    /// Whether a step is due: at least one interval has accumulated.
    pub open spec fn is_due(self) -> bool {
        self.accumulated >= self.interval
    }

    /// The clock after one check: a due step takes exactly one interval out of
    /// the accumulated time, and a check that finds nothing due changes
    /// nothing.
    pub open spec fn consumed(self) -> SimulationClock {
        if self.is_due() {
            SimulationClock {
                interval: self.interval,
                accumulated: (self.accumulated - self.interval) as u128,
            }
        } else {
            self
        }
    }

    /// The clock after a run of frames, each of which feeds its time step and
    /// then checks once.
    pub open spec fn after_frames(self, deltas: Seq<nat>) -> SimulationClock
        decreases deltas.len(),
    {
        if deltas.len() == 0 {
            self
        } else {
            self.after_frames(deltas.drop_last()).ticked(deltas.last()).consumed()
        }
    }

    /// A clock with the given interval in nanoseconds and nothing accumulated.
    pub fn from_nanos(interval: u128) -> (clock: Self)
        ensures
            clock.interval == interval,
            clock.accumulated == 0,
    {
        SimulationClock { interval, accumulated: 0 }
    }

    /// A clock with the given interval and nothing accumulated.
    pub fn new(interval: Duration) -> (clock: Self)
        ensures
            clock.interval == duration_nanos(interval),
            clock.accumulated == 0,
    {
        Self::from_nanos(interval.as_nanos())
    }

    /// Adds `delta` nanoseconds to the accumulated time.
    pub fn tick_nanos(&mut self, delta: u128)
        ensures
            *final(self) == old(self).ticked(delta as nat),
    {
        self.accumulated = if delta > u128::MAX - self.accumulated {
            u128::MAX
        } else {
            self.accumulated + delta
        };
    }

    /// Adds `delta` to the accumulated time.
    pub fn tick(&mut self, delta: Duration)
        ensures
            *final(self) == old(self).ticked(duration_nanos(delta)),
    {
        self.tick_nanos(delta.as_nanos());
    }

    /// Reports whether a step is due, and if so takes one interval out of the
    /// accumulated time.
    pub fn consume_due(&mut self) -> (due: bool)
        ensures
            due == old(self).is_due(),
            *final(self) == old(self).consumed(),
    {
        if self.accumulated >= self.interval {
            self.accumulated = self.accumulated - self.interval;
            true
        } else {
            false
        }
    }

    /// One frame of `delta` nanoseconds: feeds the time step, then checks once.
    pub fn advance_nanos(&mut self, delta: u128) -> (due: bool)
        ensures
            due == old(self).ticked(delta as nat).is_due(),
            *final(self) == old(self).ticked(delta as nat).consumed(),
    {
        self.tick_nanos(delta);
        self.consume_due()
    }

    /// One frame: feeds the time step, then checks once.
    pub fn advance(&mut self, delta: Duration) -> (due: bool)
        ensures
            due == old(self).ticked(duration_nanos(delta)).is_due(),
            *final(self) == old(self).ticked(duration_nanos(delta)).consumed(),
    {
        self.advance_nanos(delta.as_nanos())
    }

    /// While the time fed to a clock stays below its interval, no check
    /// reports a step as due, and all of that time stays accumulated.
    pub proof fn lemma_gate_stays_closed(self, deltas: Seq<nat>)
        requires
            self.accumulated + total(deltas) < self.interval,
        ensures
            self.after_frames(deltas).interval == self.interval,
            self.after_frames(deltas).accumulated == self.accumulated + total(deltas),
            forall|i: int|
                0 <= i < deltas.len() ==> !(#[trigger] self.after_frames(deltas.take(i))).ticked(
                    deltas[i],
                ).is_due(),
        decreases deltas.len(),
    {
        if deltas.len() > 0 {
            let front = deltas.drop_last();
            self.lemma_gate_stays_closed(front);
            assert forall|i: int| 0 <= i < deltas.len() implies !(#[trigger] self.after_frames(
                deltas.take(i),
            )).ticked(deltas[i]).is_due() by {
                if i < front.len() {
                    assert(front.take(i) == deltas.take(i));
                }
            }
        }
    }

    /// The first time step that carries the accumulated time across the
    /// interval makes the check report a step as due. That check takes exactly
    /// one interval, so the remainder above the interval carries over; and
    /// where the remainder is itself below the interval, the next check
    /// reports nothing: the crossing fires exactly once.
    pub proof fn lemma_gate_opens_on_crossing(self, deltas: Seq<nat>, delta: nat)
        requires
            self.accumulated + total(deltas) < self.interval,
            self.accumulated + total(deltas) + delta >= self.interval,
            self.accumulated + total(deltas) + delta <= u128::MAX,
        ensures
            self.after_frames(deltas).ticked(delta).is_due(),
            self.after_frames(deltas.push(delta)).accumulated == self.accumulated + total(deltas)
                + delta - self.interval,
            self.accumulated + total(deltas) + delta < 2 * self.interval ==> !self.after_frames(
                deltas.push(delta),
            ).is_due(),
    {
        self.lemma_gate_stays_closed(deltas);
        assert(deltas.push(delta).drop_last() == deltas);
    }
}

/// The rate at which the simulation runs: the clock that gates the diffusion
/// step.
#[derive(Clone, Copy, Debug, PartialEq, Eq, Structural)]
pub struct SimulationRate {
    pub rate: SimulationClock,
}

impl Default for SimulationRate {
    /// A clock with the default interval of 200 ms and nothing accumulated.
    fn default() -> (r: Self)
        ensures
            r.rate.interval == DEFAULT_INTERVAL_NANOS,
            r.rate.accumulated == 0,
    {
        SimulationRate { rate: SimulationClock::from_nanos(DEFAULT_INTERVAL_NANOS) }
    }
}

} // verus!
