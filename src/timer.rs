use vstd::prelude::*;

verus! {

/// A repeating countdown in simulation milliseconds.
#[derive(Clone, Copy, Debug, PartialEq, Eq, Structural)]
pub struct Timer {
    pub duration_ms: u64,
    pub elapsed_ms: u64,
}

impl Timer {
    pub open spec fn wf(&self) -> bool {
        self.duration_ms > 0
    }

    /// A timer of the given period, with nothing elapsed.
    pub open spec fn new_spec(duration_ms: u64) -> Timer {
        Timer { duration_ms, elapsed_ms: 0 }
    }

    pub fn new(duration_ms: u64) -> (r: Timer)
        requires
            duration_ms > 0,
        ensures
            r.wf(),
            r == Timer::new_spec(duration_ms),
    {
        Timer { duration_ms, elapsed_ms: 0 }
    }

    /// Whether advancing by `delta_ms` completes a period.
    pub open spec fn finishes(self, delta_ms: u64) -> bool {
        self.elapsed_ms + delta_ms >= self.duration_ms
    }

    /// The timer advanced by `delta_ms`.
    pub open spec fn ticked(self, delta_ms: u64) -> Timer {
        Timer {
            duration_ms: self.duration_ms,
            elapsed_ms: if self.finishes(delta_ms) {
                ((self.elapsed_ms + delta_ms) % (self.duration_ms as int)) as u64
            } else {
                (self.elapsed_ms + delta_ms) as u64
            },
        }
    }

    /// Advances the timer; it reports whether it elapsed at least once and
    /// carries the remainder into the next period.
    pub fn tick(&mut self, delta_ms: u64) -> (finished: bool)
        requires
            old(self).wf(),
        ensures
            final(self).wf(),
            *final(self) == old(self).ticked(delta_ms),
            finished == old(self).finishes(delta_ms),
            final(self).duration_ms == old(self).duration_ms,
            finished ==> final(self).elapsed_ms == (old(self).elapsed_ms + delta_ms) % (old(
                self,
            ).duration_ms as int),
            !finished ==> final(self).elapsed_ms == old(self).elapsed_ms + delta_ms,
    {
        let total: u128 = self.elapsed_ms as u128 + delta_ms as u128;
        if total >= self.duration_ms as u128 {
            let rest: u128 = total % (self.duration_ms as u128);
            self.elapsed_ms = rest as u64;
            true
        } else {
            self.elapsed_ms = total as u64;
            false
        }
    }

    /// Changes the period; time already elapsed is kept.
    pub fn set_duration(&mut self, duration_ms: u64)
        requires
            duration_ms > 0,
        ensures
            final(self).wf(),
            final(self).duration_ms == duration_ms,
            final(self).elapsed_ms == old(self).elapsed_ms,
    {
        self.duration_ms = duration_ms;
    }
}

/// The period between two spawns of trash.
#[derive(Clone, Copy, Debug, PartialEq, Eq, Structural)]
pub struct TrashSpawnTimer(pub Timer);

/// The period between two shortenings of the spawn period.
#[derive(Clone, Copy, Debug, PartialEq, Eq, Structural)]
pub struct DifficultyTimer(pub Timer);

} // verus!
