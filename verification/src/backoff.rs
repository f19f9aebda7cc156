//! Adaptive sleep policy for polling loops: the interval grows by a fixed
//! step on every idle iteration, up to a ceiling, and falls back to the floor
//! as soon as an iteration did any work.

use vstd::prelude::*;

verus! {

/// Milliseconds by which one idle wait lengthens the interval.
pub const BACKOFF_STEP_MS: u64 = 10;

/// The schedule as plain numbers, in milliseconds.
pub struct BackoffState {
    pub current: nat,
    pub min: nat,
    pub max: nat,
}

impl BackoffState {
    /// The interval lies between the floor and the ceiling.
    pub open spec fn wf(self) -> bool {
        self.min <= self.current <= self.max
    }

    /// The schedule right after construction.
    pub open spec fn fresh(min: nat, max: nat) -> BackoffState {
        BackoffState { current: min, min, max }
    }

    /// The schedule after an iteration that did some work.
    pub open spec fn after_reset(self) -> BackoffState {
        BackoffState { current: self.min, min: self.min, max: self.max }
    }

    /// The schedule after one idle iteration.
    pub open spec fn after_wait(self) -> BackoffState {
        BackoffState {
            current: if self.current < self.max {
                if self.current + BACKOFF_STEP_MS <= self.max {
                    self.current + BACKOFF_STEP_MS as nat
                } else {
                    self.max
                }
            } else {
                self.current
            },
            min: self.min,
            max: self.max,
        }
    }

    /// The schedule after `n` idle iterations in a row.
    pub open spec fn after_idle(self, n: nat) -> BackoffState
        decreases n,
    {
        if n == 0 {
            self
        } else {
            self.after_idle((n - 1) as nat).after_wait()
        }
    }

    /// The interval that `n` idle iterations lead to, starting from the floor.
    pub open spec fn idle_interval(self, n: nat) -> nat {
        if self.min + n * BACKOFF_STEP_MS <= self.max {
            self.min + n * BACKOFF_STEP_MS as nat
        } else {
            self.max
        }
    }
}

/// An adaptive sleep interval between a floor and a ceiling.
pub struct Backoff {
    current_ms: u64,
    min_ms: u64,
    max_ms: u64,
}

impl View for Backoff {
    type V = BackoffState;

    closed spec fn view(&self) -> BackoffState {
        BackoffState {
            current: self.current_ms as nat,
            min: self.min_ms as nat,
            max: self.max_ms as nat,
        }
    }
}

impl Backoff {
    /// Starts at the floor `min_ms`.
    pub fn new(min_ms: u64, max_ms: u64) -> (b: Backoff)
        ensures
            b@ == BackoffState::fresh(min_ms as nat, max_ms as nat),
            min_ms <= max_ms ==> b@.wf(),
    {
        Backoff { current_ms: min_ms, min_ms, max_ms }
    }

    /// Falls back to the floor.
    pub fn reset(&mut self)
        ensures
            final(self)@ == old(self)@.after_reset(),
    {
        self.current_ms = self.min_ms;
    }

    /// Hands out the interval to sleep now and lengthens the next one by one
    /// step, never beyond the ceiling.
    pub fn wait(&mut self) -> (interval_ms: u64)
        ensures
            interval_ms == old(self)@.current,
            final(self)@ == old(self)@.after_wait(),
    {
        let interval_ms: u64 = self.current_ms;
        if self.current_ms < self.max_ms {
            if self.max_ms - self.current_ms <= BACKOFF_STEP_MS {
                self.current_ms = self.max_ms;
            } else {
                self.current_ms = self.current_ms + BACKOFF_STEP_MS;
            }
        }
        interval_ms
    }

    /// The interval that the next `wait` hands out.
    pub fn current_ms(&self) -> (ms: u64)
        ensures
            ms == self@.current,
    {
        self.current_ms
    }

    /// The floor.
    pub fn min_ms(&self) -> (ms: u64)
        ensures
            ms == self@.min,
    {
        self.min_ms
    }

    /// The ceiling.
    pub fn max_ms(&self) -> (ms: u64)
        ensures
            ms == self@.max,
    {
        self.max_ms
    }
}

/// A well-formed schedule stays well-formed under waits and resets.
pub proof fn lemma_backoff_stays_within_bounds(b: BackoffState)
    requires
        b.wf(),
    ensures
        b.after_wait().wf(),
        b.after_reset().wf(),
        b.after_wait().current >= b.current,
{
}

/// After `n` idle iterations in a row that follow an iteration with work, the
/// interval is the floor plus `n` steps, capped at the ceiling; one more
/// iteration with work brings it back to the floor.
pub proof fn lemma_backoff_idle_interval(b: BackoffState, n: nat)
    requires
        b.min <= b.max,
    ensures
        b.after_reset().after_idle(n).current == b.idle_interval(n),
        b.after_reset().after_idle(n).min == b.min,
        b.after_reset().after_idle(n).max == b.max,
        b.after_reset().after_idle(n).after_reset().current == b.min,
    decreases n,
{
    if n > 0 {
        lemma_backoff_idle_interval(b, (n - 1) as nat);
    }
}

} // verus!
