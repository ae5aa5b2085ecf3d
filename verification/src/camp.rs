//! The countdown a player waits through when camping out.
use vstd::prelude::*;

use crate::combat::TICK_RATE_HZ;

verus! {

/// Seconds a camp takes.
pub const CAMP_SECONDS: u32 = 30;

/// The remaining ticks after one tick: one fewer, stopping at zero.
pub open spec fn tick_step(remaining: u32) -> u32 {
    if remaining > 0 {
        (remaining - 1) as u32
    } else {
        0
    }
}

/// The remaining ticks after `n` ticks.
pub open spec fn ticks_after(remaining: u32, n: nat) -> u32
    decreases n,
{
    if n == 0 {
        remaining
    } else {
        tick_step(ticks_after(remaining, (n - 1) as nat))
    }
}

/// Remaining ticks of a camp.
#[derive(Debug, Clone, Copy, PartialEq, Eq)]
pub struct CampTimer {
    pub ticks_remaining: u32,
}

impl CampTimer {
    /// A camp of [`CAMP_SECONDS`] seconds.
    pub fn new() -> (t: Self)
        ensures
            t.ticks_remaining == CAMP_SECONDS * TICK_RATE_HZ,
    {
        CampTimer { ticks_remaining: CAMP_SECONDS * TICK_RATE_HZ }
    }

    /// Counts down one tick; true once the camp is over.
    pub fn tick(&mut self) -> (done: bool)
        ensures
            final(self).ticks_remaining == tick_step(old(self).ticks_remaining),
            done == (final(self).ticks_remaining == 0),
    {
        if self.ticks_remaining > 0 {
            self.ticks_remaining = self.ticks_remaining - 1;
        }
        self.ticks_remaining == 0
    }

    /// Whole seconds left.
    pub fn seconds_remaining(&self) -> (s: u32)
        ensures
            s == self.ticks_remaining / TICK_RATE_HZ,
    {
        self.ticks_remaining / TICK_RATE_HZ
    }
}

/// Law: a camp with `remaining` ticks left has `remaining - n` left after
/// `n` ticks, and is over (and stays over) from its `remaining`-th tick on.
pub proof fn law_camp_countdown(remaining: u32, n: nat)
    ensures
        ticks_after(remaining, n) == if n >= remaining {
            0
        } else {
            remaining - n
        },
    decreases n,
{
    if n > 0 {
        law_camp_countdown(remaining, (n - 1) as nat);
    }
}

} // verus!
