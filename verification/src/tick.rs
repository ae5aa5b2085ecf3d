//! The zone's tick clock: tick counting, slow-tick detection, the pacing of
//! the game loop, and which ticks carry periodic log lines. Clock readings
//! are nanoseconds of the server's monotonic clock.
use vstd::prelude::*;

use crate::combat::TICK_RATE_HZ;

verus! {

/// Length of a tick: 1000 / 31 milliseconds, in nanoseconds.
pub const TICK_DURATION_NS: u64 = 32_000_000;

/// The tick counter and clock of the game loop.
pub struct TickState {
    pub tick: u64,
    pub delta_ns: u64,
    pub elapsed_ns: u64,
    pub started_at_ns: u64,
    pub last_tick_ns: u64,
    pub slow_tick_count: u64,
}

/// Nanoseconds from `a` to `b`, zero when `b` is earlier.
pub open spec fn span(a: u64, b: u64) -> u64 {
    if b >= a {
        (b - a) as u64
    } else {
        0
    }
}

fn span_exec(a: u64, b: u64) -> (d: u64)
    ensures
        d == span(a, b),
{
    if b >= a {
        b - a
    } else {
        0
    }
}

impl TickState {
    /// Tick 0, started at `now_ns`, with a nominal first delta.
    pub fn new(now_ns: u64) -> (t: Self)
        ensures
            t.tick == 0,
            t.delta_ns == TICK_DURATION_NS,
            t.elapsed_ns == 0,
            t.started_at_ns == now_ns,
            t.last_tick_ns == now_ns,
            t.slow_tick_count == 0,
    {
        TickState {
            tick: 0,
            delta_ns: TICK_DURATION_NS,
            elapsed_ns: 0,
            started_at_ns: now_ns,
            last_tick_ns: now_ns,
            slow_tick_count: 0,
        }
    }

    /// Starts the next tick at `now_ns`: counts it, measures the time since
    /// the last one and since the start, and counts it as slow when it came
    /// more than two tick lengths late. Returns whether a slow tick should
    /// be reported: the first five, then every hundredth.
    pub fn advance(&mut self, now_ns: u64) -> (report_slow: bool)
        requires
            old(self).tick < u64::MAX,
            span(old(self).last_tick_ns, now_ns) > 2 * TICK_DURATION_NS ==> old(self).slow_tick_count < u64::MAX,
        ensures
            final(self).tick == old(self).tick + 1,
            final(self).delta_ns == span(old(self).last_tick_ns, now_ns),
            final(self).elapsed_ns == span(old(self).started_at_ns, now_ns),
            final(self).last_tick_ns == now_ns,
            final(self).started_at_ns == old(self).started_at_ns,
            final(self).slow_tick_count == if final(self).delta_ns > 2 * TICK_DURATION_NS {
                old(self).slow_tick_count + 1
            } else {
                old(self).slow_tick_count as int
            },
            report_slow == (final(self).delta_ns > 2 * TICK_DURATION_NS && (final(self).slow_tick_count
                <= 5 || final(self).slow_tick_count % 100 == 0)),
    {
        self.delta_ns = span_exec(self.last_tick_ns, now_ns);
        self.elapsed_ns = span_exec(self.started_at_ns, now_ns);
        self.last_tick_ns = now_ns;
        self.tick = self.tick + 1;
        if self.delta_ns > 2 * TICK_DURATION_NS {
            self.slow_tick_count = self.slow_tick_count + 1;
            self.slow_tick_count <= 5 || self.slow_tick_count % 100 == 0
        } else {
            false
        }
    }

    /// Nanoseconds since the loop started, as of the last tick.
    pub fn uptime_ns(&self) -> (ns: u64)
        ensures
            ns == self.elapsed_ns,
    {
        self.elapsed_ns
    }
}

/// Whether a tick is one on which the zone clock is logged: every twenty
/// seconds' worth of ticks, after the first.
pub fn logs_zone_time(tick: u64) -> (b: bool)
    ensures
        b == ((tick as int) % ((TICK_RATE_HZ as int) * 20) == 0 && tick > 0),
{
    let period: u64 = (TICK_RATE_HZ as u64) * 20;
    tick % period == 0 && tick > 0
}

/// Whether a tick is one on which the heartbeat is logged: every thirty
/// seconds' worth of ticks, after the first.
pub fn logs_heartbeat(tick: u64) -> (b: bool)
    ensures
        b == ((tick as int) % ((TICK_RATE_HZ as int) * 30) == 0 && tick > 0),
{
    let period: u64 = (TICK_RATE_HZ as u64) * 30;
    tick % period == 0 && tick > 0
}

/// How long the loop sleeps after a tick that took `tick_elapsed_ns`: the
/// rest of the tick, or not at all when the tick overran.
pub fn tick_sleep_ns(tick_elapsed_ns: u64) -> (ns: u64)
    ensures
        ns == if tick_elapsed_ns < TICK_DURATION_NS {
            (TICK_DURATION_NS - tick_elapsed_ns) as u64
        } else {
            0
        },
{
    if tick_elapsed_ns < TICK_DURATION_NS {
        TICK_DURATION_NS - tick_elapsed_ns
    } else {
        0
    }
}

/// Whether the loop, run until `deadline_ns` if it has one, stops at `now_ns`.
pub fn run_loop_should_stop(now_ns: u64, deadline_ns: Option<u64>) -> (stop: bool)
    ensures
        stop == match deadline_ns {
            Some(d) => now_ns >= d,
            None => false,
        },
{
    match deadline_ns {
        Some(d) => now_ns >= d,
        None => false,
    }
}

} // verus!
