//! Zone clock and the queue of spawn points waiting to respawn.
use vstd::prelude::*;

use crate::combat::TICK_RATE_HZ;

verus! {

/// The in-game clock of a zone. Three game minutes pass per real second.
#[derive(Debug, Clone, Copy, PartialEq, Eq)]
pub struct ZoneTime {
    pub hour: u8,
    pub minute: u8,
    pub ticks_per_game_minute: u64,
    pub tick_accumulator: u64,
}

/// Game ticks per game minute.
pub open spec fn game_minute_ticks() -> u64 {
    if TICK_RATE_HZ / 3 >= 1 {
        (TICK_RATE_HZ / 3) as u64
    } else {
        1
    }
}

/// The clock after one game tick.
pub open spec fn zone_time_after_tick(t: ZoneTime) -> ZoneTime {
    let acc = t.tick_accumulator + 1;
    if acc >= t.ticks_per_game_minute {
        let minute = t.minute + 1;
        if minute >= 60 {
            let hour = t.hour + 1;
            ZoneTime {
                hour: if hour >= 24 {
                    0
                } else {
                    hour as u8
                },
                minute: 0,
                tick_accumulator: 0,
                ..t
            }
        } else {
            ZoneTime { minute: minute as u8, tick_accumulator: 0, ..t }
        }
    } else {
        ZoneTime { tick_accumulator: acc as u64, ..t }
    }
}

/// Minutes since midnight.
pub open spec fn minute_of_day(t: ZoneTime) -> int {
    t.hour * 60 + t.minute
}

impl ZoneTime {
    /// Eight in the morning, at the start of a game minute.
    pub fn new() -> (t: Self)
        ensures
            t == (ZoneTime {
                hour: 8,
                minute: 0,
                ticks_per_game_minute: game_minute_ticks(),
                tick_accumulator: 0,
            }),
    {
        let per_minute: u32 = TICK_RATE_HZ / 3;
        let ticks_per_game_minute: u64 = if per_minute >= 1 {
            per_minute as u64
        } else {
            1
        };
        ZoneTime { hour: 8, minute: 0, ticks_per_game_minute, tick_accumulator: 0 }
    }

    /// Advances the clock by one game tick; a game minute passes every
    /// `ticks_per_game_minute` ticks, wrapping at midnight.
    pub fn advance(&mut self)
        requires
            old(self).tick_accumulator < u64::MAX,
            old(self).tick_accumulator + 1 >= old(self).ticks_per_game_minute ==> old(self).minute < u8::MAX,
            old(self).tick_accumulator + 1 >= old(self).ticks_per_game_minute && old(self).minute + 1 >= 60
                ==> old(self).hour < u8::MAX,
        ensures
            *final(self) == zone_time_after_tick(*old(self)),
    {
        self.tick_accumulator = self.tick_accumulator + 1;
        if self.tick_accumulator >= self.ticks_per_game_minute {
            self.tick_accumulator = 0;
            self.minute = self.minute + 1;
            if self.minute >= 60 {
                self.minute = 0;
                self.hour = self.hour + 1;
                if self.hour >= 24 {
                    self.hour = 0;
                }
            }
        }
    }

    /// Whether it is day (6:00 up to 20:00).
    pub fn is_daytime(&self) -> (b: bool)
        ensures
            b == (6 <= self.hour < 20),
    {
        self.hour >= 6 && self.hour < 20
    }
}

/// Law: a valid clock stays valid, and each tick either leaves the time of
/// day alone or moves it on by exactly one minute, modulo a day.
pub proof fn law_clock_advances_by_minutes(t: ZoneTime)
    requires
        t.hour < 24,
        t.minute < 60,
        t.tick_accumulator < t.ticks_per_game_minute,
    ensures
        zone_time_after_tick(t).hour < 24,
        zone_time_after_tick(t).minute < 60,
        zone_time_after_tick(t).tick_accumulator < zone_time_after_tick(t).ticks_per_game_minute,
        minute_of_day(zone_time_after_tick(t)) == minute_of_day(t) || minute_of_day(
            zone_time_after_tick(t),
        ) == (minute_of_day(t) + 1) % 1440,
{
}

/// The clock after `n` game ticks.
pub open spec fn zone_time_after(t: ZoneTime, n: nat) -> ZoneTime
    decreases n,
{
    if n == 0 {
        t
    } else {
        zone_time_after_tick(zone_time_after(t, (n - 1) as nat))
    }
}

/// Law: from the start of a game minute, `n` ticks move the time of day on
/// by one minute per `ticks_per_game_minute` ticks (modulo a day), and the
/// clock is then `n % ticks_per_game_minute` ticks into the next minute.
/// With the clock's own rate this is three game minutes per real second.
pub proof fn law_game_minutes_per_ticks(t: ZoneTime, n: nat)
    requires
        t.hour < 24,
        t.minute < 60,
        t.tick_accumulator == 0,
        t.ticks_per_game_minute >= 1,
    ensures
        minute_of_day(zone_time_after(t, n)) == (minute_of_day(t) + (n as int) / (t.ticks_per_game_minute as int))
            % 1440,
        zone_time_after(t, n).tick_accumulator == (n as int) % (t.ticks_per_game_minute as int),
        zone_time_after(t, n).hour < 24,
        zone_time_after(t, n).minute < 60,
        zone_time_after(t, n).ticks_per_game_minute == t.ticks_per_game_minute,
    decreases n,
{
    let m = t.ticks_per_game_minute as int;
    if n == 0 {
        vstd::arithmetic::div_mod::lemma_fundamental_div_mod_converse(0, m, 0, 0);
        assert(minute_of_day(t) < 1440);
        vstd::arithmetic::div_mod::lemma_small_mod(minute_of_day(t) as nat, 1440);
    } else {
        let k = (n - 1) as nat;
        law_game_minutes_per_ticks(t, k);
        let prev = zone_time_after(t, k);
        let q = (k as int) / m;
        let r = (k as int) % m;
        vstd::arithmetic::div_mod::lemma_fundamental_div_mod(k as int, m);
        assert(0 <= r < m) by {
            vstd::arithmetic::div_mod::lemma_mod_pos_bound(k as int, m);
        }
        let base = minute_of_day(t) + q;
        assert(minute_of_day(prev) == base % 1440);
        if r + 1 >= m {
            assert(r + 1 == m);
            assert((q + 1) * m == m * q + m) by (nonlinear_arith);
            vstd::arithmetic::div_mod::lemma_fundamental_div_mod_converse(n as int, m, q + 1, 0);
            vstd::arithmetic::div_mod::lemma_add_mod_noop(base, 1, 1440);
            vstd::arithmetic::div_mod::lemma_small_mod(1, 1440);
            assert(minute_of_day(prev) < 1440) by {
                vstd::arithmetic::div_mod::lemma_mod_pos_bound(base, 1440);
            }
            let next = zone_time_after_tick(prev);
            if prev.minute + 1 >= 60 {
                if prev.hour + 1 >= 24 {
                    assert(minute_of_day(prev) == 1439);
                    assert((base + 1) % 1440 == 0);
                } else {
                    assert(minute_of_day(next) == minute_of_day(prev) + 1);
                    vstd::arithmetic::div_mod::lemma_small_mod((minute_of_day(prev) + 1) as nat, 1440);
                }
            } else {
                assert(minute_of_day(next) == minute_of_day(prev) + 1);
                vstd::arithmetic::div_mod::lemma_small_mod((minute_of_day(prev) + 1) as nat, 1440);
            }
        } else {
            vstd::arithmetic::div_mod::lemma_fundamental_div_mod_converse(n as int, m, q, r + 1);
        }
    }
}

/// A spawn point waiting to respawn.
#[derive(Debug, Clone, Copy, PartialEq, Eq)]
pub struct RespawnEntry {
    pub spawn_point_id: i32,
    pub spawngroupid: i32,
    pub respawn_at_tick: u64,
}

/// Spawn points waiting to respawn, in the order they were scheduled.
pub struct RespawnQueue {
    entries: Vec<RespawnEntry>,
}

impl View for RespawnQueue {
    type V = Seq<RespawnEntry>;

    closed spec fn view(&self) -> Seq<RespawnEntry> {
        self.entries@
    }
}

/// The entries due at `tick`, in queue order.
pub open spec fn due_entries(s: Seq<RespawnEntry>, tick: u64) -> Seq<RespawnEntry>
    decreases s.len(),
{
    if s.len() == 0 {
        s
    } else if tick >= s.last().respawn_at_tick {
        due_entries(s.drop_last(), tick).push(s.last())
    } else {
        due_entries(s.drop_last(), tick)
    }
}

/// The entries not yet due at `tick`, in queue order.
pub open spec fn waiting_entries(s: Seq<RespawnEntry>, tick: u64) -> Seq<RespawnEntry>
    decreases s.len(),
{
    if s.len() == 0 {
        s
    } else if tick >= s.last().respawn_at_tick {
        waiting_entries(s.drop_last(), tick)
    } else {
        waiting_entries(s.drop_last(), tick).push(s.last())
    }
}

/// The (spawn point, spawn group) pairs of some entries.
pub open spec fn respawn_ids(s: Seq<RespawnEntry>) -> Seq<(i32, i32)> {
    s.map_values(|e: RespawnEntry| (e.spawn_point_id, e.spawngroupid))
}

impl RespawnQueue {
    /// An empty queue.
    pub fn new() -> (q: Self)
        ensures
            q@ == Seq::<RespawnEntry>::empty(),
    {
        RespawnQueue { entries: Vec::new() }
    }

    /// Schedules a spawn point to respawn `respawn_time_secs` seconds after
    /// `current_tick`.
    pub fn schedule(
        &mut self,
        spawn_point_id: i32,
        spawngroupid: i32,
        respawn_time_secs: i32,
        current_tick: u64,
    )
        requires
            (respawn_time_secs as u64) * TICK_RATE_HZ <= u64::MAX,
            current_tick + (respawn_time_secs as u64) * TICK_RATE_HZ <= u64::MAX,
        ensures
            final(self)@ == old(self)@.push(
                RespawnEntry {
                    spawn_point_id,
                    spawngroupid,
                    respawn_at_tick: (current_tick + (respawn_time_secs as u64) * TICK_RATE_HZ) as u64,
                },
            ),
    {
        let ticks = (respawn_time_secs as u64) * (TICK_RATE_HZ as u64);
        self.entries.push(
            RespawnEntry { spawn_point_id, spawngroupid, respawn_at_tick: current_tick + ticks },
        );
    }

    /// Takes out the entries due at `current_tick`, in queue order, and
    /// returns their (spawn point, spawn group) pairs; the others stay, in
    /// order.
    pub fn drain_ready(&mut self, current_tick: u64) -> (ready: Vec<(i32, i32)>)
        ensures
            ready@ == respawn_ids(due_entries(old(self)@, current_tick)),
            final(self)@ == waiting_entries(old(self)@, current_tick),
    {
        let mut ready: Vec<(i32, i32)> = Vec::new();
        let mut kept: Vec<RespawnEntry> = Vec::new();
        let mut i: usize = 0;
        while i < self.entries.len()
            invariant
                i <= self@.len(),
                self@ == old(self)@,
                ready@ == respawn_ids(due_entries(self@.take(i as int), current_tick)),
                kept@ == waiting_entries(self@.take(i as int), current_tick),
            decreases self@.len() - i,
        {
            let e = self.entries[i];
            proof {
                assert(self@.take(i + 1).drop_last() =~= self@.take(i as int));
            }
            if current_tick >= e.respawn_at_tick {
                ready.push((e.spawn_point_id, e.spawngroupid));
                proof {
                    assert(respawn_ids(due_entries(self@.take(i + 1), current_tick)) =~= respawn_ids(
                        due_entries(self@.take(i as int), current_tick),
                    ).push((e.spawn_point_id, e.spawngroupid)));
                }
            } else {
                kept.push(e);
            }
            i = i + 1;
        }
        proof {
            assert(self@.take(i as int) =~= self@);
        }
        self.entries = kept;
        ready
    }

    /// Number of entries waiting.
    pub fn pending_count(&self) -> (n: usize)
        ensures
            n == self@.len(),
    {
        self.entries.len()
    }
}

/// Law: draining splits the queue: every entry is either returned (and was
/// due) or kept (and was not), none lost or duplicated.
pub proof fn law_drain_partitions(s: Seq<RespawnEntry>, tick: u64)
    ensures
        due_entries(s, tick).len() + waiting_entries(s, tick).len() == s.len(),
        forall|k: int|
            0 <= k < due_entries(s, tick).len() ==> tick >= #[trigger] due_entries(
                s,
                tick,
            )[k].respawn_at_tick,
        forall|k: int|
            0 <= k < waiting_entries(s, tick).len() ==> tick < #[trigger] waiting_entries(
                s,
                tick,
            )[k].respawn_at_tick,
    decreases s.len(),
{
    if s.len() > 0 {
        law_drain_partitions(s.drop_last(), tick);
        let d = due_entries(s.drop_last(), tick);
        let w = waiting_entries(s.drop_last(), tick);
        assert(forall|k: int| 0 <= k < d.len() ==> d.push(s.last())[k] == d[k]);
        assert(forall|k: int| 0 <= k < w.len() ==> w.push(s.last())[k] == w[k]);
    }
}

} // verus!
