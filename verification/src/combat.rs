//! Melee timing, hit resolution and experience awards.
use vstd::prelude::*;

verus! {

/// Game ticks per real second.
pub const TICK_RATE_HZ: u32 = 31;

/// Milliseconds between an NPC's melee swings.
pub const DEFAULT_ATTACK_DELAY_MS: u32 = 2000;

/// Milliseconds per attack-timer tick.
pub const ATTACK_TIMER_MS_PER_TICK: u32 = 32;

/// An attacker's melee damage range and swing timer.
#[derive(Debug, Clone, Copy, PartialEq, Eq)]
pub struct MeleeStats {
    pub min_damage: i32,
    pub max_damage: i32,
    pub attack_delay_ms: u32,
    pub ticks_until_attack: u32,
}

/// Ticks between swings for a given delay (never less than one).
pub open spec fn interval_ticks(delay_ms: u32) -> u32 {
    if delay_ms / ATTACK_TIMER_MS_PER_TICK >= 1 {
        delay_ms / ATTACK_TIMER_MS_PER_TICK
    } else {
        1
    }
}

/// The swing timer after one tick.
pub open spec fn timer_after_tick(t: u32) -> u32 {
    if t > 0 {
        (t - 1) as u32
    } else {
        0
    }
}

/// The swing timer after `n` ticks.
pub open spec fn timer_after_ticks(t: u32, n: nat) -> u32
    decreases n,
{
    if n == 0 {
        t
    } else {
        timer_after_tick(timer_after_ticks(t, (n - 1) as nat))
    }
}

impl MeleeStats {
    /// Melee stats with damage at least 1, the maximum at least the
    /// minimum, the default swing delay, and ready to swing.
    pub fn new(min_dmg: i32, max_dmg: i32) -> (s: Self)
        ensures
            s.min_damage == if min_dmg >= 1 {
                min_dmg
            } else {
                1
            },
            s.max_damage == if max_dmg >= s.min_damage {
                max_dmg
            } else {
                s.min_damage
            },
            s.attack_delay_ms == DEFAULT_ATTACK_DELAY_MS,
            s.ticks_until_attack == 0,
    {
        let min_damage = if min_dmg >= 1 {
            min_dmg
        } else {
            1
        };
        let max_damage = if max_dmg >= min_damage {
            max_dmg
        } else {
            min_damage
        };
        MeleeStats {
            min_damage,
            max_damage,
            attack_delay_ms: DEFAULT_ATTACK_DELAY_MS,
            ticks_until_attack: 0,
        }
    }

    /// Ticks between swings.
    pub fn attack_interval_ticks(&self) -> (n: u32)
        ensures
            n == interval_ticks(self.attack_delay_ms),
            n >= 1,
    {
        let n = self.attack_delay_ms / ATTACK_TIMER_MS_PER_TICK;
        if n >= 1 {
            n
        } else {
            1
        }
    }

    /// Whether the attacker may swing now.
    pub fn is_ready(&self) -> (b: bool)
        ensures
            b == (self.ticks_until_attack == 0),
    {
        self.ticks_until_attack == 0
    }

    /// Counts the swing timer down by one tick.
    pub fn tick(&mut self)
        ensures
            *final(self) == (MeleeStats {
                ticks_until_attack: timer_after_tick(old(self).ticks_until_attack),
                ..*old(self)
            }),
    {
        if self.ticks_until_attack > 0 {
            self.ticks_until_attack = self.ticks_until_attack - 1;
        }
    }

    /// Restarts the swing timer after a swing.
    pub fn reset_timer(&mut self)
        ensures
            *final(self) == (MeleeStats {
                ticks_until_attack: interval_ticks(old(self).attack_delay_ms),
                ..*old(self)
            }),
    {
        self.ticks_until_attack = self.attack_interval_ticks();
    }
}

/// Law: a swing timer just reset becomes ready after exactly as many ticks
/// as the attack interval, and not before.
pub proof fn law_timer_ready_after_interval(delay_ms: u32, n: nat)
    ensures
        (timer_after_ticks(interval_ticks(delay_ms), n) == 0) == (n >= interval_ticks(delay_ms)),
{
    lemma_timer_after_ticks(interval_ticks(delay_ms), n);
}

proof fn lemma_timer_after_ticks(t: u32, n: nat)
    ensures
        timer_after_ticks(t, n) == if n >= t {
            0
        } else {
            t - n
        },
    decreases n,
{
    if n > 0 {
        lemma_timer_after_ticks(t, (n - 1) as nat);
    }
}

/// Outcome of one melee swing.
#[derive(Debug, PartialEq, Eq, Clone, Copy)]
pub enum DamageResult {
    Hit(i32),
    Miss,
}

/// `x / 2` rounded toward zero.
pub open spec fn half_toward_zero(x: int) -> int {
    if x >= 0 {
        x / 2
    } else {
        -((-x) / 2)
    }
}

/// Percent chance to hit: 75, plus 2 per level the attacker is above the
/// defender, kept within 5..=95.
pub open spec fn hit_chance(level_diff: int) -> int {
    let c = 75 + level_diff * 2;
    if c < 5 {
        5
    } else if c > 95 {
        95
    } else {
        c
    }
}

/// The deterministic roll of a swing.
pub open spec fn swing_roll(attacker_level: u32, defender_level: u32) -> int {
    (attacker_level * 7 + defender_level * 3) % 100
}

/// What a swing does: a miss when the roll reaches the hit chance, else a
/// hit for the mean of the damage range (at least 1).
pub open spec fn melee_damage_spec(
    min_dmg: i32,
    max_dmg: i32,
    attacker_level: u32,
    defender_level: u32,
) -> DamageResult {
    let diff = (attacker_level as i32) - (defender_level as i32);
    if swing_roll(attacker_level, defender_level) >= hit_chance(diff) {
        DamageResult::Miss
    } else {
        let base = half_toward_zero(min_dmg + max_dmg);
        DamageResult::Hit(
            if base >= 1 {
                base as i32
            } else {
                1
            },
        )
    }
}

/// Resolves one melee swing.
pub fn calculate_melee_damage(
    min_dmg: i32,
    max_dmg: i32,
    attacker_level: u32,
    defender_level: u32,
) -> (r: DamageResult)
    requires
        i32::MIN <= min_dmg + max_dmg <= i32::MAX,
        i32::MIN <= (attacker_level as i32) - (defender_level as i32) <= i32::MAX,
        attacker_level * 7 + defender_level * 3 <= u32::MAX,
    ensures
        r == melee_damage_spec(min_dmg, max_dmg, attacker_level, defender_level),
{
    let sum = min_dmg + max_dmg;
    let base: i32 = if sum >= 0 {
        sum / 2
    } else {
        -((-(sum as i64)) / 2) as i32
    };
    let level_diff: i32 = attacker_level as i32 - defender_level as i32;
    let raw: i64 = 75 + (level_diff as i64) * 2;
    let chance: i64 = if raw < 5 {
        5
    } else if raw > 95 {
        95
    } else {
        raw
    };
    let roll = (attacker_level * 7 + defender_level * 3) % 100;
    if (roll as i64) >= chance {
        return DamageResult::Miss;
    }
    let damage = if base >= 1 {
        base
    } else {
        1
    };
    DamageResult::Hit(damage)
}

/// Law: for levels that fit in `i32`, a swing hits exactly when `(attacker * 7 + defender * 3) % 100` is
/// below the hit chance (75 plus two per level of advantage, within
/// 5..=95), and a hit does the mean of the damage range rounded toward
/// zero, but at least 1: never more than the mean, and never more than
/// the greatest damage when the range is ordered.
pub proof fn law_melee_hit_is_mean_damage(min_dmg: i32, max_dmg: i32, attacker_level: u32, defender_level: u32)
    ensures
        ({
            let roll = (attacker_level * 7 + defender_level * 3) % 100;
            let raw = 75 + 2 * (attacker_level - defender_level);
            let chance = if raw < 5 { 5 } else if raw > 95 { 95 } else { raw };
            attacker_level <= i32::MAX && defender_level <= i32::MAX ==> (melee_damage_spec(
                min_dmg,
                max_dmg,
                attacker_level,
                defender_level,
            ) is Miss <==> roll >= chance)
        }),
        melee_damage_spec(min_dmg, max_dmg, attacker_level, defender_level) matches DamageResult::Hit(d) ==> {
            &&& d >= 1
            &&& min_dmg + max_dmg >= 2 ==> 2 * d <= min_dmg + max_dmg <= 2 * d + 1
            &&& min_dmg + max_dmg < 2 ==> d == 1
            &&& min_dmg <= max_dmg && max_dmg >= 1 ==> d <= max_dmg
        },
{
}

/// Percent of the base experience awarded for a kill, by how many levels
/// the NPC is above (positive) or below the player.
pub open spec fn xp_modifier(diff: int) -> int {
    if diff >= 5 {
        200
    } else if diff >= 3 {
        150
    } else if diff >= 0 {
        100
    } else if diff >= -3 {
        75
    } else if diff >= -5 {
        50
    } else if diff >= -10 {
        25
    } else {
        5
    }
}

/// Experience for a kill: ten times the NPC level squared, scaled by
/// [`xp_modifier`], rounded down.
pub open spec fn xp_spec(npc_level: u32, player_level: u32) -> int {
    (npc_level * npc_level * 10 * xp_modifier(npc_level - player_level)) / 100
}

/// Experience awarded to a player for killing an NPC.
pub fn xp_for_kill(npc_level: u32, player_level: u32) -> (xp: u64)
    requires
        npc_level * npc_level * 10 * xp_modifier(npc_level - player_level) <= u64::MAX,
    ensures
        xp == xp_spec(npc_level, player_level),
{
    let n = npc_level as u64;
    proof {
        assert(0 <= n * n <= n * n * 10) by (nonlinear_arith);
        assert(n * n * 10 <= n * n * 10 * xp_modifier(npc_level - player_level)) by (
        nonlinear_arith)
            requires
                xp_modifier(npc_level - player_level) >= 5,
                n * n * 10 >= 0,
        ;
    }
    let base = n * n * 10;
    let diff: i64 = npc_level as i64 - player_level as i64;
    let modifier: u64 = if diff >= 5 {
        200
    } else if diff >= 3 {
        150
    } else if diff >= 0 {
        100
    } else if diff >= -3 {
        75
    } else if diff >= -5 {
        50
    } else if diff >= -10 {
        25
    } else {
        5
    };
    (base * modifier) / 100
}

/// Law: the experience award never decreases as the NPC's level rises
/// relative to a fixed player level.
pub proof fn law_xp_modifier_monotone(d1: int, d2: int)
    requires
        d1 <= d2,
    ensures
        xp_modifier(d1) <= xp_modifier(d2),
{
}

} // verus!
