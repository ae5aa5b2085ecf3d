//! NPC behaviour each tick: the AI state machine (aggro, chase, leash), NPC
//! melee against the most hated target, and death. Distances are measured
//! by the caller, which passes the outcome of each range test.
use vstd::prelude::*;

use crate::combat::{
    calculate_melee_damage, interval_ticks, melee_damage_spec, timer_after_tick, DamageResult,
    MeleeStats,
};
use crate::hate_list::{add_in_range, top_index, with_hate, HateList};

verus! {

/// What an NPC is doing.
#[derive(Debug, Clone, Copy, PartialEq, Eq, Structural)]
pub enum AiState {
    Idle,
    Patrol,
    Aggro,
    Chase,
    Combat,
    Leash,
}

/// Radius within which an NPC notices players when none is configured.
pub const DEFAULT_AGGRO_RADIUS: u32 = 70;

/// Radius within which an NPC calls for help when none is configured.
pub const DEFAULT_ASSIST_RADIUS: u32 = 30;

/// Distance from home beyond which an NPC gives up a chase.
pub const LEASH_RADIUS: u32 = 600;

/// Distance within which an NPC fights instead of chasing.
pub const MELEE_RANGE: u32 = 15;

/// The state an NPC starts in: patrolling when it has a patrol grid, idle
/// otherwise.
pub open spec fn initial_state(patrol_grid_id: i32) -> AiState {
    if patrol_grid_id > 0 {
        AiState::Patrol
    } else {
        AiState::Idle
    }
}

/// The state an NPC starts in.
pub fn initial_ai_state(patrol_grid_id: i32) -> (s: AiState)
    ensures
        s == initial_state(patrol_grid_id),
{
    if patrol_grid_id > 0 {
        AiState::Patrol
    } else {
        AiState::Idle
    }
}

/// The aggro check of an idle or patrolling NPC: when some player is within
/// its aggro radius (`nearby_player`, the first such), it hates that player
/// by 1 and turns aggressive. NPCs doing anything else are unaffected.
pub fn aggro_check(state: AiState, nearby_player: Option<u32>, hate: &mut HateList) -> (next: AiState)
    requires
        match nearby_player {
            Some(p) => add_in_range(old(hate)@, p, 1, false),
            None => true,
        },
    ensures
        (state == AiState::Idle || state == AiState::Patrol) && nearby_player is Some ==> next
            == AiState::Aggro && final(hate)@ == with_hate(old(hate)@, nearby_player->0, 1, false),
        !((state == AiState::Idle || state == AiState::Patrol) && nearby_player is Some) ==> next
            == state && final(hate)@ == old(hate)@,
{
    if state != AiState::Idle && state != AiState::Patrol {
        return state;
    }
    match nearby_player {
        Some(p) => {
            hate.add_hate(p, 1);
            AiState::Aggro
        },
        None => state,
    }
}

/// The chase step of an aggressive or chasing NPC: without a target, or
/// with a target whose position is unknown, or too far from home, it leashes;
/// within melee range of the target it fights, otherwise it chases. Other
/// states are unaffected.
pub open spec fn chase_state(
    state: AiState,
    top_target: Option<u32>,
    target_located: bool,
    beyond_leash: bool,
    within_melee: bool,
) -> AiState {
    if state != AiState::Aggro && state != AiState::Chase {
        state
    } else if top_target is None || !target_located || beyond_leash {
        AiState::Leash
    } else if within_melee {
        AiState::Combat
    } else {
        AiState::Chase
    }
}

/// The chase step of an NPC.
pub fn chase_step(
    state: AiState,
    top_target: Option<u32>,
    target_located: bool,
    beyond_leash: bool,
    within_melee: bool,
) -> (next: AiState)
    ensures
        next == chase_state(state, top_target, target_located, beyond_leash, within_melee),
{
    if state != AiState::Aggro && state != AiState::Chase {
        return state;
    }
    if top_target.is_none() || !target_located || beyond_leash {
        return AiState::Leash;
    }
    if within_melee {
        AiState::Combat
    } else {
        AiState::Chase
    }
}

/// The leash step: a leashing NPC forgets all hate and goes home, back to
/// patrolling or idling. Returns the new state and whether it went home.
pub fn leash_step(state: AiState, patrol_grid_id: i32, hate: &mut HateList) -> (r: (AiState, bool))
    ensures
        state == AiState::Leash ==> r == (initial_state(patrol_grid_id), true) && final(hate)@.len()
            == 0,
        state != AiState::Leash ==> r == (state, false) && final(hate)@ == old(hate)@,
{
    if state != AiState::Leash {
        return (state, false);
    }
    hate.clear();
    (initial_ai_state(patrol_grid_id), true)
}

/// The defender an NPC swings at: its level, its hit points, and whether it
/// is within melee range.
pub struct MeleeDefender {
    pub level: u32,
    pub current_hp: i32,
    pub in_range: bool,
}

/// One tick of an NPC's melee: the swing timer counts down; when it is
/// ready and the most hated entity is a defender within melee range, the
/// NPC swings (a hit takes the damage off the defender's hit points) and
/// its timer restarts. Returns the swing's result, if it swung.
pub fn auto_attack_step(
    melee: &mut MeleeStats,
    attacker_level: u32,
    hate: &HateList,
    defender: &mut Option<MeleeDefender>,
) -> (swing: Option<DamageResult>)
    requires
        match *old(defender) {
            Some(d) => timer_after_tick(old(melee).ticks_until_attack) == 0 && hate@.len() > 0 && d.in_range
                ==> {
                &&& i32::MIN <= old(melee).min_damage + old(melee).max_damage <= i32::MAX
                &&& i32::MIN <= (attacker_level as i32) - (d.level as i32) <= i32::MAX
                &&& attacker_level * 7 + d.level * 3 <= u32::MAX
                &&& melee_damage_spec(old(melee).min_damage, old(melee).max_damage, attacker_level, d.level) matches DamageResult::Hit(dmg) ==> d.current_hp - dmg >= i32::MIN
            },
            None => true,
        },
    ensures
        ({
            let ticked = timer_after_tick(old(melee).ticks_until_attack);
            let swings = ticked == 0 && hate@.len() > 0 && match *old(defender) {
                Some(d) => d.in_range,
                None => false,
            };
            &&& final(melee).min_damage == old(melee).min_damage
            &&& final(melee).max_damage == old(melee).max_damage
            &&& final(melee).attack_delay_ms == old(melee).attack_delay_ms
            &&& swings ==> {
                let d = old(defender)->0;
                let r = melee_damage_spec(
                    old(melee).min_damage,
                    old(melee).max_damage,
                    attacker_level,
                    d.level,
                );
                &&& swing == Some(r)
                &&& final(melee).ticks_until_attack == interval_ticks(old(melee).attack_delay_ms)
                &&& (*final(defender)) is Some
                &&& (*final(defender))->0.level == d.level
                &&& (*final(defender))->0.in_range == d.in_range
                &&& (*final(defender))->0.current_hp == match r {
                    DamageResult::Hit(dmg) => d.current_hp - dmg,
                    DamageResult::Miss => d.current_hp as int,
                }
            }
            &&& !swings ==> swing is None && final(melee).ticks_until_attack == ticked
                && *final(defender) == *old(defender)
        }),
{
    melee.tick();
    if !melee.is_ready() {
        return None;
    }
    if hate.top_target().is_none() {
        return None;
    }
    match defender {
        Some(d) => {
            if !d.in_range {
                return None;
            }
            let r = calculate_melee_damage(melee.min_damage, melee.max_damage, attacker_level, d.level);
            match r {
                DamageResult::Hit(dmg) => {
                    d.current_hp = d.current_hp - dmg;
                },
                DamageResult::Miss => {},
            }
            melee.reset_timer();
            Some(r)
        },
        None => None,
    }
}

/// Whether an NPC with `current_hp` hit points is dead.
pub fn is_dead(current_hp: i32) -> (dead: bool)
    ensures
        dead == (current_hp <= 0),
{
    current_hp <= 0
}

} // verus!
