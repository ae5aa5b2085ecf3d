//! The bridge's state for one client in the zone, and the rules of the
//! zone conversation that change it: spawn ids, targeting, considering,
//! auto-attack and its melee rounds, position reports and looting.
use std::collections::HashMap;

use rand::Rng;

use vstd::prelude::*;

use crate::bridge::ConnectionPhase;
use crate::bytes::{le16, le16_value_at, le32, le32_value_at, push_repeated, push_u32_le, zeros};
use crate::item::InventoryItemRow;
use crate::titanium::{
    build_animation, build_combat_damage, build_death_struct, build_mob_health, build_spawn_struct,
    con_color, extract_zone_entry_name, get_con_color_titanium, spawn_struct_bytes, utf8_lossy,
    zone_entry_name_bytes, PlayerProfileData, SpawnData,
};
use crate::zone_records::race_size_bits;
use vstd::string::StrSliceExecFns;
use vstd::string::StringExecFns;

verus! {

broadcast use vstd::std_specs::hash::group_hash_axioms;

/// An entity the client has been shown: the player itself, an NPC or a corpse.
pub struct SpawnedNpc {
    pub level: u8,
    pub name: String,
    pub cur_hp: i64,
    pub max_hp: i64,
    pub min_dmg: i32,
    pub max_dmg: i32,
    pub attack_delay: i16,
    pub loottable_id: i32,
    pub is_corpse: bool,
    pub loot_items: Vec<InventoryItemRow>,
    pub loot_platinum: u32,
    pub loot_gold: u32,
    pub loot_silver: u32,
    pub loot_copper: u32,
}

/// One client's state. Positions are kept as the IEEE-754 bit patterns the
/// client sends, the heading in the client's 4096ths-of-a-turn units, and
/// times in milliseconds of the server's monotonic clock.
pub struct ZoneClient {
    pub phase: ConnectionPhase,
    pub account_id: Option<i32>,
    pub account_name: String,
    pub char_name: String,
    pub char_zone_id: Option<i32>,
    pub char_zone_short: String,
    pub player_spawn_id: u32,
    pub next_spawn_id: u32,
    pub last_x_bits: u32,
    pub last_y_bits: u32,
    pub last_z_bits: u32,
    pub last_heading_units: u16,
    pub player_level: u8,
    pub target_id: Option<u32>,
    pub spawned_npcs: HashMap<u32, SpawnedNpc>,
    pub auto_attack: bool,
    pub last_attack_ms: Option<u64>,
    pub attack_delay_ms: u32,
    pub zone_transition_pending: bool,
    pub exp_ratio: u32,
}

impl ZoneClient {
    /// A client that has just connected: nothing spawned, no target, not
    /// attacking, a four-second swing delay, spawn ids from 1.
    pub fn new(phase: ConnectionPhase) -> (c: Self)
        ensures
            c.phase == phase,
            c.account_id is None,
            c.account_name@ == Seq::<char>::empty(),
            c.char_name@ == Seq::<char>::empty(),
            c.char_zone_id is None,
            c.char_zone_short@ == Seq::<char>::empty(),
            c.player_spawn_id == 0,
            c.next_spawn_id == 1,
            c.last_x_bits == 0,
            c.last_y_bits == 0,
            c.last_z_bits == 0,
            c.last_heading_units == 0,
            c.player_level == 0,
            c.target_id is None,
            c.spawned_npcs@ == Map::<u32, SpawnedNpc>::empty(),
            !c.auto_attack,
            c.last_attack_ms is None,
            c.attack_delay_ms == 4000,
            !c.zone_transition_pending,
            c.exp_ratio == 0,
    {
        ZoneClient {
            phase,
            account_id: None,
            account_name: String::new(),
            char_name: String::new(),
            char_zone_id: None,
            char_zone_short: String::new(),
            player_spawn_id: 0,
            next_spawn_id: 1,
            last_x_bits: 0,
            last_y_bits: 0,
            last_z_bits: 0,
            last_heading_units: 0,
            player_level: 0,
            target_id: None,
            spawned_npcs: HashMap::new(),
            auto_attack: false,
            last_attack_ms: None,
            attack_delay_ms: 4000,
            zone_transition_pending: false,
            exp_ratio: 0,
        }
    }

    /// Hands out the next spawn id.
    pub fn alloc_spawn_id(&mut self) -> (id: u32)
        requires
            old(self).next_spawn_id < u32::MAX,
        ensures
            id == old(self).next_spawn_id,
            final(self).next_spawn_id == old(self).next_spawn_id + 1,
            final(self).spawned_npcs@ == old(self).spawned_npcs@,
            final(self).player_spawn_id == old(self).player_spawn_id,
            final(self).target_id == old(self).target_id,
            *final(self) == (ZoneClient { next_spawn_id: final(self).next_spawn_id, ..*old(self) }),
    {
        let id = self.next_spawn_id;
        self.next_spawn_id = self.next_spawn_id + 1;
        id
    }

    /// A mouse-target message (the spawn id in its first four bytes):
    /// targets that spawn, or clears the target for id 0. Shorter messages
    /// change nothing.
    pub fn target_mouse(&mut self, data: &[u8])
        ensures
            final(self).target_id == if data@.len() >= 4 {
                if le32_value_at(data@, 0) == 0 {
                    None
                } else {
                    Some(le32_value_at(data@, 0))
                }
            } else {
                old(self).target_id
            },
            *final(self) == (ZoneClient { target_id: final(self).target_id, ..*old(self) }),
    {
        if data.len() >= 4 {
            let id = read_u32_le(data, 0);
            if id == 0 {
                self.target_id = None;
            } else {
                self.target_id = Some(id);
            }
        }
    }

    /// A target command (the spawn id in its first four bytes): targets the
    /// spawn when the client has been shown it, and then says the command
    /// is to be echoed back.
    pub fn target_command(&mut self, data: &[u8]) -> (echo: bool)
        ensures
            echo == (data@.len() >= 4 && old(self).spawned_npcs@.contains_key(le32_value_at(data@, 0))),
            final(self).target_id == if echo {
                Some(le32_value_at(data@, 0))
            } else {
                old(self).target_id
            },
            *final(self) == (ZoneClient { target_id: final(self).target_id, ..*old(self) }),
    {
        if data.len() >= 4 {
            let id = read_u32_le(data, 0);
            if self.spawned_npcs.contains_key(&id) {
                self.target_id = Some(id);
                return true;
            }
        }
        false
    }

    /// An auto-attack toggle (a 32-bit flag): turns auto-attack on or off
    /// and forgets the last swing. Shorter messages change nothing.
    pub fn toggle_auto_attack(&mut self, data: &[u8])
        ensures
            data@.len() >= 4 ==> final(self).auto_attack == (le32_value_at(data@, 0) != 0)
                && final(self).last_attack_ms is None,
            data@.len() < 4 ==> final(self).auto_attack == old(self).auto_attack
                && final(self).last_attack_ms == old(self).last_attack_ms,
            *final(self) == (ZoneClient {
                auto_attack: final(self).auto_attack,
                last_attack_ms: final(self).last_attack_ms,
                ..*old(self)
            }),
    {
        if data.len() >= 4 {
            let toggle = read_u32_le(data, 0);
            self.auto_attack = toggle != 0;
            self.last_attack_ms = None;
        }
    }

    /// A position report (at least 36 bytes): y at byte 4, x at 24, z at
    /// 28, and the heading in the low 12 bits of the 16-bit value at 32.
    /// Shorter reports change nothing.
    pub fn client_update(&mut self, data: &[u8])
        ensures
            data@.len() >= 36 ==> {
                &&& final(self).last_y_bits == le32_value_at(data@, 4)
                &&& final(self).last_x_bits == le32_value_at(data@, 24)
                &&& final(self).last_z_bits == le32_value_at(data@, 28)
                &&& final(self).last_heading_units == le16_value_at(data@, 32) & 0x0FFF
            },
            data@.len() < 36 ==> {
                &&& final(self).last_y_bits == old(self).last_y_bits
                &&& final(self).last_x_bits == old(self).last_x_bits
                &&& final(self).last_z_bits == old(self).last_z_bits
                &&& final(self).last_heading_units == old(self).last_heading_units
            },
            *final(self) == (ZoneClient {
                last_x_bits: final(self).last_x_bits,
                last_y_bits: final(self).last_y_bits,
                last_z_bits: final(self).last_z_bits,
                last_heading_units: final(self).last_heading_units,
                ..*old(self)
            }),
    {
        if data.len() >= 36 {
            self.last_y_bits = read_u32_le(data, 4);
            self.last_x_bits = read_u32_le(data, 24);
            self.last_z_bits = read_u32_le(data, 28);
            let raw: u16 = (data[33] as u16) * 256 + (data[32] as u16);
            self.last_heading_units = raw & 0x0FFF;
        }
    }
}

fn read_u32_le(data: &[u8], off: usize) -> (v: u32)
    requires
        off + 4 <= data@.len(),
    ensures
        v == le32_value_at(data@, off as int),
{
    let _n = data.len();
    (data[off + 3] as u32) * 0x100_0000 + (data[off + 2] as u32) * 0x1_0000 + (data[off + 1] as u32)
        * 0x100 + (data[off] as u32)
}

/// The faction standing sent in consider replies: indifferent.
pub const FACTION_INDIFFERENT: u32 = 5;

/// The reply to considering a spawn: who considers, the spawn, the faction
/// standing, the colour, and the spawn's hit points (truncated to 32 bits).
pub open spec fn consider_reply(player_spawn_id: u32, target_id: u32, player_level: u8, npc: SpawnedNpc) -> Seq<u8> {
    le32(player_spawn_id) + le32(target_id) + le32(FACTION_INDIFFERENT) + le32(
        con_color(player_level, npc.level),
    ) + le32(npc.cur_hp as i32 as u32) + le32(npc.max_hp as i32 as u32) + zeros(4)
}

impl ZoneClient {
    /// The reply to a consider request (the target's spawn id at byte 4),
    /// when the client has been shown that spawn.
    pub fn consider(&self, data: &[u8]) -> (reply: Option<Vec<u8>>)
        ensures
            match reply {
                Some(r) => data@.len() >= 8 && self.spawned_npcs@.contains_key(le32_value_at(data@, 4))
                    && r@ == consider_reply(
                    self.player_spawn_id,
                    le32_value_at(data@, 4),
                    self.player_level,
                    self.spawned_npcs@[le32_value_at(data@, 4)],
                ),
                None => !(data@.len() >= 8 && self.spawned_npcs@.contains_key(
                    le32_value_at(data@, 4),
                )),
            },
    {
        if data.len() < 8 {
            return None;
        }
        let target_id = read_u32_le(data, 4);
        match self.spawned_npcs.get(&target_id) {
            Some(npc) => {
                let color = get_con_color_titanium(self.player_level, npc.level);
                let mut r: Vec<u8> = Vec::new();
                push_u32_le(&mut r, self.player_spawn_id);
                push_u32_le(&mut r, target_id);
                push_u32_le(&mut r, FACTION_INDIFFERENT);
                push_u32_le(&mut r, color);
                push_u32_le(&mut r, npc.cur_hp as i32 as u32);
                push_u32_le(&mut r, npc.max_hp as i32 as u32);
                push_repeated(&mut r, 0, 4);
                assert(r@ =~= consider_reply(self.player_spawn_id, target_id, self.player_level, *npc));
                Some(r)
            },
            None => None,
        }
    }
}

/// A message of a melee round, by kind.
pub enum CombatMessage {
    Animation(Vec<u8>),
    Damage(Vec<u8>),
    MobHealth(Vec<u8>),
    Death(Vec<u8>),
    ExpUpdate(Vec<u8>),
}

/// The content of a [`CombatMessage`].
pub enum CombatMessageView {
    Animation(Seq<u8>),
    Damage(Seq<u8>),
    MobHealth(Seq<u8>),
    Death(Seq<u8>),
    ExpUpdate(Seq<u8>),
}

impl View for CombatMessage {
    type V = CombatMessageView;

    open spec fn view(&self) -> CombatMessageView {
        match self {
            CombatMessage::Animation(b) => CombatMessageView::Animation(b@),
            CombatMessage::Damage(b) => CombatMessageView::Damage(b@),
            CombatMessage::MobHealth(b) => CombatMessageView::MobHealth(b@),
            CombatMessage::Death(b) => CombatMessageView::Death(b@),
            CombatMessage::ExpUpdate(b) => CombatMessageView::ExpUpdate(b@),
        }
    }
}

/// The contents of a list of [`CombatMessage`]s.
pub open spec fn combat_view(v: Seq<CombatMessage>) -> Seq<CombatMessageView> {
    v.map_values(|m: CombatMessage| m@)
}

/// Experience ratio cap (a full level).
pub const EXP_RATIO_MAX: u32 = 330;

/// Experience ratio gained per level of a slain NPC.
pub const EXP_PER_NPC_LEVEL: u32 = 15;

/// The least and greatest damage of a player's swing: the level and three
/// times the level, each at least 1.
pub open spec fn swing_damage_range(level: u8) -> (int, int) {
    (if level >= 1 { level as int } else { 1 }, if level as int * 3 >= 1 { level as int * 3 } else { 1 })
}

/// Hit points left after a hit, never below zero.
pub open spec fn hp_after_hit(cur_hp: i64, damage: i32) -> int {
    if cur_hp - damage > 0 {
        cur_hp - damage
    } else {
        0
    }
}

/// Health in percent, from 0 to 100.
pub open spec fn health_percent(cur_hp: int, max_hp: i64) -> u8 {
    let m: int = if max_hp >= 1 { max_hp as int } else { 1 };
    let p = cur_hp * 100 / m;
    if p < 0 {
        0
    } else if p > 100 {
        100
    } else {
        p as u8
    }
}

/// The experience ratio after slaying an NPC of `level`, capped at a full level.
pub open spec fn exp_after_kill(ratio: u32, level: u8) -> u32 {
    if ratio + level * EXP_PER_NPC_LEVEL < EXP_RATIO_MAX {
        (ratio + level * EXP_PER_NPC_LEVEL) as u32
    } else {
        EXP_RATIO_MAX
    }
}

/// Law: slaying an NPC of `level` adds 15 experience per level to what the
/// player had, capped at a full level (330): the experience never drops
/// below what it was (or the cap), never exceeds the cap, and grows by
/// exactly the award while the cap is not reached.
pub proof fn law_kill_experience(ratio: u32, level: u8)
    ensures
        exp_after_kill(ratio, level) <= 330,
        exp_after_kill(ratio, level) >= if ratio < 330 { ratio } else { 330 },
        ratio + 15 * level <= 330 ==> exp_after_kill(ratio, level) == ratio + 15 * level,
        ratio + 15 * level >= 330 ==> exp_after_kill(ratio, level) == 330,
{
}

/// Law: a player of level 1 or more swings for between its level and three
/// times its level; a level-0 player always swings for 1.
pub proof fn law_swing_damage_range(level: u8)
    ensures
        level >= 1 ==> swing_damage_range(level) == (level as int, 3 * level as int),
        level == 0 ==> swing_damage_range(level) == (1int, 1int),
        swing_damage_range(level).0 <= swing_damage_range(level).1,
{
}

/// Law: a hit of `damage` (not negative) takes that many hit points from
/// its target, but never below zero; the target becomes a corpse exactly
/// when its hit points reach zero (or already was one); nothing else about
/// it changes. Its health bar then shows the whole percentage of its
/// maximum hit points that is left, rounded down, between 0 and 100.
pub proof fn law_hit_damages_target(npc: SpawnedNpc, damage: i32)
    requires
        0 <= damage,
        0 <= npc.cur_hp,
    ensures
        ({
            let after = npc_after_hit(npc, damage);
            &&& npc.cur_hp >= damage ==> after.cur_hp == npc.cur_hp - damage
            &&& npc.cur_hp < damage ==> after.cur_hp == 0
            &&& 0 <= after.cur_hp <= npc.cur_hp
            &&& after.is_corpse == (npc.is_corpse || npc.cur_hp <= damage)
            &&& after.level == npc.level && after.name == npc.name && after.max_hp == npc.max_hp
            &&& after.min_dmg == npc.min_dmg && after.max_dmg == npc.max_dmg
            &&& after.attack_delay == npc.attack_delay && after.loottable_id == npc.loottable_id
            &&& after.loot_items == npc.loot_items && after.loot_platinum == npc.loot_platinum
            &&& after.loot_gold == npc.loot_gold && after.loot_silver == npc.loot_silver
            &&& after.loot_copper == npc.loot_copper
        }),
        ({
            let hp = hp_after_hit(npc.cur_hp, damage);
            let p = health_percent(hp, npc.max_hp) as int;
            &&& 0 <= p <= 100
            &&& npc.max_hp >= 1 && hp <= npc.max_hp ==> p * npc.max_hp <= hp * 100 < (p + 1) * npc.max_hp
        }),
{
    let hp = hp_after_hit(npc.cur_hp, damage);
    if npc.max_hp >= 1 && hp <= npc.max_hp {
        let m = npc.max_hp as int;
        let q = hp * 100 / m;
        assert(q * m <= hp * 100 < (q + 1) * m) by (nonlinear_arith)
            requires
                m >= 1,
                q == hp * 100 / m,
        ;
        assert(0 <= q <= 100) by (nonlinear_arith)
            requires
                m >= 1,
                0 <= hp <= m,
                q == hp * 100 / m,
        ;
    }
}

/// Law: a hit that kills its target leaves the player with the experience
/// of the kill, and the experience message of the hit carries exactly that
/// new value; a hit that does not kill sends no experience message.
pub proof fn law_kill_reports_experience(
    player_spawn_id: u32,
    target: u32,
    npc: SpawnedNpc,
    damage: i32,
    heading_bits: u32,
    exp_ratio: u32,
)
    ensures
        ({
            let msgs = hit_messages(player_spawn_id, target, npc, damage, heading_bits, exp_ratio);
            if npc.cur_hp - damage <= 0 {
                &&& msgs.len() == 5
                &&& msgs[4] == CombatMessageView::ExpUpdate(le32(exp_after_kill(exp_ratio, npc.level)) + zeros(4))
            } else {
                &&& msgs.len() == 3
                &&& forall|i: int| 0 <= i < 3 ==> !(msgs[i] is ExpUpdate)
            }
        }),
{
}

/// An NPC after a hit of `damage`: its hit points drop (not below zero),
/// and it becomes a corpse when they reach zero.
pub open spec fn npc_after_hit(npc: SpawnedNpc, damage: i32) -> SpawnedNpc {
    let hp = hp_after_hit(npc.cur_hp, damage);
    SpawnedNpc {
        level: npc.level,
        name: npc.name,
        cur_hp: hp as i64,
        max_hp: npc.max_hp,
        min_dmg: npc.min_dmg,
        max_dmg: npc.max_dmg,
        attack_delay: npc.attack_delay,
        loottable_id: npc.loottable_id,
        is_corpse: npc.is_corpse || hp <= 0,
        loot_items: npc.loot_items,
        loot_platinum: npc.loot_platinum,
        loot_gold: npc.loot_gold,
        loot_silver: npc.loot_silver,
        loot_copper: npc.loot_copper,
    }
}

/// The messages of a hit of `damage` by the player on `target`: the swing
/// animation, the damage, the target's health bar, and when it dies, its
/// death and the player's new experience.
pub open spec fn hit_messages(
    player_spawn_id: u32,
    target: u32,
    npc: SpawnedNpc,
    damage: i32,
    heading_bits: u32,
    exp_ratio: u32,
) -> Seq<CombatMessageView> {
    let hp = hp_after_hit(npc.cur_hp, damage);
    let base = seq![
        CombatMessageView::Animation(le16(player_spawn_id as u16) + seq![10u8, 8u8]),
        CombatMessageView::Damage(
            le16(target as u16) + le16(player_spawn_id as u16) + seq![0u8] + le16(0xFFFF) + le32(
                damage as u32,
            ) + le32(0) + le32(heading_bits) + le32(0),
        ),
        CombatMessageView::MobHealth(le16(target as i16 as u16) + seq![health_percent(hp, npc.max_hp)]),
    ];
    if hp <= 0 {
        base + seq![
            CombatMessageView::Death(
                le32(target) + le32(player_spawn_id) + le32(target) + le32(0) + le32(0xFFFF_FFFF)
                    + le32(0) + le32(damage as u32) + zeros(4),
            ),
            CombatMessageView::ExpUpdate(le32(exp_after_kill(exp_ratio, npc.level)) + zeros(4)),
        ]
    } else {
        base
    }
}

/// Whether the swing timer allows a swing at `now_ms`: no swing yet, or at
/// least the swing delay since the last one (a clock reading before the
/// last swing counts as no time passed).
pub open spec fn swing_ready(last_attack_ms: Option<u64>, attack_delay_ms: u32, now_ms: u64) -> bool {
    match last_attack_ms {
        Some(last) => (if now_ms >= last {
            now_ms - last
        } else {
            0
        }) >= attack_delay_ms,
        None => true,
    }
}

/// `rand::Rng::gen_range` on an inclusive range of `i32`s, with the thread's
/// generator: the contract states only that the value lies in the range.
#[verifier::external_body]
pub(crate) fn random_i32_inclusive(lo: i32, hi: i32) -> (r: i32)
    requires
        lo <= hi,
    ensures
        lo <= r <= hi,
{
    rand::thread_rng().gen_range(lo..=hi)
}

impl ZoneClient {
    /// Decides whether the player swings this tick, and at whom. A swing
    /// needs auto-attack on, a target other than the player, a ready swing
    /// timer and a living, shown, non-corpse target. Without a target, or
    /// with a dead, missing or corpse target, auto-attack is turned off.
    pub fn combat_target(&mut self, now_ms: u64) -> (target: Option<u32>)
        ensures
            ({
                let c = *old(self);
                let has_target = c.target_id is Some && c.target_id->0 != c.player_spawn_id;
                let t = c.target_id->0;
                let alive = c.spawned_npcs@.contains_key(t) && c.spawned_npcs@[t].cur_hp > 0
                    && !c.spawned_npcs@[t].is_corpse;
                &&& target == if c.auto_attack && has_target && swing_ready(
                    c.last_attack_ms,
                    c.attack_delay_ms,
                    now_ms,
                ) && alive {
                    Some(t)
                } else {
                    None
                }
                &&& final(self).auto_attack == (c.auto_attack && has_target && (!swing_ready(
                    c.last_attack_ms,
                    c.attack_delay_ms,
                    now_ms,
                ) || alive))
            }),
            final(self).spawned_npcs@ == old(self).spawned_npcs@,
            *final(self) == (ZoneClient { auto_attack: final(self).auto_attack, ..*old(self) }),
    {
        if !self.auto_attack {
            return None;
        }
        let target = match self.target_id {
            Some(id) => {
                if id != self.player_spawn_id {
                    id
                } else {
                    self.auto_attack = false;
                    return None;
                }
            },
            None => {
                self.auto_attack = false;
                return None;
            },
        };
        match self.last_attack_ms {
            Some(last) => {
                let elapsed: u64 = if now_ms >= last {
                    now_ms - last
                } else {
                    0
                };
                if elapsed < self.attack_delay_ms as u64 {
                    return None;
                }
            },
            None => {},
        }
        match self.spawned_npcs.get(&target) {
            Some(npc) => {
                if npc.cur_hp > 0 && !npc.is_corpse {
                    Some(target)
                } else {
                    self.auto_attack = false;
                    None
                }
            },
            None => {
                self.auto_attack = false;
                None
            },
        }
    }

    /// Applies a hit of `damage` by the player on `target` at `now_ms`: the
    /// target takes the damage, the swing timer restarts, and when the
    /// target dies it becomes a corpse, auto-attack stops and the player's
    /// experience grows.
    pub fn apply_melee_hit(&mut self, target: u32, damage: i32, now_ms: u64, heading_bits: u32) -> (msgs: Vec<CombatMessage>)
        requires
            old(self).spawned_npcs@.contains_key(target),
            old(self).spawned_npcs@[target].cur_hp > 0,
            0 <= damage,
        ensures
            ({
                let c = *old(self);
                let npc = c.spawned_npcs@[target];
                let dead = hp_after_hit(npc.cur_hp, damage) <= 0;
                &&& combat_view(msgs@) == hit_messages(
                    c.player_spawn_id,
                    target,
                    npc,
                    damage,
                    heading_bits,
                    c.exp_ratio,
                )
                &&& final(self).spawned_npcs@ == c.spawned_npcs@.insert(target, npc_after_hit(npc, damage))
                &&& final(self).last_attack_ms == Some(now_ms)
                &&& final(self).auto_attack == (c.auto_attack && !dead)
                &&& final(self).exp_ratio == if dead {
                    exp_after_kill(c.exp_ratio, npc.level)
                } else {
                    c.exp_ratio
                }
            }),
            *final(self) == (ZoneClient {
                spawned_npcs: final(self).spawned_npcs,
                auto_attack: final(self).auto_attack,
                last_attack_ms: final(self).last_attack_ms,
                exp_ratio: final(self).exp_ratio,
                ..*old(self)
            }),
    {
        let player = self.player_spawn_id;
        let mut npc = self.spawned_npcs.remove(&target).unwrap();
        let ghost before = npc;
        let hp: i64 = if npc.cur_hp - (damage as i64) > 0 {
            npc.cur_hp - (damage as i64)
        } else {
            0
        };
        let m: i64 = if npc.max_hp >= 1 {
            npc.max_hp
        } else {
            1
        };
        let p: i128 = (hp as i128) * 100 / (m as i128);
        let pct: u8 = if p < 0 {
            0
        } else if p > 100 {
            100
        } else {
            p as u8
        };
        let dead = hp <= 0;
        npc.cur_hp = hp;
        if dead {
            npc.is_corpse = true;
        }
        let level = npc.level;
        assert(npc == npc_after_hit(before, damage));
        self.spawned_npcs.insert(target, npc);
        let mut msgs: Vec<CombatMessage> = Vec::new();
        msgs.push(CombatMessage::Animation(build_animation(player as u16, 10, 8)));
        msgs.push(
            CombatMessage::Damage(
                build_combat_damage(target as u16, player as u16, 0, 0xFFFF, damage as u32, 0, heading_bits, 0),
            ),
        );
        msgs.push(CombatMessage::MobHealth(build_mob_health(target as i16, pct)));
        self.last_attack_ms = Some(now_ms);
        if dead {
            msgs.push(
                CombatMessage::Death(
                    build_death_struct(target, player, target, damage as u32, 0xFFFF_FFFF, 0),
                ),
            );
            self.auto_attack = false;
            let gained: u64 = (self.exp_ratio as u64) + (level as u64) * (EXP_PER_NPC_LEVEL as u64);
            self.exp_ratio = if gained < EXP_RATIO_MAX as u64 {
                gained as u32
            } else {
                EXP_RATIO_MAX
            };
            let mut exp: Vec<u8> = Vec::new();
            push_u32_le(&mut exp, self.exp_ratio);
            push_repeated(&mut exp, 0, 4);
            msgs.push(CombatMessage::ExpUpdate(exp));
        }
        assert(combat_view(msgs@) =~= hit_messages(
            player,
            target,
            before,
            damage,
            heading_bits,
            old(self).exp_ratio,
        ));
        msgs
    }

    /// One combat tick for this client: when the player swings, rolls the
    /// damage and applies the hit; otherwise only [`Self::combat_target`]'s
    /// bookkeeping happens. The damage, whatever the roll, lies in
    /// [`swing_damage_range`] of the player's level.
    pub fn process_combat_tick(&mut self, now_ms: u64, heading_bits: u32) -> (msgs: Vec<CombatMessage>)
        ensures
            ({
                let c = *old(self);
                let has_target = c.target_id is Some && c.target_id->0 != c.player_spawn_id;
                let t = c.target_id->0;
                let alive = c.spawned_npcs@.contains_key(t) && c.spawned_npcs@[t].cur_hp > 0
                    && !c.spawned_npcs@[t].is_corpse;
                let swings = c.auto_attack && has_target && swing_ready(
                    c.last_attack_ms,
                    c.attack_delay_ms,
                    now_ms,
                ) && alive;
                &&& !swings ==> msgs@.len() == 0 && final(self).spawned_npcs@ == c.spawned_npcs@
                    && final(self).exp_ratio == c.exp_ratio && final(self).last_attack_ms
                    == c.last_attack_ms
                &&& !swings ==> final(self).auto_attack == (c.auto_attack && has_target && (
                !swing_ready(c.last_attack_ms, c.attack_delay_ms, now_ms) || alive))
                &&& swings ==> exists|d: i32|
                    #![trigger npc_after_hit(c.spawned_npcs@[t], d)]
                    {
                        let npc = c.spawned_npcs@[t];
                        let dead = hp_after_hit(npc.cur_hp, d) <= 0;
                        &&& swing_damage_range(c.player_level).0 <= d <= swing_damage_range(
                            c.player_level,
                        ).1
                        &&& combat_view(msgs@) == hit_messages(
                            c.player_spawn_id,
                            t,
                            npc,
                            d,
                            heading_bits,
                            c.exp_ratio,
                        )
                        &&& final(self).spawned_npcs@ == c.spawned_npcs@.insert(
                            t,
                            npc_after_hit(npc, d),
                        )
                        &&& final(self).last_attack_ms == Some(now_ms)
                        &&& final(self).auto_attack == !dead
                        &&& final(self).exp_ratio == if dead {
                            exp_after_kill(c.exp_ratio, npc.level)
                        } else {
                            c.exp_ratio
                        }
                    }
            }),
            *final(self) == (ZoneClient {
                spawned_npcs: final(self).spawned_npcs,
                auto_attack: final(self).auto_attack,
                last_attack_ms: final(self).last_attack_ms,
                exp_ratio: final(self).exp_ratio,
                ..*old(self)
            }),
    {
        match self.combat_target(now_ms) {
            Some(target) => {
                let level = self.player_level;
                let lo: i32 = if level >= 1 {
                    level as i32
                } else {
                    1
                };
                let hi: i32 = if (level as i32) * 3 >= 1 {
                    (level as i32) * 3
                } else {
                    1
                };
                let damage = random_i32_inclusive(lo, hi);
                self.apply_melee_hit(target, damage, now_ms, heading_bits)
            },
            None => Vec::new(),
        }
    }
}

/// What a loot request for a spawn needs: a refusal when it is not a
/// corpse the client has been shown; the loot table's roll when the corpse
/// has a table and holds neither items nor coins yet; otherwise the corpse
/// can be opened as it is.
pub enum LootStep {
    Refuse,
    Resolve { loottable_id: i32 },
    Open,
}

/// Whether a corpse holds no coins.
pub open spec fn coinless(npc: SpawnedNpc) -> bool {
    npc.loot_platinum == 0 && npc.loot_gold == 0 && npc.loot_silver == 0 && npc.loot_copper == 0
}

/// A spawn with its loot replaced.
pub open spec fn with_loot(
    npc: SpawnedNpc,
    items: Seq<InventoryItemRow>,
    platinum: u32,
    gold: u32,
    silver: u32,
    copper: u32,
) -> SpawnedNpc {
    SpawnedNpc {
        level: npc.level,
        name: npc.name,
        cur_hp: npc.cur_hp,
        max_hp: npc.max_hp,
        min_dmg: npc.min_dmg,
        max_dmg: npc.max_dmg,
        attack_delay: npc.attack_delay,
        loottable_id: npc.loottable_id,
        is_corpse: npc.is_corpse,
        loot_items: npc.loot_items,
        loot_platinum: platinum,
        loot_gold: gold,
        loot_silver: silver,
        loot_copper: copper,
    }
}

/// The position of the first loot item in `slot`, if any.
pub open spec fn first_in_slot(items: Seq<InventoryItemRow>, slot: i32) -> Option<int>
    decreases items.len(),
{
    if items.len() == 0 {
        None
    } else if items[0].slot_id == slot {
        Some(0)
    } else {
        match first_in_slot(items.drop_first(), slot) {
            Some(i) => Some(i + 1),
            None => None,
        }
    }
}

/// Whether two spawns agree on everything but their loot items.
pub open spec fn same_but_items(a: SpawnedNpc, b: SpawnedNpc) -> bool {
    &&& a.level == b.level
    &&& a.name == b.name
    &&& a.cur_hp == b.cur_hp
    &&& a.max_hp == b.max_hp
    &&& a.min_dmg == b.min_dmg
    &&& a.max_dmg == b.max_dmg
    &&& a.attack_delay == b.attack_delay
    &&& a.loottable_id == b.loottable_id
    &&& a.is_corpse == b.is_corpse
    &&& a.loot_platinum == b.loot_platinum
    &&& a.loot_gold == b.loot_gold
    &&& a.loot_silver == b.loot_silver
    &&& a.loot_copper == b.loot_copper
}

/// A position moved forward by `d`.
pub open spec fn shifted(o: Option<int>, d: int) -> Option<int> {
    match o {
        Some(j) => Some(j + d),
        None => None,
    }
}

impl ZoneClient {
    /// What a loot request for spawn `corpse_id` needs.
    pub fn loot_request_step(&self, corpse_id: u32) -> (step: LootStep)
        ensures
            ({
                let m = self.spawned_npcs@;
                match step {
                    LootStep::Refuse => !(m.contains_key(corpse_id) && m[corpse_id].is_corpse),
                    LootStep::Resolve { loottable_id } => m.contains_key(corpse_id)
                        && m[corpse_id].is_corpse && loottable_id == m[corpse_id].loottable_id
                        && loottable_id > 0 && m[corpse_id].loot_items@.len() == 0 && coinless(
                        m[corpse_id],
                    ),
                    LootStep::Open => m.contains_key(corpse_id) && m[corpse_id].is_corpse && !(
                    m[corpse_id].loottable_id > 0 && m[corpse_id].loot_items@.len() == 0 && coinless(
                        m[corpse_id],
                    )),
                }
            }),
    {
        match self.spawned_npcs.get(&corpse_id) {
            Some(npc) => {
                if !npc.is_corpse {
                    LootStep::Refuse
                } else if npc.loottable_id > 0 && npc.loot_items.len() == 0 && npc.loot_platinum == 0
                    && npc.loot_gold == 0 && npc.loot_silver == 0 && npc.loot_copper == 0 {
                    LootStep::Resolve { loottable_id: npc.loottable_id }
                } else {
                    LootStep::Open
                }
            },
            None => LootStep::Refuse,
        }
    }

    /// Stores the rolled loot of a corpse.
    pub fn store_loot(
        &mut self,
        corpse_id: u32,
        items: Vec<InventoryItemRow>,
        platinum: u32,
        gold: u32,
        silver: u32,
        copper: u32,
    )
        requires
            old(self).spawned_npcs@.contains_key(corpse_id),
        ensures
            final(self).spawned_npcs@ == old(self).spawned_npcs@.insert(
                corpse_id,
                ({
                    let n = with_loot(
                        old(self).spawned_npcs@[corpse_id],
                        items@,
                        platinum,
                        gold,
                        silver,
                        copper,
                    );
                    SpawnedNpc { loot_items: items, ..n }
                }),
            ),
            final(self).target_id == old(self).target_id,
            final(self).player_spawn_id == old(self).player_spawn_id,
            *final(self) == (ZoneClient { spawned_npcs: final(self).spawned_npcs, ..*old(self) }),
    {
        let mut npc = self.spawned_npcs.remove(&corpse_id).unwrap();
        npc.loot_items = items;
        npc.loot_platinum = platinum;
        npc.loot_gold = gold;
        npc.loot_silver = silver;
        npc.loot_copper = copper;
        self.spawned_npcs.insert(corpse_id, npc);
    }

    /// Opens a corpse: the coin message (response 1 with the corpse's
    /// coins) and the record of each loot item under its item id as serial;
    /// the corpse's coins are then taken.
    pub fn open_corpse(&mut self, corpse_id: u32) -> (contents: (Vec<u8>, Vec<Vec<u8>>))
        requires
            old(self).spawned_npcs@.contains_key(corpse_id),
        ensures
            ({
                let npc = old(self).spawned_npcs@[corpse_id];
                &&& contents.0@ == seq![1u8] + crate::titanium::money_marker(1) + zeros(1) + le32(
                    npc.loot_platinum,
                ) + le32(npc.loot_gold) + le32(npc.loot_silver) + le32(npc.loot_copper)
                &&& contents.1@.len() == npc.loot_items@.len()
                &&& forall|k: int|
                    0 <= k < npc.loot_items@.len() ==> (#[trigger] contents.1@[k])@
                        == crate::item::item_record(npc.loot_items@[k], npc.loot_items@[k].item_db_id)
                &&& final(self).spawned_npcs@ == old(self).spawned_npcs@.insert(
                    corpse_id,
                    with_loot(npc, npc.loot_items@, 0, 0, 0, 0),
                )
            }),
            final(self).target_id == old(self).target_id,
            final(self).player_spawn_id == old(self).player_spawn_id,
            *final(self) == (ZoneClient { spawned_npcs: final(self).spawned_npcs, ..*old(self) }),
    {
        let mut npc = self.spawned_npcs.remove(&corpse_id).unwrap();
        let money = crate::titanium::build_money_on_corpse(
            1,
            npc.loot_platinum,
            npc.loot_gold,
            npc.loot_silver,
            npc.loot_copper,
        );
        let mut records: Vec<Vec<u8>> = Vec::new();
        let mut k: usize = 0;
        while k < npc.loot_items.len()
            invariant
                k <= npc.loot_items@.len(),
                records@.len() == k,
                forall|j: int|
                    0 <= j < k ==> (#[trigger] records@[j])@ == crate::item::item_record(
                        npc.loot_items@[j],
                        npc.loot_items@[j].item_db_id,
                    ),
            decreases npc.loot_items@.len() - k,
        {
            let rec = crate::item::serialize_titanium_item(&npc.loot_items[k], npc.loot_items[k].item_db_id);
            records.push(rec);
            k = k + 1;
        }
        npc.loot_platinum = 0;
        npc.loot_gold = 0;
        npc.loot_silver = 0;
        npc.loot_copper = 0;
        self.spawned_npcs.insert(corpse_id, npc);
        (money, records)
    }

    /// A loot-item request (corpse id at byte 0, slot at byte 8, at least 12
    /// bytes): the first item in that slot leaves the corpse. Returns
    /// whether the request is long enough to be echoed back.
    pub fn take_loot_item(&mut self, data: &[u8]) -> (echo: bool)
        ensures
            echo == (data@.len() >= 12),
            ({
                let m = old(self).spawned_npcs@;
                let id = le32_value_at(data@, 0);
                let slot = le16_value_at(data@, 8) as i32;
                if echo && m.contains_key(id) && m[id].is_corpse && first_in_slot(
                    m[id].loot_items@,
                    slot,
                ) is Some {
                    let i = first_in_slot(m[id].loot_items@, slot)->0;
                    &&& final(self).spawned_npcs@.dom() == m.dom()
                    &&& forall|k: u32| k != id && m.contains_key(k) ==> final(self).spawned_npcs@[k] == m[k]
                    &&& final(self).spawned_npcs@[id].loot_items@ == m[id].loot_items@.remove(i)
                    &&& same_but_items(final(self).spawned_npcs@[id], m[id])
                } else {
                    final(self).spawned_npcs@ == m
                }
            }),
            final(self).target_id == old(self).target_id,
            final(self).player_spawn_id == old(self).player_spawn_id,
            *final(self) == (ZoneClient { spawned_npcs: final(self).spawned_npcs, ..*old(self) }),
    {
        if data.len() < 12 {
            return false;
        }
        let id = read_u32_le(data, 0);
        let slot: u16 = (data[9] as u16) * 256 + (data[8] as u16);
        let slot_i: i32 = slot as i32;
        if !self.spawned_npcs.contains_key(&id) {
            return true;
        }
        let mut npc = self.spawned_npcs.remove(&id).unwrap();
        let ghost before = npc;
        if npc.is_corpse {
            let mut i: usize = 0;
            assert(before.loot_items@.skip(0) =~= before.loot_items@);
            while i < npc.loot_items.len()
                invariant_except_break
                    i <= npc.loot_items@.len(),
                    npc == before,
                    first_in_slot(before.loot_items@, slot_i) == shifted(
                        first_in_slot(before.loot_items@.skip(i as int), slot_i),
                        i as int,
                    ),
                ensures
                    npc == before,
                    i <= npc.loot_items@.len(),
                    i < npc.loot_items@.len() ==> first_in_slot(before.loot_items@, slot_i)
                        == Some(i as int),
                    i >= npc.loot_items@.len() ==> first_in_slot(before.loot_items@, slot_i) is None,
                decreases npc.loot_items@.len() - i,
            {
                proof {
                    let s = before.loot_items@.skip(i as int);
                    assert(s.drop_first() =~= before.loot_items@.skip(i as int + 1));
                    assert(s[0] == npc.loot_items@[i as int]);
                }
                if npc.loot_items[i].slot_id == slot_i {
                    break;
                }
                i = i + 1;
            }
            proof {
                if i >= npc.loot_items@.len() {
                    assert(before.loot_items@.skip(i as int) =~= Seq::<InventoryItemRow>::empty());
                }
            }
            if i < npc.loot_items.len() {
                npc.loot_items.remove(i);
            }
        }
        self.spawned_npcs.insert(id, npc);
        proof {
            if !(before.is_corpse && first_in_slot(before.loot_items@, slot_i) is Some) {
                assert(self.spawned_npcs@ =~= old(self).spawned_npcs@);
            }
        }
        true
    }

    /// Closes the loot window of a corpse: a corpse left with neither items
    /// nor coins is despawned (forgotten); returns whether it was.
    pub fn end_loot(&mut self, corpse_id: u32) -> (despawned: bool)
        ensures
            ({
                let m = old(self).spawned_npcs@;
                &&& despawned == (m.contains_key(corpse_id) && m[corpse_id].is_corpse
                    && m[corpse_id].loot_items@.len() == 0 && coinless(m[corpse_id]))
                &&& final(self).spawned_npcs@ == if despawned {
                    m.remove(corpse_id)
                } else {
                    m
                }
            }),
            final(self).target_id == old(self).target_id,
            final(self).player_spawn_id == old(self).player_spawn_id,
            *final(self) == (ZoneClient { spawned_npcs: final(self).spawned_npcs, ..*old(self) }),
    {
        let despawn = match self.spawned_npcs.get(&corpse_id) {
            Some(c) => c.is_corpse && c.loot_items.len() == 0 && c.loot_platinum == 0 && c.loot_gold
                == 0 && c.loot_silver == 0 && c.loot_copper == 0,
            None => false,
        };
        if despawn {
            self.spawned_npcs.remove(&corpse_id);
        }
        despawn
    }
}

/// The text without its '#' characters.
fn without_hashes(s: &str) -> (r: String)
    ensures
        r@ == s@.filter(|c: char| c != '#'),
{
    let n = s.unicode_len();
    let mut r = String::new();
    let mut i: usize = 0;
    while i < n
        invariant
            n == s@.len(),
            i <= n,
            r@ == s@.take(i as int).filter(|c: char| c != '#'),
        decreases n - i,
    {
        let c = s.get_char(i);
        proof {
            let t = s@.take(i + 1);
            assert(t.drop_last() =~= s@.take(i as int));
            assert(t.last() == c);
            reveal_with_fuel(Seq::filter, 1);
        }
        if c != '#' {
            let one = s.substring_char(i, i + 1);
            assert(one@ =~= seq![c]);
            r.append(one);
        }
        i = i + 1;
    }
    assert(s@.take(n as int) =~= s@);
    r
}

/// A spawn row of the zone's NPCs. Positions are fixed-point as in
/// [`SpawnData`]; sizes and speeds are IEEE-754 bit patterns, present only
/// when positive.
pub struct NpcSpawnRow {
    pub npc_name: String,
    pub lastname: Option<String>,
    pub level: i16,
    pub race: i16,
    pub class: i16,
    pub gender: i16,
    pub bodytype: i32,
    pub hp: i64,
    pub size_bits: Option<u32>,
    pub runspeed_bits: Option<u32>,
    pub walkspeed_bits: Option<u32>,
    pub texture: i16,
    pub helmtexture: i16,
    pub light: i16,
    pub findable: i16,
    pub mindmg: i32,
    pub maxdmg: i32,
    pub attack_delay: i16,
    pub loottable_id: i32,
    pub x_fixed: i32,
    pub y_fixed: i32,
    pub z_fixed: i32,
    pub heading_fixed: u32,
}

/// IEEE-754 bit patterns of the default spawn size and speeds.
pub const DEFAULT_SIZE_BITS: u32 = 0x40C0_0000;
pub const DEFAULT_RUN_SPEED_BITS: u32 = 0x3F33_3333;
pub const DEFAULT_WALK_SPEED_BITS: u32 = 0x3EEB_851F;

/// A value, or a default when there is none.
pub open spec fn or_default(v: Option<u32>, d: u32) -> u32 {
    match v {
        Some(x) => x,
        None => d,
    }
}

/// An NPC's hit points: its row's when positive, twenty per level otherwise.
pub open spec fn npc_hit_points(row: NpcSpawnRow) -> i64 {
    if row.hp > 0 {
        row.hp
    } else {
        (row.level * 20) as i64
    }
}

/// Whether `d` is the spawn message content of NPC row `row` under spawn
/// id `id`.
pub open spec fn npc_spawn_data(d: SpawnData, row: NpcSpawnRow, id: u32) -> bool {
    &&& d.spawn_id == id
    &&& d.name@ == row.npc_name@.filter(|c: char| c != '#')
    &&& d.last_name@ == match row.lastname {
        Some(l) => l@,
        None => Seq::<char>::empty(),
    }
    &&& d.level == row.level as u8
    &&& d.race == row.race as u32
    &&& d.class_id == row.class as u8
    &&& d.gender == row.gender as u8
    &&& d.deity == 0
    &&& d.x_fixed == row.x_fixed
    &&& d.y_fixed == row.y_fixed
    &&& d.z_fixed == row.z_fixed
    &&& d.heading_fixed == row.heading_fixed
    &&& d.size_bits == or_default(row.size_bits, DEFAULT_SIZE_BITS)
    &&& d.npc_type == 1
    &&& d.cur_hp == 100
    &&& d.max_hp == 100
    &&& d.body_type == row.bodytype as u8
    &&& d.run_speed_bits == or_default(row.runspeed_bits, DEFAULT_RUN_SPEED_BITS)
    &&& d.walk_speed_bits == or_default(row.walkspeed_bits, DEFAULT_WALK_SPEED_BITS)
    &&& d.findable == row.findable as u8
    &&& d.light == row.light as u8
    &&& d.texture == row.texture as u8
    &&& d.helm_texture == row.helmtexture as u8
    &&& d.guild_id == 0
}

/// A corpse left by a player: its owner and how it looks. Positions are
/// fixed-point as in [`SpawnData`].
pub struct CorpseRow {
    pub charname: String,
    pub x_fixed: i32,
    pub y_fixed: i32,
    pub z_fixed: i32,
    pub heading_fixed: u32,
    pub race: i32,
    pub class: i32,
    pub gender: i32,
    pub level: i32,
}

/// Whether `d` is the spawn message content of player corpse `row` under
/// spawn id `id`: "NAME's corpse", lying still, unfindable and guildless.
pub open spec fn corpse_spawn_data(d: SpawnData, row: CorpseRow, id: u32) -> bool {
    &&& d.spawn_id == id
    &&& d.name@ == row.charname@ + "'s corpse"@
    &&& d.last_name@ == Seq::<char>::empty()
    &&& d.level == row.level as u8
    &&& d.race == row.race as u32
    &&& d.class_id == row.class as u8
    &&& d.gender == row.gender as u8
    &&& d.deity == 0
    &&& d.x_fixed == row.x_fixed
    &&& d.y_fixed == row.y_fixed
    &&& d.z_fixed == row.z_fixed
    &&& d.heading_fixed == row.heading_fixed
    &&& d.size_bits == DEFAULT_SIZE_BITS
    &&& d.npc_type == 2
    &&& d.cur_hp == 0
    &&& d.max_hp == 0
    &&& d.body_type == 0
    &&& d.run_speed_bits == 0
    &&& d.walk_speed_bits == 0
    &&& d.findable == 0
    &&& d.light == 0
    &&& d.texture == 0
    &&& d.helm_texture == 0
    &&& d.guild_id == 0xFFFF_FFFF
}

impl ZoneClient {
    /// A zone-entry request: takes the character name from it and gives the
    /// player the next spawn id.
    pub fn begin_zone_entry(&mut self, data: &[u8])
        requires
            old(self).next_spawn_id < u32::MAX,
        ensures
            data@.len() < 5 ==> final(self).char_name@ == "Unknown"@,
            data@.len() >= 5 ==> final(self).char_name@ == utf8_lossy(zone_entry_name_bytes(data@)),
            final(self).player_spawn_id == old(self).next_spawn_id,
            final(self).next_spawn_id == old(self).next_spawn_id + 1,
            final(self).spawned_npcs@ == old(self).spawned_npcs@,
            *final(self) == (ZoneClient { char_name: final(self).char_name, player_spawn_id: final(self).player_spawn_id, next_spawn_id: final(self).next_spawn_id, ..*old(self) }),
    {
        let id = self.alloc_spawn_id();
        self.char_name = extract_zone_entry_name(data);
        self.player_spawn_id = id;
    }

    /// The profile of a character missing from the database: a level 1
    /// human-9 warrior in zone 52 at its safe point, under the player's
    /// spawn id.
    pub fn default_profile(&self) -> (pp: PlayerProfileData)
        ensures
            pp.name@ == self.char_name@,
            pp.last_name@ == Seq::<char>::empty(),
            pp.race == 9,
            pp.class_id == 1,
            pp.level == 1,
            pp.gender == 0,
            pp.deity == 0,
            pp.x_bits == 0xC2C6_0000,
            pp.y_bits == 0xC412_4000,
            pp.z_bits == 0x41D8_0000,
            pp.heading_bits == 0,
            pp.zone_id == 52,
            pp.face == 0 && pp.hair_color == 0 && pp.beard_color == 0,
            pp.eye_color_1 == 0 && pp.eye_color_2 == 0 && pp.hair_style == 0 && pp.beard == 0,
            pp.entity_id == self.player_spawn_id,
    {
        PlayerProfileData {
            name: self.char_name.clone(),
            last_name: String::new(),
            race: 9,
            class_id: 1,
            level: 1,
            gender: 0,
            deity: 0,
            x_bits: 0xC2C6_0000,
            y_bits: 0xC412_4000,
            z_bits: 0x41D8_0000,
            heading_bits: 0,
            zone_id: 52,
            face: 0,
            hair_color: 0,
            beard_color: 0,
            eye_color_1: 0,
            eye_color_2: 0,
            hair_style: 0,
            beard: 0,
            entity_id: self.player_spawn_id,
        }
    }

    /// Starts the zone afresh for the player at `level`: nothing shown but
    /// the player (1000 hit points, swing delay 30), no target, no attack.
    pub fn reset_for_zone_entry(&mut self, level: u8)
        ensures
            final(self).player_level == level,
            final(self).spawned_npcs@.dom() == set![old(self).player_spawn_id],
            ({
                let p = final(self).spawned_npcs@[old(self).player_spawn_id];
                &&& p.level == level
                &&& p.name@ == old(self).char_name@
                &&& p.cur_hp == 1000 && p.max_hp == 1000
                &&& p.min_dmg == 0 && p.max_dmg == 0
                &&& p.attack_delay == 30
                &&& p.loottable_id == 0
                &&& !p.is_corpse
                &&& p.loot_items@.len() == 0
                &&& coinless(p)
            }),
            final(self).target_id is None,
            !final(self).auto_attack,
            final(self).last_attack_ms is None,
            final(self).player_spawn_id == old(self).player_spawn_id,
            final(self).next_spawn_id == old(self).next_spawn_id,
            final(self).char_name == old(self).char_name,
            *final(self) == (ZoneClient { player_level: final(self).player_level, spawned_npcs: final(self).spawned_npcs, target_id: final(self).target_id, auto_attack: final(self).auto_attack, last_attack_ms: final(self).last_attack_ms, ..*old(self) }),
    {
        self.player_level = level;
        self.spawned_npcs.clear();
        self.target_id = None;
        self.auto_attack = false;
        self.last_attack_ms = None;
        let me = SpawnedNpc {
            level,
            name: self.char_name.clone(),
            cur_hp: 1000,
            max_hp: 1000,
            min_dmg: 0,
            max_dmg: 0,
            attack_delay: 30,
            loottable_id: 0,
            is_corpse: false,
            loot_items: Vec::new(),
            loot_platinum: 0,
            loot_gold: 0,
            loot_silver: 0,
            loot_copper: 0,
        };
        self.spawned_npcs.insert(self.player_spawn_id, me);
        assert(self.spawned_npcs@.dom() =~= set![old(self).player_spawn_id]);
    }

    /// Shows an NPC: gives it the next spawn id, remembers it (its hit
    /// points and damage from the row, no loot yet) and returns its spawn
    /// message.
    pub fn register_npc(&mut self, row: &NpcSpawnRow) -> (buf: Vec<u8>)
        requires
            old(self).next_spawn_id < u32::MAX,
        ensures
            ({
                let id = old(self).next_spawn_id;
                let n = final(self).spawned_npcs@[id];
                &&& final(self).next_spawn_id == id + 1
                &&& final(self).spawned_npcs@.dom() == old(self).spawned_npcs@.dom().insert(id)
                &&& forall|k: u32|
                    k != id && old(self).spawned_npcs@.contains_key(k) ==> final(self).spawned_npcs@[k]
                        == old(self).spawned_npcs@[k]
                &&& n.level == row.level as u8
                &&& n.name@ == row.npc_name@.filter(|c: char| c != '#')
                &&& n.cur_hp == npc_hit_points(*row) && n.max_hp == npc_hit_points(*row)
                &&& n.min_dmg == row.mindmg && n.max_dmg == row.maxdmg
                &&& n.attack_delay == row.attack_delay
                &&& n.loottable_id == row.loottable_id
                &&& !n.is_corpse
                &&& n.loot_items@.len() == 0
                &&& coinless(n)
                &&& exists|d: SpawnData| npc_spawn_data(d, *row, id) && buf@ == #[trigger] spawn_struct_bytes(d)
            }),
            final(self).player_spawn_id == old(self).player_spawn_id,
            final(self).target_id == old(self).target_id,
            *final(self) == (ZoneClient { next_spawn_id: final(self).next_spawn_id, spawned_npcs: final(self).spawned_npcs, ..*old(self) }),
    {
        let id = self.alloc_spawn_id();
        let hp: i64 = if row.hp > 0 {
            row.hp
        } else {
            (row.level as i64) * 20
        };
        let npc = SpawnedNpc {
            level: row.level as u8,
            name: without_hashes(row.npc_name.as_str()),
            cur_hp: hp,
            max_hp: hp,
            min_dmg: row.mindmg,
            max_dmg: row.maxdmg,
            attack_delay: row.attack_delay,
            loottable_id: row.loottable_id,
            is_corpse: false,
            loot_items: Vec::new(),
            loot_platinum: 0,
            loot_gold: 0,
            loot_silver: 0,
            loot_copper: 0,
        };
        self.spawned_npcs.insert(id, npc);
        let last_name = match &row.lastname {
            Some(l) => l.clone(),
            None => String::new(),
        };
        let data = SpawnData {
            spawn_id: id,
            name: without_hashes(row.npc_name.as_str()),
            last_name,
            level: row.level as u8,
            race: row.race as u32,
            class_id: row.class as u8,
            gender: row.gender as u8,
            deity: 0,
            x_fixed: row.x_fixed,
            y_fixed: row.y_fixed,
            z_fixed: row.z_fixed,
            heading_fixed: row.heading_fixed,
            size_bits: match row.size_bits {
                Some(b) => b,
                None => DEFAULT_SIZE_BITS,
            },
            npc_type: 1,
            cur_hp: 100,
            max_hp: 100,
            body_type: row.bodytype as u8,
            run_speed_bits: match row.runspeed_bits {
                Some(b) => b,
                None => DEFAULT_RUN_SPEED_BITS,
            },
            walk_speed_bits: match row.walkspeed_bits {
                Some(b) => b,
                None => DEFAULT_WALK_SPEED_BITS,
            },
            findable: row.findable as u8,
            light: row.light as u8,
            texture: row.texture as u8,
            helm_texture: row.helmtexture as u8,
            guild_id: 0,
        };
        let buf = build_spawn_struct(&data);
        assert(npc_spawn_data(data, *row, id));
        buf
    }

    /// Shows a player's corpse under the next spawn id and returns its
    /// spawn message.
    pub fn corpse_spawn(&mut self, row: &CorpseRow) -> (buf: Vec<u8>)
        requires
            old(self).next_spawn_id < u32::MAX,
        ensures
            final(self).next_spawn_id == old(self).next_spawn_id + 1,
            final(self).spawned_npcs@ == old(self).spawned_npcs@,
            exists|d: SpawnData|
                corpse_spawn_data(d, *row, old(self).next_spawn_id) && buf@ == #[trigger] spawn_struct_bytes(d),
            *final(self) == (ZoneClient { next_spawn_id: final(self).next_spawn_id, spawned_npcs: final(self).spawned_npcs, ..*old(self) }),
    {
        let id = self.alloc_spawn_id();
        let mut name = row.charname.clone();
        name.append("'s corpse");
        let data = SpawnData {
            spawn_id: id,
            name,
            last_name: String::new(),
            level: row.level as u8,
            race: row.race as u32,
            class_id: row.class as u8,
            gender: row.gender as u8,
            deity: 0,
            x_fixed: row.x_fixed,
            y_fixed: row.y_fixed,
            z_fixed: row.z_fixed,
            heading_fixed: row.heading_fixed,
            size_bits: DEFAULT_SIZE_BITS,
            npc_type: 2,
            cur_hp: 0,
            max_hp: 0,
            body_type: 0,
            run_speed_bits: 0,
            walk_speed_bits: 0,
            findable: 0,
            light: 0,
            texture: 0,
            helm_texture: 0,
            guild_id: 0xFFFF_FFFF,
        };
        let buf = build_spawn_struct(&data);
        assert(corpse_spawn_data(data, *row, id));
        buf
    }

    /// The player's own spawn message, from its profile; `z_fixed` is the
    /// position six units above the profile's, and the size is the race's.
    pub fn player_spawn(
        &self,
        pp: &PlayerProfileData,
        x_fixed: i32,
        y_fixed: i32,
        z_fixed: i32,
        heading_fixed: u32,
    ) -> (buf: Vec<u8>)
        ensures
            exists|d: SpawnData|
                {
                    &&& d.spawn_id == self.player_spawn_id
                    &&& d.name@ == self.char_name@
                    &&& d.last_name@ == pp.last_name@
                    &&& d.level == pp.level
                    &&& d.race == pp.race
                    &&& d.class_id == pp.class_id as u8
                    &&& d.gender == pp.gender as u8
                    &&& d.deity == pp.deity as u16
                    &&& d.x_fixed == x_fixed && d.y_fixed == y_fixed && d.z_fixed == z_fixed
                    &&& d.heading_fixed == heading_fixed
                    &&& d.size_bits == race_size_bits(pp.race)
                    &&& d.npc_type == 0 && d.cur_hp == 1 && d.max_hp == 100 && d.body_type == 0
                    &&& d.run_speed_bits == DEFAULT_RUN_SPEED_BITS
                    &&& d.walk_speed_bits == DEFAULT_WALK_SPEED_BITS
                    &&& d.findable == 1 && d.light == 0 && d.texture == 0 && d.helm_texture == 0
                    &&& d.guild_id == 0xFFFF_FFFF
                    &&& buf@ == #[trigger] spawn_struct_bytes(d)
                },
    {
        let data = SpawnData {
            spawn_id: self.player_spawn_id,
            name: self.char_name.clone(),
            last_name: pp.last_name.clone(),
            level: pp.level,
            race: pp.race,
            class_id: pp.class_id as u8,
            gender: pp.gender as u8,
            deity: pp.deity as u16,
            x_fixed,
            y_fixed,
            z_fixed,
            heading_fixed,
            size_bits: crate::zone_records::race_size(pp.race),
            npc_type: 0,
            cur_hp: 1,
            max_hp: 100,
            body_type: 0,
            run_speed_bits: DEFAULT_RUN_SPEED_BITS,
            walk_speed_bits: DEFAULT_WALK_SPEED_BITS,
            findable: 1,
            light: 0,
            texture: 0,
            helm_texture: 0,
            guild_id: 0xFFFF_FFFF,
        };
        build_spawn_struct(&data)
    }
}

} // verus!
