//! Fixed-layout message bodies of the Titanium client: little-endian
//! fields at fixed offsets in zero-filled buffers, the player-profile
//! checksum, the consider colour rule and the zone-entry name field.
use vstd::prelude::*;
use vstd::utf8::{decode_utf8, valid_utf8};

use vstd::utf8::encode_utf8;

use crate::bytes::{
    le16, le32, repeated, splice, text_field, write_bytes, write_repeated, write_str, write_u16_le,
    write_u32_le, write_u8, zeroed, zeros,
};
use crate::codec::{crc_register, crc_update};

verus! {

pub const SPAWN_STRUCT_SIZE: usize = 385;
pub const NEW_ZONE_STRUCT_SIZE: usize = 700;
pub const PLAYER_PROFILE_SIZE: usize = 19592;
pub const CLIENT_ZONE_ENTRY_SIZE: usize = 68;
pub const TIME_OF_DAY_SIZE: usize = 8;
pub const WEATHER_SIZE: usize = 12;
pub const SPAWN_APPEARANCE_SIZE: usize = 8;
pub const DEATH_STRUCT_SIZE: usize = 32;
pub const COMBAT_DAMAGE_SIZE: usize = 23;
pub const ANIMATION_SIZE: usize = 4;
pub const MOB_HEALTH_SIZE: usize = 3;
pub const MONEY_ON_CORPSE_SIZE: usize = 20;
pub const LOOT_ITEM_SIZE: usize = 16;

/// Time of day: hour, minute, day and year.
pub fn build_time_of_day(hour: u8, minute: u8, day: u16, year: u16) -> (buf: Vec<u8>)
    ensures
        buf@ == seq![hour, minute] + le16(day) + le16(year) + zeros(2),
{
    let mut buf = zeroed(TIME_OF_DAY_SIZE);
    write_u8(&mut buf, 0, hour);
    write_u8(&mut buf, 1, minute);
    write_u16_le(&mut buf, 2, day);
    write_u16_le(&mut buf, 4, year);
    assert(buf@ =~= seq![hour, minute] + le16(day) + le16(year) + zeros(2));
    buf
}

/// Weather: kind and intensity.
pub fn build_weather(weather_type: u32, intensity: u32) -> (buf: Vec<u8>)
    ensures
        buf@ == le32(weather_type) + le32(intensity) + zeros(4),
{
    let mut buf = zeroed(WEATHER_SIZE);
    write_u32_le(&mut buf, 0, weather_type);
    write_u32_le(&mut buf, 4, intensity);
    assert(buf@ =~= le32(weather_type) + le32(intensity) + zeros(4));
    buf
}

/// Spawn appearance change: the entity, the appearance kind (its low 16
/// bits) and the new value.
pub fn build_spawn_appearance(entity_id: u32, appearance_type: u32, value: u32) -> (buf: Vec<u8>)
    ensures
        buf@ == le32(entity_id) + le16(appearance_type as u16) + zeros(2) + le32(value),
{
    let mut buf = zeroed(12);
    write_u32_le(&mut buf, 0, entity_id);
    write_u16_le(&mut buf, 4, appearance_type as u16);
    write_u32_le(&mut buf, 8, value);
    assert(buf@ =~= le32(entity_id) + le16(appearance_type as u16) + zeros(2) + le32(value));
    buf
}

/// Death notice; the bind zone is always 0.
pub fn build_death_struct(
    spawn_id: u32,
    killer_id: u32,
    corpse_id: u32,
    damage: u32,
    spell_id: u32,
    attack_skill: u32,
) -> (buf: Vec<u8>)
    ensures
        buf@ == le32(spawn_id) + le32(killer_id) + le32(corpse_id) + le32(0) + le32(spell_id)
            + le32(attack_skill) + le32(damage) + zeros(4),
{
    let mut buf = zeroed(DEATH_STRUCT_SIZE);
    write_u32_le(&mut buf, 0, spawn_id);
    write_u32_le(&mut buf, 4, killer_id);
    write_u32_le(&mut buf, 8, corpse_id);
    write_u32_le(&mut buf, 12, 0);
    write_u32_le(&mut buf, 16, spell_id);
    write_u32_le(&mut buf, 20, attack_skill);
    write_u32_le(&mut buf, 24, damage);
    assert(buf@ =~= le32(spawn_id) + le32(killer_id) + le32(corpse_id) + le32(0) + le32(spell_id)
        + le32(attack_skill) + le32(damage) + zeros(4));
    buf
}

/// Combat damage notice. The three angles are the IEEE-754 bit patterns
/// of the single-precision values the client reads.
pub fn build_combat_damage(
    target: u16,
    source: u16,
    dmg_type: u8,
    spell_id: u16,
    damage: u32,
    force_bits: u32,
    hit_heading_bits: u32,
    hit_pitch_bits: u32,
) -> (buf: Vec<u8>)
    ensures
        buf@ == le16(target) + le16(source) + seq![dmg_type] + le16(spell_id) + le32(damage) + le32(
            force_bits,
        ) + le32(hit_heading_bits) + le32(hit_pitch_bits),
{
    let mut buf = zeroed(COMBAT_DAMAGE_SIZE);
    write_u16_le(&mut buf, 0, target);
    write_u16_le(&mut buf, 2, source);
    write_u8(&mut buf, 4, dmg_type);
    write_u16_le(&mut buf, 5, spell_id);
    write_u32_le(&mut buf, 7, damage);
    write_u32_le(&mut buf, 11, force_bits);
    write_u32_le(&mut buf, 15, hit_heading_bits);
    write_u32_le(&mut buf, 19, hit_pitch_bits);
    assert(buf@ =~= le16(target) + le16(source) + seq![dmg_type] + le16(spell_id) + le32(damage)
        + le32(force_bits) + le32(hit_heading_bits) + le32(hit_pitch_bits));
    buf
}

/// Animation: the spawn, the speed and the action.
pub fn build_animation(spawn_id: u16, speed: u8, action: u8) -> (buf: Vec<u8>)
    ensures
        buf@ == le16(spawn_id) + seq![speed, action],
{
    let mut buf = zeroed(ANIMATION_SIZE);
    write_u16_le(&mut buf, 0, spawn_id);
    write_u8(&mut buf, 2, speed);
    write_u8(&mut buf, 3, action);
    assert(buf@ =~= le16(spawn_id) + seq![speed, action]);
    buf
}

/// Health bar of a spawn, in percent.
pub fn build_mob_health(spawn_id: i16, hp_percent: u8) -> (buf: Vec<u8>)
    ensures
        buf@ == le16(spawn_id as u16) + seq![hp_percent],
{
    let mut buf = zeroed(MOB_HEALTH_SIZE);
    write_u16_le(&mut buf, 0, spawn_id as u16);
    write_u8(&mut buf, 2, hp_percent);
    assert(buf@ =~= le16(spawn_id as u16) + seq![hp_percent]);
    buf
}

/// Exact hit points of a spawn (two's complement on the wire).
pub fn build_hp_update(cur_hp: i32, max_hp: i32, spawn_id: i16) -> (buf: Vec<u8>)
    ensures
        buf@ == le32(cur_hp as u32) + le32(max_hp as u32) + le16(spawn_id as u16),
{
    let mut buf = zeroed(10);
    write_u32_le(&mut buf, 0, cur_hp as u32);
    write_u32_le(&mut buf, 4, max_hp as u32);
    write_u16_le(&mut buf, 8, spawn_id as u16);
    assert(buf@ =~= le32(cur_hp as u32) + le32(max_hp as u32) + le16(spawn_id as u16));
    buf
}

/// The two marker bytes after the response code of a corpse-money message.
pub open spec fn money_marker(response: u8) -> Seq<u8> {
    if response == 1 {
        seq![0x42u8, 0xefu8]
    } else {
        seq![0x5au8, 0x40u8]
    }
}

/// Money found on a corpse, with the response code and its marker bytes.
pub fn build_money_on_corpse(response: u8, platinum: u32, gold: u32, silver: u32, copper: u32) -> (buf:
    Vec<u8>)
    ensures
        buf@ == seq![response] + money_marker(response) + zeros(1) + le32(platinum) + le32(gold)
            + le32(silver) + le32(copper),
{
    let mut buf = zeroed(MONEY_ON_CORPSE_SIZE);
    write_u8(&mut buf, 0, response);
    if response == 1 {
        write_u8(&mut buf, 1, 0x42);
        write_u8(&mut buf, 2, 0xef);
    } else {
        write_u8(&mut buf, 1, 0x5a);
        write_u8(&mut buf, 2, 0x40);
    }
    write_u32_le(&mut buf, 4, platinum);
    write_u32_le(&mut buf, 8, gold);
    write_u32_le(&mut buf, 12, silver);
    write_u32_le(&mut buf, 16, copper);
    assert(buf@ =~= seq![response] + money_marker(response) + zeros(1) + le32(platinum) + le32(gold)
        + le32(silver) + le32(copper));
    buf
}

/// Loot request or response for one corpse slot.
pub fn build_loot_item(lootee: u32, looter: u32, slot_id: u16, auto_loot: i32) -> (buf: Vec<u8>)
    ensures
        buf@ == le32(lootee) + le32(looter) + le16(slot_id) + zeros(2) + le32(auto_loot as u32),
{
    let mut buf = zeroed(LOOT_ITEM_SIZE);
    write_u32_le(&mut buf, 0, lootee);
    write_u32_le(&mut buf, 4, looter);
    write_u16_le(&mut buf, 8, slot_id);
    write_u32_le(&mut buf, 12, auto_loot as u32);
    assert(buf@ =~= le32(lootee) + le32(looter) + le16(slot_id) + zeros(2) + le32(
        auto_loot as u32,
    ));
    buf
}

pub const CON_GREEN: u32 = 2;
pub const CON_DARK_BLUE: u32 = 4;
pub const CON_RED: u32 = 13;
pub const CON_YELLOW: u32 = 15;
pub const CON_LIGHT_BLUE: u32 = 18;
pub const CON_WHITE: u32 = 20;

/// The colour a Titanium client shows when a player of `player` level
/// considers a target of `target` level. The client has no grey, so
/// targets too weak to matter show green.
pub open spec fn con_color(player: u8, target: u8) -> u32 {
    let diff = target as int - player as int;
    let my = player as int;
    let other = target as int;
    let gray_lvl = my - (my + 5) / 3;
    let green_lvl = my - (my + 7) / 4;
    if diff == 0 {
        CON_WHITE
    } else if 1 <= diff <= 3 {
        CON_YELLOW
    } else if diff >= 4 {
        CON_RED
    } else if my <= 15 {
        if diff <= -6 {
            CON_GREEN
        } else {
            CON_DARK_BLUE
        }
    } else if my <= 20 {
        if other <= green_lvl || other <= gray_lvl {
            CON_GREEN
        } else {
            CON_DARK_BLUE
        }
    } else if other <= gray_lvl || other <= green_lvl {
        CON_GREEN
    } else if diff <= -6 {
        CON_LIGHT_BLUE
    } else {
        CON_DARK_BLUE
    }
}

/// The consider colour of a target, as the Titanium client numbers them.
pub fn get_con_color_titanium(player_level: u8, target_level: u8) -> (c: u32)
    ensures
        c == con_color(player_level, target_level),
{
    let diff: i16 = target_level as i16 - player_level as i16;
    if diff == 0 {
        return CON_WHITE;
    } else if diff >= 1 && diff <= 3 {
        return CON_YELLOW;
    } else if diff >= 4 {
        return CON_RED;
    }
    let my: i32 = player_level as i32;
    let other: i32 = target_level as i32;
    let con_gray_lvl: i32 = my - (my + 5) / 3;
    let con_green_lvl: i32 = my - (my + 7) / 4;
    if my <= 15 {
        if diff <= -6 {
            CON_GREEN
        } else {
            CON_DARK_BLUE
        }
    } else if my <= 20 {
        if other <= con_gray_lvl {
            CON_GREEN
        } else if other <= con_green_lvl {
            CON_GREEN
        } else {
            CON_DARK_BLUE
        }
    } else {
        if other <= con_gray_lvl {
            CON_GREEN
        } else if other <= con_green_lvl {
            CON_GREEN
        } else if diff <= -6 {
            CON_LIGHT_BLUE
        } else {
            CON_DARK_BLUE
        }
    }
}

/// A target of the player's own level cons white; one to three levels
/// above cons yellow and four or more above cons red; any lower target
/// cons green, dark blue or light blue. At level 15 and below it is
/// green exactly when it is six or more levels lower; above that it is
/// green exactly when it is at or below the green or the grey level
/// (`player - (player + 7) / 4`, `player - (player + 5) / 3`). Light blue
/// is only for players above level 20, for a target above both levels
/// and six or more levels lower; every other lower target is dark blue.
pub proof fn law_con_color_bands(player: u8, target: u8)
    ensures
        target == player ==> con_color(player, target) == CON_WHITE,
        player < target <= player + 3 ==> con_color(player, target) == CON_YELLOW,
        target >= player + 4 ==> con_color(player, target) == CON_RED,
        target < player ==> (con_color(player, target) == CON_GREEN || con_color(player, target)
            == CON_DARK_BLUE || con_color(player, target) == CON_LIGHT_BLUE),
        target < player && player <= 15 ==> (con_color(player, target) == CON_GREEN
            <==> target + 6 <= player),
        target < player && 16 <= player <= 20 ==> (con_color(player, target) == CON_GREEN <==> (target
            <= player - (player + 7) / 4 || target <= player - (player + 5) / 3)),
        target < player && player <= 20 ==> con_color(player, target) != CON_LIGHT_BLUE,
        target < player && player > 20 ==> (con_color(player, target) == CON_GREEN <==> (target <= player
            - (player + 7) / 4 || target <= player - (player + 5) / 3)),
        target < player && player > 20 && target > player - (player + 7) / 4 && target > player - (player
            + 5) / 3 ==> (con_color(player, target) == CON_LIGHT_BLUE <==> target + 6 <= player),
{
}

/// Where the name ends in the zone-entry name field `name`: at its first
/// NUL byte, or after at most 64 bytes when it has none.
pub open spec fn name_end(name: Seq<u8>) -> int {
    if exists|i: int| 0 <= i < name.len() && name[i] == 0 {
        choose|i: int|
            0 <= i < name.len() && name[i] == 0 && forall|j: int| 0 <= j < i ==> name[j] != 0
    } else if name.len() < 64 {
        name.len() as int
    } else {
        64
    }
}

/// The name bytes of a zone-entry request: what follows the first four
/// bytes, up to where the name ends.
pub open spec fn zone_entry_name_bytes(data: Seq<u8>) -> Seq<u8> {
    let name = data.skip(4);
    name.take(name_end(name))
}

/// What `String::from_utf8_lossy` makes of some bytes.
pub uninterp spec fn utf8_lossy(bytes: Seq<u8>) -> Seq<char>;

/// `String::from_utf8_lossy`: decodes the bytes, replacing each invalid
/// sequence with U+FFFD. The contract names the result and states, as the
/// documentation does, that valid UTF-8 is decoded unchanged; how invalid
/// sequences are replaced is left unsaid.
#[verifier::external_body]
pub(crate) fn string_from_utf8_lossy(bytes: &[u8]) -> (s: String)
    ensures
        s@ == utf8_lossy(bytes@),
        valid_utf8(bytes@) ==> s@ == decode_utf8(bytes@),
{
    String::from_utf8_lossy(bytes).into_owned()
}

/// The character name in a zone-entry request, or "Unknown" when the
/// request is shorter than five bytes.
pub fn extract_zone_entry_name(data: &[u8]) -> (name: String)
    ensures
        data@.len() < 5 ==> name@ == "Unknown"@,
        data@.len() >= 5 ==> name@ == utf8_lossy(zone_entry_name_bytes(data@)),
{
    if data.len() < 5 {
        return "Unknown".to_owned();
    }
    let ghost name = data@.skip(4);
    let n = data.len() - 4;
    let mut i: usize = 0;
    while i < n
        invariant_except_break
            i <= n,
            n == name.len(),
            n + 4 == data@.len(),
            data@.len() <= usize::MAX,
            name == data@.skip(4),
            forall|j: int| 0 <= j < i ==> name[j] != 0,
        ensures
            i <= n,
            forall|j: int| 0 <= j < i ==> name[j] != 0,
            i < n ==> name[i as int] == 0,
        decreases n - i,
    {
        if data[4 + i] == 0 {
            break;
        }
        i = i + 1;
    }
    let end: usize = if i < n {
        i
    } else if n < 64 {
        n
    } else {
        64
    };
    proof {
        if i < n {
            assert(name[i as int] == 0);
            let c = choose|k: int|
                0 <= k < name.len() && name[k] == 0 && forall|j: int| 0 <= j < k ==> name[j] != 0;
            assert(0 <= c < name.len() && name[c] == 0 && forall|j: int| 0 <= j < c ==> name[j] != 0);
            if c < i {
                assert(name[c] != 0);
            }
            if c > i {
                assert(name[i as int] != 0);
            }
            assert(name_end(name) == i);
        } else {
            assert(!exists|k: int| 0 <= k < name.len() && name[k] == 0);
        }
    }
    let field = vstd::slice::slice_subrange(data, 4, 4 + end);
    assert(field@ =~= zone_entry_name_bytes(data@));
    string_from_utf8_lossy(field)
}

/// The player-profile checksum of `buf`: the CRC-32 register, without the
/// final inversion, over all but the first and last four bytes.
pub open spec fn pp_checksum(buf: Seq<u8>) -> u32 {
    crc_register(0xFFFF_FFFF, buf.subrange(4, buf.len() - 4))
}

/// The player-profile checksum of a buffer of at least eight bytes.
pub fn profile_checksum(buf: &[u8]) -> (c: u32)
    requires
        buf@.len() >= 8,
    ensures
        c == pp_checksum(buf@),
{
    let end = buf.len() - 4;
    let mut check: u32 = 0xFFFF_FFFF;
    let mut i: usize = 4;
    while i < end
        invariant
            4 <= i <= end,
            end == buf@.len() - 4,
            check == crc_register(0xFFFF_FFFF, buf@.subrange(4, i as int)),
        decreases end - i,
    {
        let b = buf[i];
        proof {
            let s = buf@.subrange(4, i as int + 1);
            assert(s.drop_last() =~= buf@.subrange(4, i as int));
            assert(s.last() == b);
        }
        check = crc_update(check, b);
        i = i + 1;
    }
    check
}

/// Rewrites the checksum in the first four bytes of a player profile.
pub fn recompute_pp_checksum(buf: &mut [u8])
    requires
        old(buf)@.len() >= 8,
    ensures
        final(buf)@ == splice(old(buf)@, 0, le32(pp_checksum(old(buf)@))),
{
    let check = profile_checksum(buf);
    buf[0] = (check & 0xff) as u8;
    buf[1] = ((check >> 8) & 0xff) as u8;
    buf[2] = ((check >> 16) & 0xff) as u8;
    buf[3] = ((check >> 24) & 0xff) as u8;
    assert(buf@ =~= splice(old(buf)@, 0, le32(check)));
}

/// What a spawn message says of an entity. Positions are fixed-point:
/// `x_fixed`, `y_fixed` and `z_fixed` are eighths of a unit, and
/// `heading_fixed` is the heading in 4096ths of a turn. `size_bits`,
/// `run_speed_bits` and `walk_speed_bits` are the IEEE-754 bit patterns of
/// the single-precision values the client reads.
pub struct SpawnData {
    pub spawn_id: u32,
    pub name: String,
    pub last_name: String,
    pub level: u8,
    pub race: u32,
    pub class_id: u8,
    pub gender: u8,
    pub deity: u16,
    pub x_fixed: i32,
    pub y_fixed: i32,
    pub z_fixed: i32,
    pub heading_fixed: u32,
    pub size_bits: u32,
    pub npc_type: u8,
    pub cur_hp: u8,
    pub max_hp: u8,
    pub body_type: u8,
    pub run_speed_bits: u32,
    pub walk_speed_bits: u32,
    pub findable: u8,
    pub light: u8,
    pub texture: u8,
    pub helm_texture: u8,
    pub guild_id: u32,
}

/// First position word: the x coordinate as a 19-bit field above a 10-bit
/// heading delta.
pub open spec fn position_word0(x_fixed: i32) -> u32 {
    ((x_fixed as u32) & 0x7FFFF) << 10u32
}

/// Second position word: the y coordinate in the low 19 bits.
pub open spec fn position_word1(y_fixed: i32) -> u32 {
    (y_fixed as u32) & 0x7FFFF
}

/// Third position word: the z coordinate in the low 19 bits.
pub open spec fn position_word2(z_fixed: i32) -> u32 {
    (z_fixed as u32) & 0x7FFFF
}

/// Fourth position word: the 12-bit heading above a 13-bit x delta.
pub open spec fn position_word3(heading_fixed: u32) -> u32 {
    (heading_fixed & 0xFFF) << 13u32
}

/// The spawn message for `d`: each field at its offset in a zero-filled
/// buffer of `SPAWN_STRUCT_SIZE` bytes, the helmet shown, the eight
/// always-0xFF bytes at 276 set, and the NPC flag at 144 set for NPCs.
#[verifier::opaque]
pub open spec fn spawn_struct_bytes(d: SpawnData) -> Seq<u8> {
    let b = zeros(385);
    let b = splice(b, 7, text_field(encode_utf8(d.name@), 64));
    let b = splice(b, 71, le16(d.deity));
    let b = splice(b, 75, le32(d.size_bits));
    let b = splice(b, 83, seq![d.npc_type]);
    let b = splice(b, 86, seq![d.cur_hp]);
    let b = splice(b, 87, seq![d.max_hp]);
    let b = splice(b, 88, seq![d.findable]);
    let b = splice(b, 94, le32(position_word0(d.x_fixed)));
    let b = splice(b, 98, le32(position_word1(d.y_fixed)));
    let b = splice(b, 102, le32(position_word2(d.z_fixed)));
    let b = splice(b, 106, le32(position_word3(d.heading_fixed)));
    let b = splice(b, 110, le32(0));
    let b = splice(b, 139, seq![1u8]);
    let b = if d.npc_type != 0 {
        splice(b, 144, seq![1u8])
    } else {
        b
    };
    let b = splice(b, 151, seq![d.level]);
    let b = splice(b, 233, le32(d.run_speed_bits));
    let b = splice(b, 238, le32(d.guild_id));
    let b = splice(b, 275, seq![d.helm_texture]);
    let b = splice(b, 276, repeated(0xFF, 8));
    let b = splice(b, 284, le32(d.race));
    let b = splice(b, 292, text_field(encode_utf8(d.last_name@), 32));
    let b = splice(b, 324, le32(d.walk_speed_bits));
    let b = splice(b, 330, seq![d.light]);
    let b = splice(b, 331, seq![d.class_id]);
    let b = splice(b, 334, seq![d.gender]);
    let b = splice(b, 335, seq![d.body_type]);
    splice(b, 340, le32(d.spawn_id))
}

/// The spawn message that makes a client show an entity.
pub fn build_spawn_struct(data: &SpawnData) -> (buf: Vec<u8>)
    ensures
        buf@ == spawn_struct_bytes(*data),
{
    let mut buf = zeroed(SPAWN_STRUCT_SIZE);
    write_str(&mut buf, 7, data.name.as_str(), 64);
    write_u16_le(&mut buf, 71, data.deity);
    write_u32_le(&mut buf, 75, data.size_bits);
    write_u8(&mut buf, 83, data.npc_type);
    write_u8(&mut buf, 86, data.cur_hp);
    write_u8(&mut buf, 87, data.max_hp);
    write_u8(&mut buf, 88, data.findable);
    let word0: u32 = ((data.x_fixed as u32) & 0x7FFFF) << 10u32;
    let word1: u32 = (data.y_fixed as u32) & 0x7FFFF;
    let word2: u32 = (data.z_fixed as u32) & 0x7FFFF;
    let word3: u32 = (data.heading_fixed & 0xFFF) << 13u32;
    write_u32_le(&mut buf, 94, word0);
    write_u32_le(&mut buf, 98, word1);
    write_u32_le(&mut buf, 102, word2);
    write_u32_le(&mut buf, 106, word3);
    write_u32_le(&mut buf, 110, 0);
    write_u8(&mut buf, 139, 1);
    if data.npc_type != 0 {
        write_u8(&mut buf, 144, 1);
    }
    write_u8(&mut buf, 151, data.level);
    write_u32_le(&mut buf, 233, data.run_speed_bits);
    write_u32_le(&mut buf, 238, data.guild_id);
    write_u8(&mut buf, 275, data.helm_texture);
    write_repeated(&mut buf, 276, 8, 0xFF);
    write_u32_le(&mut buf, 284, data.race);
    write_str(&mut buf, 292, data.last_name.as_str(), 32);
    write_u32_le(&mut buf, 324, data.walk_speed_bits);
    write_u8(&mut buf, 330, data.light);
    write_u8(&mut buf, 331, data.class_id);
    write_u8(&mut buf, 334, data.gender);
    write_u8(&mut buf, 335, data.body_type);
    write_u32_le(&mut buf, 340, data.spawn_id);
    proof {
        reveal(spawn_struct_bytes);
    }
    buf
}

/// What a new-zone message says of a zone. `*_bits` fields are the
/// IEEE-754 bit patterns of the single-precision values the client reads.
pub struct ZoneData {
    pub short_name: String,
    pub long_name: String,
    pub zone_id: u16,
    pub safe_x_bits: u32,
    pub safe_y_bits: u32,
    pub safe_z_bits: u32,
    pub minclip_bits: u32,
    pub maxclip_bits: u32,
    pub fog_minclip_bits: [u32; 4],
    pub fog_maxclip_bits: [u32; 4],
    pub fog_red: [u8; 4],
    pub fog_green: [u8; 4],
    pub fog_blue: [u8; 4],
    pub fog_density_bits: u32,
    pub sky: u8,
    pub ztype: u8,
    pub zone_exp_multiplier_bits: u32,
    pub gravity_bits: u32,
    pub time_type: u8,
    pub rain_chance: [u8; 4],
    pub rain_duration: [u8; 4],
    pub snow_chance: [u8; 4],
    pub snow_duration: [u8; 4],
    pub underworld_bits: u32,
    pub max_z_bits: u32,
}

/// The new-zone message for character `char_name` entering zone `zd`: each
/// field at its offset in a zero-filled buffer of `NEW_ZONE_STRUCT_SIZE`
/// bytes. The fog density is not sent.
pub open spec fn new_zone_bytes(char_name: Seq<char>, zd: ZoneData) -> Seq<u8> {
    let b = zeros(700);
    let b = splice(b, 0, text_field(encode_utf8(char_name), 64));
    let b = splice(b, 64, text_field(encode_utf8(zd.short_name@), 32));
    let b = splice(b, 96, text_field(encode_utf8(zd.long_name@), 278));
    let b = splice(b, 374, seq![zd.ztype]);
    let b = splice(b, 375, zd.fog_red@);
    let b = splice(b, 379, zd.fog_green@);
    let b = splice(b, 383, zd.fog_blue@);
    let b = splice(b, 388, le32(zd.fog_minclip_bits[0]));
    let b = splice(b, 392, le32(zd.fog_minclip_bits[1]));
    let b = splice(b, 396, le32(zd.fog_minclip_bits[2]));
    let b = splice(b, 400, le32(zd.fog_minclip_bits[3]));
    let b = splice(b, 404, le32(zd.fog_maxclip_bits[0]));
    let b = splice(b, 408, le32(zd.fog_maxclip_bits[1]));
    let b = splice(b, 412, le32(zd.fog_maxclip_bits[2]));
    let b = splice(b, 416, le32(zd.fog_maxclip_bits[3]));
    let b = splice(b, 420, le32(zd.gravity_bits));
    let b = splice(b, 424, seq![zd.time_type]);
    let b = splice(b, 425, zd.rain_chance@);
    let b = splice(b, 429, zd.rain_duration@);
    let b = splice(b, 433, zd.snow_chance@);
    let b = splice(b, 437, zd.snow_duration@);
    let b = splice(b, 474, seq![zd.sky]);
    let b = splice(b, 488, le32(zd.zone_exp_multiplier_bits));
    let b = splice(b, 492, le32(zd.safe_y_bits));
    let b = splice(b, 496, le32(zd.safe_x_bits));
    let b = splice(b, 500, le32(zd.safe_z_bits));
    let b = splice(b, 504, le32(zd.max_z_bits));
    let b = splice(b, 508, le32(zd.underworld_bits));
    let b = splice(b, 512, le32(zd.minclip_bits));
    let b = splice(b, 516, le32(zd.maxclip_bits));
    let b = splice(b, 604, text_field(encode_utf8(zd.short_name@), 68));
    splice(b, 684, le16(zd.zone_id))
}

/// The new-zone message that describes the zone a character enters.
pub fn build_new_zone_struct(char_name: &str, zd: &ZoneData) -> (buf: Vec<u8>)
    ensures
        buf@ == new_zone_bytes(char_name@, *zd),
{
    let mut buf = zeroed(NEW_ZONE_STRUCT_SIZE);
    write_str(&mut buf, 0, char_name, 64);
    write_str(&mut buf, 64, zd.short_name.as_str(), 32);
    write_str(&mut buf, 96, zd.long_name.as_str(), 278);
    write_u8(&mut buf, 374, zd.ztype);
    write_bytes(&mut buf, 375, zd.fog_red.as_slice());
    write_bytes(&mut buf, 379, zd.fog_green.as_slice());
    write_bytes(&mut buf, 383, zd.fog_blue.as_slice());
    write_u32_le(&mut buf, 388, zd.fog_minclip_bits[0]);
    write_u32_le(&mut buf, 392, zd.fog_minclip_bits[1]);
    write_u32_le(&mut buf, 396, zd.fog_minclip_bits[2]);
    write_u32_le(&mut buf, 400, zd.fog_minclip_bits[3]);
    write_u32_le(&mut buf, 404, zd.fog_maxclip_bits[0]);
    write_u32_le(&mut buf, 408, zd.fog_maxclip_bits[1]);
    write_u32_le(&mut buf, 412, zd.fog_maxclip_bits[2]);
    write_u32_le(&mut buf, 416, zd.fog_maxclip_bits[3]);
    write_u32_le(&mut buf, 420, zd.gravity_bits);
    write_u8(&mut buf, 424, zd.time_type);
    write_bytes(&mut buf, 425, zd.rain_chance.as_slice());
    write_bytes(&mut buf, 429, zd.rain_duration.as_slice());
    write_bytes(&mut buf, 433, zd.snow_chance.as_slice());
    write_bytes(&mut buf, 437, zd.snow_duration.as_slice());
    write_u8(&mut buf, 474, zd.sky);
    write_u32_le(&mut buf, 488, zd.zone_exp_multiplier_bits);
    write_u32_le(&mut buf, 492, zd.safe_y_bits);
    write_u32_le(&mut buf, 496, zd.safe_x_bits);
    write_u32_le(&mut buf, 500, zd.safe_z_bits);
    write_u32_le(&mut buf, 504, zd.max_z_bits);
    write_u32_le(&mut buf, 508, zd.underworld_bits);
    write_u32_le(&mut buf, 512, zd.minclip_bits);
    write_u32_le(&mut buf, 516, zd.maxclip_bits);
    write_str(&mut buf, 604, zd.short_name.as_str(), 68);
    write_u16_le(&mut buf, 684, zd.zone_id);
    buf
}

/// What a player profile says of a character. `*_bits` fields are the
/// IEEE-754 bit patterns of the single-precision values the client reads.
pub struct PlayerProfileData {
    pub name: String,
    pub last_name: String,
    pub race: u32,
    pub class_id: u32,
    pub level: u8,
    pub gender: u32,
    pub deity: u32,
    pub x_bits: u32,
    pub y_bits: u32,
    pub z_bits: u32,
    pub heading_bits: u32,
    pub zone_id: u16,
    pub face: u8,
    pub hair_color: u8,
    pub beard_color: u8,
    pub eye_color_1: u8,
    pub eye_color_2: u8,
    pub hair_style: u8,
    pub beard: u8,
    pub entity_id: u32,
}

/// The 57 bytes the client requires at offset 12864 of a player profile.
pub open spec fn pp_magic() -> Seq<u8> {
    seq![
        0x78u8, 0x03u8, 0x00u8, 0x00u8, 0x1Au8, 0x04u8, 0x00u8, 0x00u8,
        0x1Au8, 0x04u8, 0x00u8, 0x00u8, 0x19u8, 0x00u8, 0x00u8, 0x00u8,
        0x19u8, 0x00u8, 0x00u8, 0x00u8, 0x19u8, 0x00u8, 0x00u8, 0x00u8,
        0x0Fu8, 0x00u8, 0x00u8, 0x00u8, 0x0Fu8, 0x00u8, 0x00u8, 0x00u8,
        0x0Fu8, 0x00u8, 0x00u8, 0x00u8, 0x1Fu8, 0x85u8, 0xEBu8, 0x3Eu8,
        0x33u8, 0x33u8, 0x33u8, 0x3Fu8, 0x09u8, 0x00u8, 0x00u8, 0x00u8,
        0x02u8, 0x00u8, 0x00u8, 0x00u8, 0x01u8, 0x00u8, 0x00u8, 0x00u8,
        0x14u8,
    ]
}

/// A player profile before its checksum: each field at its offset in a
/// zero-filled buffer of `PLAYER_PROFILE_SIZE` bytes, the primary and home
/// binds at the character's position, full hit points, hunger and thirst,
/// all seven base stats at 75, empty spell book and spell gems (0xFF),
/// no guild, all expansions, and the helmet shown.
#[verifier::opaque]
pub open spec fn player_profile_body(pp: PlayerProfileData) -> Seq<u8> {
    let b = zeros(19592);
    let b = splice(b, 4, le32(pp.gender));
    let b = splice(b, 8, le32(pp.race));
    let b = splice(b, 12, le32(pp.class_id));
    let b = splice(b, 20, seq![pp.level]);
    let b = splice(b, 21, seq![pp.level]);
    let b = splice(b, 24, le32(pp.zone_id as u32));
    let b = splice(b, 28, le32(pp.x_bits));
    let b = splice(b, 32, le32(pp.y_bits));
    let b = splice(b, 36, le32(pp.z_bits));
    let b = splice(b, 40, le32(pp.heading_bits));
    let b = splice(b, 104, le32(pp.zone_id as u32));
    let b = splice(b, 108, le32(pp.x_bits));
    let b = splice(b, 112, le32(pp.y_bits));
    let b = splice(b, 116, le32(pp.z_bits));
    let b = splice(b, 120, le32(pp.heading_bits));
    let b = splice(b, 124, le32(pp.deity));
    let b = splice(b, 172, seq![pp.hair_color]);
    let b = splice(b, 173, seq![pp.beard_color]);
    let b = splice(b, 174, seq![pp.eye_color_1]);
    let b = splice(b, 175, seq![pp.eye_color_2]);
    let b = splice(b, 176, seq![pp.hair_style]);
    let b = splice(b, 177, seq![pp.beard]);
    let b = splice(b, 2232, le32(1000));
    let b = splice(b, 2236, le32(75));
    let b = splice(b, 2240, le32(75));
    let b = splice(b, 2244, le32(75));
    let b = splice(b, 2248, le32(75));
    let b = splice(b, 2252, le32(75));
    let b = splice(b, 2256, le32(75));
    let b = splice(b, 2260, le32(75));
    let b = splice(b, 2264, seq![pp.face]);
    let b = splice(b, 2312, repeated(0xFF, 1600));
    let b = splice(b, 3912, repeated(0xFF, 448));
    let b = splice(b, 4360, repeated(0xFF, 36));
    let b = splice(b, 4396, repeated(0xFF, 32));
    let b = splice(b, 5000, le32(6000));
    let b = splice(b, 5004, le32(6000));
    let b = splice(b, 12860, le32(0xFFFF_FFFF));
    let b = splice(b, 12864, pp_magic());
    let b = splice(b, 12940, text_field(encode_utf8(pp.name@), 64));
    let b = splice(b, 13004, text_field(encode_utf8(pp.last_name@), 32));
    let b = splice(b, 13036, le32(0xFFFF_FFFF));
    let b = splice(b, 13116, le32(pp.x_bits));
    let b = splice(b, 13120, le32(pp.y_bits));
    let b = splice(b, 13124, le32(pp.z_bits));
    let b = splice(b, 13128, le32(pp.heading_bits));
    let b = splice(b, 13240, le32(0x7FFF));
    let b = splice(b, 13276, le16(pp.zone_id));
    let b = splice(b, 14384, le32(pp.entity_id));
    let b = splice(b, 14900, le32(60));
    let b = splice(b, 19576, le32(pp.level as u32));
    splice(b, 19580, le32(1))
}

/// A player profile: its body with the checksum of the body in the first
/// four bytes.
pub open spec fn player_profile_bytes(pp: PlayerProfileData) -> Seq<u8> {
    let b = player_profile_body(pp);
    splice(b, 0, le32(pp_checksum(b)))
}

/// The player profile that describes the character a client plays.
pub fn build_player_profile_full(pp: &PlayerProfileData) -> (buf: Vec<u8>)
    ensures
        buf@ == player_profile_bytes(*pp),
        buf@.len() == PLAYER_PROFILE_SIZE,
        buf@[20] == pp.level,
        buf@[21] == pp.level,
        buf@.subrange(13276, 13278) == le16(pp.zone_id),
        buf@.subrange(14384, 14388) == le32(pp.entity_id),
{
    broadcast use lemma_splice_index;
    let mut buf = zeroed(PLAYER_PROFILE_SIZE);
    write_u32_le(&mut buf, 4, pp.gender);
    write_u32_le(&mut buf, 8, pp.race);
    write_u32_le(&mut buf, 12, pp.class_id);
    write_u8(&mut buf, 20, pp.level);
    write_u8(&mut buf, 21, pp.level);
    write_u32_le(&mut buf, 24, pp.zone_id as u32);
    write_u32_le(&mut buf, 28, pp.x_bits);
    write_u32_le(&mut buf, 32, pp.y_bits);
    write_u32_le(&mut buf, 36, pp.z_bits);
    write_u32_le(&mut buf, 40, pp.heading_bits);
    write_u32_le(&mut buf, 104, pp.zone_id as u32);
    write_u32_le(&mut buf, 108, pp.x_bits);
    write_u32_le(&mut buf, 112, pp.y_bits);
    write_u32_le(&mut buf, 116, pp.z_bits);
    write_u32_le(&mut buf, 120, pp.heading_bits);
    write_u32_le(&mut buf, 124, pp.deity);
    write_u8(&mut buf, 172, pp.hair_color);
    write_u8(&mut buf, 173, pp.beard_color);
    write_u8(&mut buf, 174, pp.eye_color_1);
    write_u8(&mut buf, 175, pp.eye_color_2);
    write_u8(&mut buf, 176, pp.hair_style);
    write_u8(&mut buf, 177, pp.beard);
    write_u32_le(&mut buf, 2232, 1000);
    write_u32_le(&mut buf, 2236, 75);
    write_u32_le(&mut buf, 2240, 75);
    write_u32_le(&mut buf, 2244, 75);
    write_u32_le(&mut buf, 2248, 75);
    write_u32_le(&mut buf, 2252, 75);
    write_u32_le(&mut buf, 2256, 75);
    write_u32_le(&mut buf, 2260, 75);
    write_u8(&mut buf, 2264, pp.face);
    write_repeated(&mut buf, 2312, 1600, 0xFF);
    write_repeated(&mut buf, 3912, 448, 0xFF);
    write_repeated(&mut buf, 4360, 36, 0xFF);
    write_repeated(&mut buf, 4396, 32, 0xFF);
    write_u32_le(&mut buf, 5000, 6000);
    write_u32_le(&mut buf, 5004, 6000);
    write_u32_le(&mut buf, 12860, 0xFFFF_FFFF);
    let magic: [u8; 57] = [
        0x78u8, 0x03u8, 0x00u8, 0x00u8, 0x1Au8, 0x04u8, 0x00u8, 0x00u8,
        0x1Au8, 0x04u8, 0x00u8, 0x00u8, 0x19u8, 0x00u8, 0x00u8, 0x00u8,
        0x19u8, 0x00u8, 0x00u8, 0x00u8, 0x19u8, 0x00u8, 0x00u8, 0x00u8,
        0x0Fu8, 0x00u8, 0x00u8, 0x00u8, 0x0Fu8, 0x00u8, 0x00u8, 0x00u8,
        0x0Fu8, 0x00u8, 0x00u8, 0x00u8, 0x1Fu8, 0x85u8, 0xEBu8, 0x3Eu8,
        0x33u8, 0x33u8, 0x33u8, 0x3Fu8, 0x09u8, 0x00u8, 0x00u8, 0x00u8,
        0x02u8, 0x00u8, 0x00u8, 0x00u8, 0x01u8, 0x00u8, 0x00u8, 0x00u8,
        0x14u8,
    ];
    assert(magic@ =~= pp_magic());
    write_bytes(&mut buf, 12864, magic.as_slice());
    write_str(&mut buf, 12940, pp.name.as_str(), 64);
    write_str(&mut buf, 13004, pp.last_name.as_str(), 32);
    write_u32_le(&mut buf, 13036, 0xFFFF_FFFF);
    write_u32_le(&mut buf, 13116, pp.x_bits);
    write_u32_le(&mut buf, 13120, pp.y_bits);
    write_u32_le(&mut buf, 13124, pp.z_bits);
    write_u32_le(&mut buf, 13128, pp.heading_bits);
    write_u32_le(&mut buf, 13240, 0x7FFF);
    write_u16_le(&mut buf, 13276, pp.zone_id);
    write_u32_le(&mut buf, 14384, pp.entity_id);
    write_u32_le(&mut buf, 14900, 60);
    write_u32_le(&mut buf, 19576, pp.level as u32);
    write_u32_le(&mut buf, 19580, 1);
    assert(buf@.subrange(13276, 13278) =~= le16(pp.zone_id));
    assert(buf@.subrange(14384, 14388) =~= le32(pp.entity_id));
    let ghost body = buf@;
    assert(body == player_profile_body(*pp)) by {
        reveal(player_profile_body);
    }
    let check = profile_checksum(buf.as_slice());
    write_u32_le(&mut buf, 0, check);
    assert(buf@.subrange(13276, 13278) =~= body.subrange(13276, 13278));
    assert(buf@.subrange(14384, 14388) =~= body.subrange(14384, 14388));
    buf
}

/// Writing bytes inside a buffer changes only the bytes written.
broadcast proof fn lemma_splice_index(buf: Seq<u8>, off: int, bytes: Seq<u8>, i: int)
    requires
        0 <= off,
        off + bytes.len() <= buf.len(),
        0 <= i < buf.len(),
    ensures
        #[trigger] splice(buf, off, bytes)[i] == if off <= i < off + bytes.len() {
            bytes[i - off]
        } else {
            buf[i]
        },
{
}

/// Writing bytes inside a buffer keeps its length.
broadcast proof fn lemma_splice_len(buf: Seq<u8>, off: int, bytes: Seq<u8>)
    requires
        0 <= off,
        off + bytes.len() <= buf.len(),
    ensures
        #[trigger] splice(buf, off, bytes).len() == buf.len(),
{
}

#[verifier::rlimit(50)]
proof fn lemma_profile_body_len(pp: PlayerProfileData)
    ensures
        player_profile_body(pp).len() == 19592,
{
    broadcast use lemma_splice_len;
    reveal(player_profile_body);
}

/// Law: a freshly built player profile is `PLAYER_PROFILE_SIZE` bytes long
/// and already carries a consistent checksum: recomputing it changes nothing.
pub proof fn law_built_profile_checksum(pp: PlayerProfileData)
    ensures
        player_profile_bytes(pp).len() == 19592,
        splice(player_profile_bytes(pp), 0, le32(pp_checksum(player_profile_bytes(pp))))
            == player_profile_bytes(pp),
{
    let body = player_profile_body(pp);
    lemma_profile_body_len(pp);
    let b = player_profile_bytes(pp);
    assert(b.subrange(4, b.len() - 4) =~= body.subrange(4, body.len() - 4));
    assert(splice(b, 0, le32(pp_checksum(b))) =~= b);
}

/// The player profile of a new character: no last name, deity, heading,
/// face or hair, and entity id 0. The zone id is cut to its low 16 bits.
pub fn build_player_profile(
    name: &str,
    race: u32,
    class_id: u32,
    level: u8,
    gender: u32,
    x_bits: u32,
    y_bits: u32,
    z_bits: u32,
    zone_id: u32,
) -> (buf: Vec<u8>)
    ensures
        exists|pp: PlayerProfileData|
            {
                &&& pp.name@ == name@
                &&& pp.last_name@ == Seq::<char>::empty()
                &&& pp.race == race
                &&& pp.class_id == class_id
                &&& pp.level == level
                &&& pp.gender == gender
                &&& pp.deity == 0
                &&& pp.x_bits == x_bits
                &&& pp.y_bits == y_bits
                &&& pp.z_bits == z_bits
                &&& pp.heading_bits == 0
                &&& pp.zone_id == zone_id as u16
                &&& pp.face == 0
                &&& pp.hair_color == 0
                &&& pp.beard_color == 0
                &&& pp.eye_color_1 == 0
                &&& pp.eye_color_2 == 0
                &&& pp.hair_style == 0
                &&& pp.beard == 0
                &&& pp.entity_id == 0
                &&& buf@ == #[trigger] player_profile_bytes(pp)
            },
{
    let pp = PlayerProfileData {
        name: name.to_owned(),
        last_name: String::new(),
        race,
        class_id,
        level,
        gender,
        deity: 0,
        x_bits,
        y_bits,
        z_bits,
        heading_bits: 0,
        zone_id: zone_id as u16,
        face: 0,
        hair_color: 0,
        beard_color: 0,
        eye_color_1: 0,
        eye_color_2: 0,
        hair_style: 0,
        beard: 0,
        entity_id: 0,
    };
    let buf = build_player_profile_full(&pp);
    assert(pp.last_name@ =~= Seq::<char>::empty());
    buf
}

/// The Titanium inventory slot of a server inventory slot: slots 22 to 30
/// move down one (slot 21 has no Titanium counterpart) and slot 33 moves
/// down three; every other slot keeps its number.
pub open spec fn titanium_slot(server_slot: i32) -> int {
    if 22 <= server_slot <= 30 {
        server_slot - 1
    } else if server_slot == 33 {
        server_slot - 3
    } else {
        server_slot as int
    }
}

/// Maps a server inventory slot to the Titanium client's numbering.
pub fn server_to_titanium_slot(server_slot: i32) -> (slot: i32)
    ensures
        slot == titanium_slot(server_slot),
{
    if 0 <= server_slot && server_slot <= 20 {
        server_slot
    } else if server_slot == 22 {
        server_slot - 1
    } else if 23 <= server_slot && server_slot <= 30 {
        server_slot - 1
    } else if server_slot == 33 {
        server_slot - 3
    } else {
        server_slot
    }
}

/// `mask` with bits 21 and 22 exchanged.
pub open spec fn bits_21_22_swapped(mask: u32) -> u32 {
    if ((mask & (1u32 << 21u32)) != 0) != ((mask & (1u32 << 22u32)) != 0) {
        mask ^ ((1u32 << 21u32) | (1u32 << 22u32))
    } else {
        mask
    }
}

/// Exchanges bits 21 and 22 of an equipment-slot mask.
pub fn swap_bits_21_and_22(mask: u32) -> (m: u32)
    ensures
        m == bits_21_22_swapped(mask),
{
    let bit21: u32 = 1u32 << 21u32;
    let bit22: u32 = 1u32 << 22u32;
    let mut m = mask;
    if ((m & bit21) != 0) != ((m & bit22) != 0) {
        m = m ^ (bit21 | bit22);
    }
    m
}

/// Swapping moves bit 22 to bit 21 and bit 21 to bit 22, keeps every other
/// bit, and swapping twice gives the mask back.
pub proof fn law_swap_bits_21_22(mask: u32)
    ensures
        (bits_21_22_swapped(mask) & (1u32 << 21u32) != 0) == (mask & (1u32 << 22u32) != 0),
        (bits_21_22_swapped(mask) & (1u32 << 22u32) != 0) == (mask & (1u32 << 21u32) != 0),
        bits_21_22_swapped(mask) & !((1u32 << 21u32) | (1u32 << 22u32)) == mask & !((1u32
            << 21u32) | (1u32 << 22u32)),
        bits_21_22_swapped(bits_21_22_swapped(mask)) == mask,
{
    assert((bits_21_22_swapped(mask) & (1u32 << 21u32) != 0) == (mask & (1u32 << 22u32) != 0))
        by (bit_vector);
    assert((bits_21_22_swapped(mask) & (1u32 << 22u32) != 0) == (mask & (1u32 << 21u32) != 0))
        by (bit_vector);
    assert(bits_21_22_swapped(mask) & !((1u32 << 21u32) | (1u32 << 22u32)) == mask & !((1u32
        << 21u32) | (1u32 << 22u32))) by (bit_vector);
    assert(bits_21_22_swapped(bits_21_22_swapped(mask)) == mask) by (bit_vector);
}

/// `mask` without bit 22.
pub fn catch22(mask: u32) -> (m: u32)
    ensures
        m == mask & !(1u32 << 22u32),
{
    mask & !(1u32 << 22u32)
}

} // verus!
