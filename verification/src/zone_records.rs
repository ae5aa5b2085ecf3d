//! Zone-entry records the bridge sends a client: doors, ground objects,
//! zone points, the greeting blocks, the zone-change reply, the inventory,
//! skills in the player profile, and the sizes of the playable races.
use vstd::prelude::*;
use vstd::utf8::encode_utf8;

use crate::bytes::{
    le16, le32, push_all, push_repeated, push_u16_le, push_u32_le, splice, text_field, write_bytes,
    write_str, write_u16_le, write_u32_le, write_u8, zeroed, zeros,
};
use crate::item::{item_record, serialize_titanium_item, InventoryItemRow};
use crate::titanium::{pp_checksum, recompute_pp_checksum};

verus! {

/// A door of the zone. Positions and heading are IEEE-754 bit patterns.
pub struct DoorRecord {
    pub name: String,
    pub pos_y_bits: u32,
    pub pos_x_bits: u32,
    pub pos_z_bits: u32,
    pub heading_bits: u32,
    pub incline: i32,
    pub size: i16,
    pub doorid: i16,
    pub opentype: i16,
    pub invert_state: i32,
    pub door_param: i32,
}

/// Size of one door entry.
pub const DOOR_ENTRY_SIZE: usize = 80;

/// The entry of one door.
pub open spec fn door_entry(d: DoorRecord) -> Seq<u8> {
    let b = zeros(80);
    let b = splice(b, 0, text_field(encode_utf8(d.name@), 32));
    let b = splice(b, 32, le32(d.pos_y_bits));
    let b = splice(b, 36, le32(d.pos_x_bits));
    let b = splice(b, 40, le32(d.pos_z_bits));
    let b = splice(b, 44, le32(d.heading_bits));
    let b = splice(b, 48, le32(d.incline as u32));
    let b = splice(b, 52, le16(d.size as u16));
    let b = splice(b, 60, seq![d.doorid as u8]);
    let b = splice(b, 61, seq![d.opentype as u8]);
    let b = splice(b, 63, seq![d.invert_state as u8]);
    let b = splice(b, 64, le32(d.door_param as u32));
    let b = splice(b, 77, seq![1u8]);
    splice(b, 79, seq![1u8])
}

/// The entries of doors `0..n`, one after another.
pub open spec fn door_entries(doors: Seq<DoorRecord>) -> Seq<u8>
    decreases doors.len(),
{
    if doors.len() == 0 {
        Seq::empty()
    } else {
        door_entries(doors.drop_last()) + door_entry(doors.last())
    }
}

/// The door message: a zero count when there are no doors, the entries
/// otherwise.
pub open spec fn doors_payload(doors: Seq<DoorRecord>) -> Seq<u8> {
    if doors.len() == 0 {
        le32(0)
    } else {
        door_entries(doors)
    }
}

fn door_entry_bytes(d: &DoorRecord) -> (b: Vec<u8>)
    ensures
        b@ == door_entry(*d),
{
    let mut b = zeroed(DOOR_ENTRY_SIZE);
    write_str(&mut b, 0, d.name.as_str(), 32);
    write_u32_le(&mut b, 32, d.pos_y_bits);
    write_u32_le(&mut b, 36, d.pos_x_bits);
    write_u32_le(&mut b, 40, d.pos_z_bits);
    write_u32_le(&mut b, 44, d.heading_bits);
    write_u32_le(&mut b, 48, d.incline as u32);
    write_u16_le(&mut b, 52, d.size as u16);
    write_u8(&mut b, 60, d.doorid as u8);
    write_u8(&mut b, 61, d.opentype as u8);
    write_u8(&mut b, 63, d.invert_state as u8);
    write_u32_le(&mut b, 64, d.door_param as u32);
    write_u8(&mut b, 77, 1);
    write_u8(&mut b, 79, 1);
    b
}

/// Builds the door message of a zone.
pub fn build_doors(doors: &Vec<DoorRecord>) -> (buf: Vec<u8>)
    ensures
        buf@ == doors_payload(doors@),
{
    let mut buf: Vec<u8> = Vec::new();
    if doors.len() == 0 {
        push_u32_le(&mut buf, 0);
        assert(buf@ =~= le32(0));
        return buf;
    }
    let mut i: usize = 0;
    while i < doors.len()
        invariant
            i <= doors@.len(),
            buf@ == door_entries(doors@.take(i as int)),
        decreases doors@.len() - i,
    {
        let e = door_entry_bytes(&doors[i]);
        push_all(&mut buf, e.as_slice());
        proof {
            let t = doors@.take(i as int + 1);
            assert(t.drop_last() =~= doors@.take(i as int));
        }
        i = i + 1;
    }
    assert(doors@.take(i as int) =~= doors@);
    buf
}

/// A ground object of the zone. Positions, angles and size are IEEE-754
/// bit patterns.
pub struct ObjectRecord {
    pub xpos_bits: u32,
    pub ypos_bits: u32,
    pub zpos_bits: u32,
    pub heading_bits: u32,
    pub objectname: String,
    pub object_type: i32,
    pub size_bits: u32,
    pub incline: i32,
    pub tilt_x_bits: u32,
    pub tilt_y_bits: u32,
}

/// The ground-spawn message of the object at `index` in zone `zone_id`:
/// its drop id is `index + 1`.
pub open spec fn ground_spawn(o: ObjectRecord, index: u32, zone_id: i32) -> Seq<u8> {
    let b = zeros(96);
    let b = splice(b, 8, le32(o.size_bits));
    let b = splice(b, 12, le32((index + 1) as u32));
    let b = splice(b, 16, le16(zone_id as u16));
    let b = splice(b, 20, le32(o.incline as u32));
    let b = splice(b, 28, le32(o.tilt_x_bits));
    let b = splice(b, 32, le32(o.tilt_y_bits));
    let b = splice(b, 36, le32(o.heading_bits));
    let b = splice(b, 40, le32(o.zpos_bits));
    let b = splice(b, 44, le32(o.xpos_bits));
    let b = splice(b, 48, le32(o.ypos_bits));
    let b = splice(b, 52, text_field(encode_utf8(o.objectname@), 32));
    let b = splice(b, 88, le32(o.object_type as u32));
    splice(b, 92, le32(0xFF))
}

/// Builds the ground-spawn message of one object.
pub fn build_ground_spawn(o: &ObjectRecord, index: u32, zone_id: i32) -> (buf: Vec<u8>)
    requires
        index < u32::MAX,
    ensures
        buf@ == ground_spawn(*o, index, zone_id),
{
    let mut b = zeroed(96);
    write_u32_le(&mut b, 8, o.size_bits);
    write_u32_le(&mut b, 12, index + 1);
    write_u16_le(&mut b, 16, zone_id as u16);
    write_u32_le(&mut b, 20, o.incline as u32);
    write_u32_le(&mut b, 28, o.tilt_x_bits);
    write_u32_le(&mut b, 32, o.tilt_y_bits);
    write_u32_le(&mut b, 36, o.heading_bits);
    write_u32_le(&mut b, 40, o.zpos_bits);
    write_u32_le(&mut b, 44, o.xpos_bits);
    write_u32_le(&mut b, 48, o.ypos_bits);
    write_str(&mut b, 52, o.objectname.as_str(), 32);
    write_u32_le(&mut b, 88, o.object_type as u32);
    write_u32_le(&mut b, 92, 0xFF);
    b
}

/// A zone line's destination. Coordinates are IEEE-754 bit patterns.
pub struct ZonePointRecord {
    pub number: i32,
    pub target_y_bits: u32,
    pub target_x_bits: u32,
    pub target_z_bits: u32,
    pub target_heading_bits: u32,
    pub target_zone_id: i32,
    pub target_instance: i32,
}

/// The entry of one zone point.
pub open spec fn zone_point_entry(z: ZonePointRecord) -> Seq<u8> {
    le32(z.number as u32) + le32(z.target_y_bits) + le32(z.target_x_bits) + le32(z.target_z_bits)
        + le32(z.target_heading_bits) + le16(z.target_zone_id as u16) + le16(
        z.target_instance as u16,
    )
}

/// The entries of a list of zone points, one after another.
pub open spec fn zone_point_entries(points: Seq<ZonePointRecord>) -> Seq<u8>
    decreases points.len(),
{
    if points.len() == 0 {
        Seq::empty()
    } else {
        zone_point_entries(points.drop_last()) + zone_point_entry(points.last())
    }
}

/// The zone-points message: the count, the entries, and one empty entry.
pub open spec fn zone_points_payload(points: Seq<ZonePointRecord>) -> Seq<u8> {
    le32(points.len() as u32) + zone_point_entries(points) + zeros(24)
}

/// Builds the zone-points message of a zone.
pub fn build_zone_points(points: &Vec<ZonePointRecord>) -> (buf: Vec<u8>)
    ensures
        buf@ == zone_points_payload(points@),
{
    let mut buf: Vec<u8> = Vec::new();
    push_u32_le(&mut buf, points.len() as u32);
    let ghost head = buf@;
    let mut i: usize = 0;
    assert(points@.take(0) =~= Seq::<ZonePointRecord>::empty());
    while i < points.len()
        invariant
            i <= points@.len(),
            head == le32(points@.len() as u32),
            buf@ == head + zone_point_entries(points@.take(i as int)),
        decreases points@.len() - i,
    {
        let z = &points[i];
        let ghost before = buf@;
        push_u32_le(&mut buf, z.number as u32);
        push_u32_le(&mut buf, z.target_y_bits);
        push_u32_le(&mut buf, z.target_x_bits);
        push_u32_le(&mut buf, z.target_z_bits);
        push_u32_le(&mut buf, z.target_heading_bits);
        push_u16_le(&mut buf, z.target_zone_id as u16);
        push_u16_le(&mut buf, z.target_instance as u16);
        proof {
            let t = points@.take(i as int + 1);
            assert(t.drop_last() =~= points@.take(i as int));
            assert(t.last() == *z);
        }
        assert(buf@ =~= head + zone_point_entries(points@.take(i as int + 1)));
        i = i + 1;
    }
    assert(points@.take(i as int) =~= points@);
    push_repeated(&mut buf, 0, 24);
    assert(buf@ =~= zone_points_payload(points@));
    buf
}

/// The raid-update greeting: 0x0A, then the character name twice.
pub open spec fn raid_update(name: Seq<char>) -> Seq<u8> {
    let b = zeros(136);
    let b = splice(b, 0, le32(0x0A));
    let b = splice(b, 4, text_field(encode_utf8(name), 64));
    splice(b, 68, text_field(encode_utf8(name), 64))
}

/// Builds the raid-update greeting for a character.
pub fn build_raid_update(name: &str) -> (buf: Vec<u8>)
    ensures
        buf@ == raid_update(name@),
{
    let mut b = zeroed(136);
    write_u32_le(&mut b, 0, 0x0A);
    write_str(&mut b, 4, name, 64);
    write_str(&mut b, 68, name, 64);
    b
}

/// The guild message-of-the-day greeting: the character name at byte 4.
pub open spec fn guild_motd(name: Seq<char>) -> Seq<u8> {
    splice(zeros(648), 4, text_field(encode_utf8(name), 64))
}

/// Builds the guild message-of-the-day greeting for a character.
pub fn build_guild_motd(name: &str) -> (buf: Vec<u8>)
    ensures
        buf@ == guild_motd(name@),
{
    let mut b = zeroed(648);
    write_str(&mut b, 4, name, 64);
    b
}

/// Where an approved zone change sends the character: the zone and the
/// coordinates (IEEE-754 bit patterns).
pub struct ZoneChangeTarget {
    pub zone_id: i32,
    pub x_bits: u32,
    pub y_bits: u32,
    pub z_bits: u32,
}

/// The reply to a zone-change request: the request's name block, then the
/// destination zone and coordinates (or the current zone when no zone line
/// leads anywhere), and success.
pub open spec fn zone_change_reply(request: Seq<u8>, target: Option<ZoneChangeTarget>, current_zone: i32) -> Seq<u8> {
    let b = splice(zeros(88), 0, request.take(64));
    let b = match target {
        Some(t) => {
            let b = splice(b, 64, le16(t.zone_id as u16));
            let b = splice(b, 68, le32(t.y_bits));
            let b = splice(b, 72, le32(t.x_bits));
            splice(b, 76, le32(t.z_bits))
        },
        None => splice(b, 64, le16(current_zone as u16)),
    };
    splice(b, 84, le32(1))
}

/// Builds the reply to a zone-change request of at least 88 bytes.
pub fn build_zone_change_reply(request: &[u8], target: &Option<ZoneChangeTarget>, current_zone: i32) -> (buf: Vec<u8>)
    requires
        request@.len() >= 88,
    ensures
        buf@ == zone_change_reply(request@, *target, current_zone),
{
    let mut b = zeroed(88);
    write_bytes(&mut b, 0, vstd::slice::slice_subrange(request, 0, 64));
    assert(request@.subrange(0, 64) =~= request@.take(64));
    match target {
        Some(t) => {
            write_u16_le(&mut b, 64, t.zone_id as u16);
            write_u32_le(&mut b, 68, t.y_bits);
            write_u32_le(&mut b, 72, t.x_bits);
            write_u32_le(&mut b, 76, t.z_bits);
        },
        None => {
            write_u16_le(&mut b, 64, current_zone as u16);
        },
    }
    write_u32_le(&mut b, 84, 1);
    b
}

/// The records of inventory items `0..n`, the i-th with serial `i + 1`.
pub open spec fn inventory_records(items: Seq<InventoryItemRow>) -> Seq<u8>
    decreases items.len(),
{
    if items.len() == 0 {
        Seq::empty()
    } else {
        inventory_records(items.drop_last()) + item_record(items.last(), items.len() as i32)
    }
}

/// The inventory message: a zero count when there are no items, the item
/// records otherwise.
pub open spec fn inventory_payload(items: Seq<InventoryItemRow>) -> Seq<u8> {
    if items.len() == 0 {
        le32(0)
    } else {
        inventory_records(items)
    }
}

/// Builds the inventory message of a character.
pub fn build_inventory(items: &Vec<InventoryItemRow>) -> (buf: Vec<u8>)
    requires
        items@.len() < 0x8000_0000,
    ensures
        buf@ == inventory_payload(items@),
{
    let mut buf: Vec<u8> = Vec::new();
    if items.len() == 0 {
        push_u32_le(&mut buf, 0);
        assert(buf@ =~= le32(0));
        return buf;
    }
    let mut i: usize = 0;
    assert(items@.take(0) =~= Seq::<InventoryItemRow>::empty());
    while i < items.len()
        invariant
            i <= items@.len(),
            items@.len() < 0x8000_0000,
            buf@ == inventory_records(items@.take(i as int)),
        decreases items@.len() - i,
    {
        let rec = serialize_titanium_item(&items[i], (i + 1) as i32);
        push_all(&mut buf, rec.as_slice());
        proof {
            let t = items@.take(i as int + 1);
            assert(t.drop_last() =~= items@.take(i as int));
        }
        i = i + 1;
    }
    assert(items@.take(i as int) =~= items@);
    buf
}

/// Offset of the skill table in a player profile.
pub const PP_SKILLS_OFFSET: usize = 4460;

/// Number of skills a player profile holds.
pub const PP_SKILL_COUNT: usize = 100;

/// A player profile body with skill values written: each (skill, value)
/// pair with a skill under 100 sets that skill's 32-bit slot to the value
/// (sign-extended); later pairs win.
pub open spec fn with_skills(pp: Seq<u8>, skills: Seq<(i16, i16)>) -> Seq<u8>
    decreases skills.len(),
{
    if skills.len() == 0 {
        pp
    } else {
        let b = with_skills(pp, skills.drop_last());
        let (id, value) = skills.last();
        if 0 <= id < 100 {
            splice(b, 4460 + 4 * id, le32(value as u32))
        } else {
            b
        }
    }
}

/// Writes a character's skills into its player profile and refreshes the
/// profile's checksum.
pub fn apply_skills(pp: &mut Vec<u8>, skills: &Vec<(i16, i16)>)
    requires
        old(pp)@.len() >= PP_SKILLS_OFFSET + 4 * PP_SKILL_COUNT,
    ensures
        final(pp)@ == splice(
            with_skills(old(pp)@, skills@),
            0,
            le32(pp_checksum(with_skills(old(pp)@, skills@))),
        ),
{
    let mut i: usize = 0;
    assert(skills@.take(0) =~= Seq::<(i16, i16)>::empty());
    while i < skills.len()
        invariant
            i <= skills@.len(),
            pp@.len() == old(pp)@.len(),
            old(pp)@.len() >= PP_SKILLS_OFFSET + 4 * PP_SKILL_COUNT,
            pp@ == with_skills(old(pp)@, skills@.take(i as int)),
        decreases skills@.len() - i,
    {
        let (id, value) = skills[i];
        if 0 <= id && id < 100 {
            write_u32_le(pp, PP_SKILLS_OFFSET + 4 * (id as usize), value as u32);
        }
        proof {
            let t = skills@.take(i as int + 1);
            assert(t.drop_last() =~= skills@.take(i as int));
            assert(t.last() == (id, value));
        }
        i = i + 1;
    }
    assert(skills@.take(i as int) =~= skills@);
    recompute_profile_checksum(pp);
}

fn recompute_profile_checksum(pp: &mut Vec<u8>)
    requires
        old(pp)@.len() >= 8,
    ensures
        final(pp)@ == splice(old(pp)@, 0, le32(pp_checksum(old(pp)@))),
{
    let check = crate::titanium::profile_checksum(pp.as_slice());
    write_u32_le(pp, 0, check);
}

/// The size of a playable race, as the IEEE-754 bit pattern of the size
/// the client draws: 8 for races 3 and 9, 7 for 8 and 10, 5 for 4, 6, 7,
/// 128 and 130, 4 for 5, and 6 otherwise.
pub open spec fn race_size_bits(race: u32) -> u32 {
    if race == 3 || race == 9 {
        0x4100_0000
    } else if race == 8 || race == 10 {
        0x40E0_0000
    } else if race == 4 || race == 6 || race == 7 || race == 128 || race == 130 {
        0x40A0_0000
    } else if race == 5 {
        0x4080_0000
    } else {
        0x40C0_0000
    }
}

/// The size of a playable race (an IEEE-754 bit pattern).
pub fn race_size(race: u32) -> (bits: u32)
    ensures
        bits == race_size_bits(race),
{
    if race == 3 || race == 9 {
        0x4100_0000
    } else if race == 8 || race == 10 {
        0x40E0_0000
    } else if race == 4 || race == 6 || race == 7 || race == 128 || race == 130 {
        0x40A0_0000
    } else if race == 5 {
        0x4080_0000
    } else {
        0x40C0_0000
    }
}

} // verus!
