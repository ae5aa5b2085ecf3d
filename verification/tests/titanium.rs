use adif::titanium::{
    build_animation, build_combat_damage, build_death_struct, build_hp_update, build_loot_item,
    build_mob_health, build_money_on_corpse, build_new_zone_struct, build_player_profile,
    build_spawn_struct, build_time_of_day, build_weather, catch22, extract_zone_entry_name,
    get_con_color_titanium, profile_checksum, recompute_pp_checksum, server_to_titanium_slot,
    swap_bits_21_and_22, SpawnData, ZoneData, ANIMATION_SIZE, COMBAT_DAMAGE_SIZE, DEATH_STRUCT_SIZE,
    MOB_HEALTH_SIZE, NEW_ZONE_STRUCT_SIZE, PLAYER_PROFILE_SIZE, SPAWN_STRUCT_SIZE, TIME_OF_DAY_SIZE,
};

fn le32(b: &[u8], off: usize) -> u32 {
    u32::from_le_bytes([b[off], b[off + 1], b[off + 2], b[off + 3]])
}

fn test_npc() -> SpawnData {
    SpawnData {
        spawn_id: 1,
        name: "TestNPC".to_string(),
        last_name: String::new(),
        level: 10,
        race: 1,
        class_id: 1,
        gender: 0,
        deity: 0,
        x_fixed: (100.0f32 * 8.0) as i32,
        y_fixed: (200.0f32 * 8.0) as i32,
        z_fixed: (5.0f32 * 8.0) as i32,
        heading_fixed: ((90.0f32 * 4096.0 / 360.0) as u32) & 0xFFF,
        size_bits: 6.0f32.to_bits(),
        npc_type: 1,
        cur_hp: 100,
        max_hp: 100,
        body_type: 1,
        run_speed_bits: 0.7f32.to_bits(),
        walk_speed_bits: 0.46f32.to_bits(),
        findable: 1,
        light: 0,
        texture: 0,
        helm_texture: 0,
        guild_id: 0xFFFFFFFF,
    }
}

#[test]
fn spawn_struct_correct_size() {
    let buf = build_spawn_struct(&test_npc());
    assert_eq!(buf.len(), SPAWN_STRUCT_SIZE);
    assert_eq!(&buf[7..14], b"TestNPC");
    assert_eq!(buf[151], 10);
    assert_eq!(u32::from_le_bytes([buf[340], buf[341], buf[342], buf[343]]), 1);
}

#[test]
fn new_zone_struct_correct_size() {
    let zd = ZoneData {
        short_name: "grobb".to_string(),
        long_name: "Grobb".to_string(),
        zone_id: 52,
        safe_x_bits: (-99.0f32).to_bits(),
        safe_y_bits: (-585.0f32).to_bits(),
        safe_z_bits: 27.0f32.to_bits(),
        minclip_bits: 450.0f32.to_bits(),
        maxclip_bits: 450.0f32.to_bits(),
        fog_minclip_bits: [10.0f32.to_bits(); 4],
        fog_maxclip_bits: [500.0f32.to_bits(); 4],
        fog_red: [0; 4],
        fog_green: [0; 4],
        fog_blue: [0; 4],
        fog_density_bits: 0.0f32.to_bits(),
        sky: 1,
        ztype: 255,
        zone_exp_multiplier_bits: 1.0f32.to_bits(),
        gravity_bits: 0.4f32.to_bits(),
        time_type: 2,
        rain_chance: [0; 4],
        rain_duration: [0; 4],
        snow_chance: [0; 4],
        snow_duration: [0; 4],
        underworld_bits: (-1000.0f32).to_bits(),
        max_z_bits: 10000.0f32.to_bits(),
    };
    let buf = build_new_zone_struct("Ghouldan", &zd);
    assert_eq!(buf.len(), NEW_ZONE_STRUCT_SIZE);
    assert_eq!(&buf[0..8], b"Ghouldan");
    assert_eq!(&buf[64..69], b"grobb");
}

#[test]
fn player_profile_correct_size() {
    let buf = build_player_profile(
        "Ghouldan",
        5,
        11,
        50,
        0,
        (-99.0f32).to_bits(),
        (-585.0f32).to_bits(),
        27.0f32.to_bits(),
        52,
    );
    assert_eq!(buf.len(), PLAYER_PROFILE_SIZE);
    assert_eq!(buf[20], 50);
}

#[test]
fn player_profile_checksum_is_consistent() {
    let mut buf = build_player_profile("Ghouldan", 5, 11, 50, 0, 0, 0, 0, 52);
    let stored = le32(&buf, 0);
    assert_eq!(stored, profile_checksum(&buf));
    buf[100] ^= 0xFF;
    assert_ne!(le32(&buf, 0), profile_checksum(&buf));
    recompute_pp_checksum(&mut buf);
    assert_eq!(le32(&buf, 0), profile_checksum(&buf));
}

#[test]
fn time_of_day_correct_size() {
    let buf = build_time_of_day(14, 30, 1, 3100);
    assert_eq!(buf.len(), TIME_OF_DAY_SIZE);
    assert_eq!(buf[0], 14);
    assert_eq!(buf[1], 30);
    assert_eq!(&buf[2..6], &[1, 0, 0x1C, 0x0C]);
}

#[test]
fn con_color_same_level() {
    assert_eq!(get_con_color_titanium(10, 10), 20);
    assert_eq!(get_con_color_titanium(50, 50), 20);
    assert_eq!(get_con_color_titanium(1, 1), 20);
}

#[test]
fn con_color_yellow() {
    assert_eq!(get_con_color_titanium(10, 11), 15);
    assert_eq!(get_con_color_titanium(10, 12), 15);
    assert_eq!(get_con_color_titanium(10, 13), 15);
}

#[test]
fn con_color_red() {
    assert_eq!(get_con_color_titanium(10, 14), 13);
    assert_eq!(get_con_color_titanium(10, 20), 13);
}

#[test]
fn con_color_dark_blue() {
    assert_eq!(get_con_color_titanium(10, 8), 4);
    assert_eq!(get_con_color_titanium(10, 6), 4);
}

#[test]
fn con_color_green_low_level() {
    assert_eq!(get_con_color_titanium(10, 3), 2);
    assert_eq!(get_con_color_titanium(10, 1), 2);
}

#[test]
fn con_color_light_blue_high_level() {
    assert_eq!(get_con_color_titanium(50, 44), 18);
    assert_eq!(get_con_color_titanium(50, 40), 18);
}

#[test]
fn con_color_green_high_level() {
    assert_eq!(get_con_color_titanium(50, 35), 2);
    assert_eq!(get_con_color_titanium(50, 33), 2);
}

#[test]
fn con_color_gray_remapped_to_green() {
    assert_eq!(get_con_color_titanium(50, 30), 2);
    assert_eq!(get_con_color_titanium(50, 1), 2);
}

#[test]
fn con_color_mid_levels() {
    // level 18: green below 18 - 25/4 = 12, gray below 18 - 23/3 = 11
    assert_eq!(get_con_color_titanium(18, 12), 2);
    assert_eq!(get_con_color_titanium(18, 13), 4);
}

#[test]
fn death_struct_correct_size() {
    let buf = build_death_struct(10, 1, 10, 5, 0xFFFFFFFF, 0);
    assert_eq!(buf.len(), DEATH_STRUCT_SIZE);
    assert_eq!(le32(&buf, 0), 10);
    assert_eq!(le32(&buf, 4), 1);
    assert_eq!(le32(&buf, 8), 10);
    assert_eq!(le32(&buf, 12), 0);
    assert_eq!(le32(&buf, 16), 0xFFFFFFFF);
    assert_eq!(le32(&buf, 24), 5);
}

#[test]
fn combat_damage_correct_size() {
    let buf = build_combat_damage(10, 1, 0, 0xFFFF, 42, 0.0f32.to_bits(), 1.5f32.to_bits(), 0.0f32.to_bits());
    assert_eq!(buf.len(), COMBAT_DAMAGE_SIZE);
    assert_eq!(u16::from_le_bytes([buf[0], buf[1]]), 10);
    assert_eq!(u16::from_le_bytes([buf[2], buf[3]]), 1);
    assert_eq!(buf[4], 0);
    assert_eq!(u16::from_le_bytes([buf[5], buf[6]]), 0xFFFF);
    assert_eq!(le32(&buf, 7), 42);
}

#[test]
fn animation_correct_size() {
    let buf = build_animation(5, 10, 8);
    assert_eq!(buf.len(), ANIMATION_SIZE);
    assert_eq!(u16::from_le_bytes([buf[0], buf[1]]), 5);
    assert_eq!(buf[2], 10);
    assert_eq!(buf[3], 8);
}

#[test]
fn mob_health_correct_size() {
    let buf = build_mob_health(10, 75);
    assert_eq!(buf.len(), MOB_HEALTH_SIZE);
    assert_eq!(buf[2], 75);
}

#[test]
fn small_structs_layout() {
    assert_eq!(build_weather(1, 2), vec![1, 0, 0, 0, 2, 0, 0, 0, 0, 0, 0, 0]);
    assert_eq!(build_hp_update(-5, 100, 3), {
        let mut v = (-5i32).to_le_bytes().to_vec();
        v.extend_from_slice(&100i32.to_le_bytes());
        v.extend_from_slice(&3i16.to_le_bytes());
        v
    });
    let loot = build_loot_item(7, 8, 22, 1);
    assert_eq!(loot.len(), 16);
    assert_eq!(le32(&loot, 0), 7);
    assert_eq!(le32(&loot, 4), 8);
    assert_eq!(u16::from_le_bytes([loot[8], loot[9]]), 22);
    assert_eq!(le32(&loot, 12), 1);
    let money = build_money_on_corpse(1, 1, 2, 3, 4);
    assert_eq!(money.len(), 20);
    assert_eq!(money[0], 1);
    assert_eq!(le32(&money, 4), 1);
    assert_eq!(le32(&money, 16), 4);
}

#[test]
fn zone_entry_name_extraction() {
    let mut req = vec![0u8; 4];
    req.extend_from_slice(b"Ghouldan\0\0\0");
    assert_eq!(extract_zone_entry_name(&req), "Ghouldan");
    assert_eq!(extract_zone_entry_name(&[1, 2, 3]), "Unknown");
    let mut raw = vec![0u8; 4];
    raw.extend_from_slice(&[0x41, 0xFF, 0x42]);
    assert_eq!(extract_zone_entry_name(&raw), "A\u{FFFD}B");
}

#[test]
fn slot_mapping_and_bit_helpers() {
    assert_eq!(swap_bits_21_and_22(1 << 21), 1 << 22);
    assert_eq!(swap_bits_21_and_22(1 << 22), 1 << 21);
    assert_eq!(swap_bits_21_and_22((1 << 21) | (1 << 22) | 5), (1 << 21) | (1 << 22) | 5);
    assert_eq!(catch22(0xFFFF_FFFF), 0xFFFF_FFFF & !(1 << 22));
    assert_eq!(server_to_titanium_slot(22), 21);
    assert_eq!(server_to_titanium_slot(30), 29);
    assert_eq!(server_to_titanium_slot(33), 30);
    assert_eq!(server_to_titanium_slot(5), 5);
    assert_eq!(server_to_titanium_slot(31), 31);
}
