use adif::ai::{aggro_check, auto_attack_step, chase_step, initial_ai_state, is_dead, leash_step, AiState, MeleeDefender};
use adif::camp::CampTimer;
use adif::chat::{
    build_consider, names_match, handle_chat_message, build_who_response, player_not_found_text, ChatChannel, ChatDelivery, ChatListener, ChatReply,
    EntityKind, Health, Identity,
};
use adif::combat::{calculate_melee_damage, xp_for_kill, DamageResult, MeleeStats};
use adif::entity_id::EntityIdAllocator;
use adif::game_time::{RespawnQueue, ZoneTime};
use adif::hate_list::HateList;
use adif::patrol::{group_patrol_grids, GridEntryRow, PatrolState};
use adif::spawn::{pick_npc, plan_spawns, spawn_groups_pickable, SpawnEntry, SpawnPlacement};
use adif::tick::{logs_heartbeat, logs_zone_time, run_loop_should_stop, tick_sleep_ns, TickState, TICK_DURATION_NS};

fn distance_2d(x1: f32, y1: f32, x2: f32, y2: f32) -> f32 {
    let dx = x1 - x2;
    let dy = y1 - y2;
    (dx * dx + dy * dy).sqrt()
}

fn identity(entity_id: u32, kind: EntityKind, name: &str, race: u32, class_id: u32, level: u32) -> Identity {
    Identity {
        entity_id,
        kind,
        name: name.to_string(),
        last_name: String::new(),
        race,
        class_id,
        level,
        gender: 0,
        deity: 0,
    }
}

#[test]
fn add_hate_new_entry() {
    let mut list = HateList::default();
    list.add_hate(1, 100);
    assert_eq!(list.len(), 1);
    assert_eq!(list.top_target(), Some(1));
}

#[test]
fn add_hate_stacks() {
    let mut list = HateList::default();
    list.add_hate(1, 100);
    list.add_hate(1, 50);
    assert_eq!(list.total_hate_for(1), 150);
}

#[test]
fn top_target_highest_hate() {
    let mut list = HateList::default();
    list.add_hate(1, 100);
    list.add_hate(2, 200);
    list.add_hate(3, 50);
    assert_eq!(list.top_target(), Some(2));
}

#[test]
fn damage_adds_hate() {
    let mut list = HateList::default();
    list.add_damage(1, 500);
    assert_eq!(list.total_hate_for(1), 500);
}

#[test]
fn remove_entry() {
    let mut list = HateList::default();
    list.add_hate(1, 100);
    list.add_hate(2, 200);
    list.remove(2);
    assert_eq!(list.len(), 1);
    assert_eq!(list.top_target(), Some(1));
}

#[test]
fn clear_empties() {
    let mut list = HateList::default();
    list.add_hate(1, 100);
    list.clear();
    assert!(list.is_empty());
    assert_eq!(list.top_target(), None);
}

#[test]
fn top_target_tie_goes_to_last_added() {
    let mut list = HateList::default();
    list.add_hate(4, 100);
    list.add_hate(9, 100);
    assert_eq!(list.top_target(), Some(9));
    assert!(list.contains(9));
    assert!(!list.contains(5));
    assert_eq!(list.total_hate_for(5), 0);
}

#[test]
fn patrol_state_advances() {
    let mut state = PatrolState::new(1);
    assert_eq!(state.current_waypoint, 0);
    state.advance(5);
    assert_eq!(state.current_waypoint, 1);
    state.advance(5);
    assert_eq!(state.current_waypoint, 2);
}

#[test]
fn patrol_state_wraps() {
    let mut state = PatrolState::new(1);
    state.current_waypoint = 4;
    state.advance(5);
    assert_eq!(state.current_waypoint, 0);
}

#[test]
fn patrol_state_empty_grid() {
    let mut state = PatrolState::new(1);
    state.advance(0);
    assert_eq!(state.current_waypoint, 0);
}

fn grid_row(gridid: i32, number: i32, pause: i32) -> GridEntryRow {
    GridEntryRow {
        gridid,
        number,
        x_bits: (number as f32).to_bits(),
        y_bits: 0,
        z_bits: 0,
        heading_bits: 0,
        pause,
    }
}

#[test]
fn patrol_grids_group_consecutive_rows() {
    let rows = vec![grid_row(3, 1, 10), grid_row(3, 2, 0), grid_row(7, 1, 5), grid_row(3, 9, 1)];
    let grids = group_patrol_grids(&rows);
    assert_eq!(grids.len(), 3);
    assert_eq!(grids[0].grid_id, 3);
    assert_eq!(grids[0].waypoints.len(), 2);
    assert_eq!(grids[0].waypoints[0].pause_secs, 10);
    assert_eq!(grids[0].waypoints[1].x_bits, 2.0f32.to_bits());
    assert_eq!(grids[1].grid_id, 7);
    assert_eq!(grids[1].waypoints.len(), 1);
    assert_eq!(grids[2].grid_id, 3);
    assert_eq!(grids[2].waypoints[0].pause_secs, 1);
    assert!(group_patrol_grids(&[]).is_empty());
}

#[test]
fn initial_state_idle_without_patrol() {
    assert_eq!(initial_ai_state(0), AiState::Idle);
}

#[test]
fn initial_state_patrol_with_grid() {
    assert_eq!(initial_ai_state(5), AiState::Patrol);
}

#[test]
fn aggro_check_triggers_on_close_player() {
    let mut hate = HateList::default();
    let nearby = if distance_2d(100.0, 100.0, 150.0, 100.0) <= 70.0 { Some(100) } else { None };
    let state = aggro_check(initial_ai_state(0), nearby, &mut hate);
    assert_eq!(state, AiState::Aggro);
    assert!(hate.contains(100));
}

#[test]
fn no_aggro_when_out_of_range() {
    let mut hate = HateList::default();
    let nearby = if distance_2d(100.0, 100.0, 500.0, 500.0) <= 70.0 { Some(100) } else { None };
    let state = aggro_check(initial_ai_state(0), nearby, &mut hate);
    assert_eq!(state, AiState::Idle);
    assert!(hate.is_empty());
}

#[test]
fn aggro_ignored_while_fighting() {
    let mut hate = HateList::default();
    assert_eq!(aggro_check(AiState::Combat, Some(3), &mut hate), AiState::Combat);
    assert!(hate.is_empty());
}

#[test]
fn leash_returns_home_and_clears_hate() {
    let mut hate = HateList::default();
    hate.add_hate(100, 5);
    let (state, went_home) = leash_step(AiState::Leash, 0, &mut hate);
    assert!(went_home);
    assert_eq!(state, AiState::Idle);
    assert!(hate.is_empty());
    let (state, went_home) = leash_step(AiState::Leash, 4, &mut hate);
    assert!(went_home);
    assert_eq!(state, AiState::Patrol);
}

#[test]
fn chase_decisions() {
    assert_eq!(chase_step(AiState::Aggro, None, true, false, false), AiState::Leash);
    assert_eq!(chase_step(AiState::Chase, Some(1), false, false, false), AiState::Leash);
    assert_eq!(chase_step(AiState::Chase, Some(1), true, true, true), AiState::Leash);
    assert_eq!(chase_step(AiState::Aggro, Some(1), true, false, true), AiState::Combat);
    assert_eq!(chase_step(AiState::Aggro, Some(1), true, false, false), AiState::Chase);
    assert_eq!(chase_step(AiState::Idle, None, false, true, false), AiState::Idle);
}

#[test]
fn npc_swings_when_ready() {
    let mut melee = MeleeStats::new(10, 20);
    let mut hate = HateList::default();
    hate.add_hate(100, 1);
    let mut defender = Some(MeleeDefender { level: 10, current_hp: 500, in_range: true });
    let swing = auto_attack_step(&mut melee, 10, &hate, &mut defender);
    let expected = calculate_melee_damage(10, 20, 10, 10);
    assert_eq!(swing, Some(expected));
    let hp = defender.as_ref().unwrap().current_hp;
    match expected {
        DamageResult::Hit(d) => assert_eq!(hp, 500 - d),
        DamageResult::Miss => assert_eq!(hp, 500),
    }
    assert!(!melee.is_ready());
    assert_eq!(auto_attack_step(&mut melee, 10, &hate, &mut defender), None);
}

#[test]
fn npc_does_not_swing_out_of_range() {
    let mut melee = MeleeStats::new(10, 20);
    let mut hate = HateList::default();
    hate.add_hate(100, 1);
    let mut defender = Some(MeleeDefender { level: 10, current_hp: 500, in_range: false });
    assert_eq!(auto_attack_step(&mut melee, 10, &hate, &mut defender), None);
    assert_eq!(defender.unwrap().current_hp, 500);
}

#[test]
fn death_processing() {
    assert!(is_dead(-10));
}

#[test]
fn alive_not_marked_dead() {
    assert!(!is_dead(100));
    assert!(is_dead(0));
}

#[test]
fn melee_stats_timer() {
    let mut stats = MeleeStats::new(10, 20);
    assert!(stats.is_ready());
    stats.reset_timer();
    assert!(!stats.is_ready());
    for _ in 0..stats.attack_interval_ticks() {
        stats.tick();
    }
    assert!(stats.is_ready());
}

#[test]
fn melee_stats_clamps_min() {
    let stats = MeleeStats::new(0, 0);
    assert_eq!(stats.min_damage, 1);
    assert_eq!(stats.max_damage, 1);
}

#[test]
fn xp_same_level() {
    assert_eq!(xp_for_kill(10, 10), 1000);
}

#[test]
fn xp_higher_mob() {
    assert_eq!(xp_for_kill(15, 10), 4500);
}

#[test]
fn xp_much_lower_mob() {
    assert_eq!(xp_for_kill(5, 50), 12);
}

#[test]
fn damage_result() {
    match calculate_melee_damage(10, 20, 10, 10) {
        DamageResult::Hit(d) => assert!(d >= 1),
        DamageResult::Miss => {}
    }
}

#[test]
fn allocate_returns_sequential_ids() {
    let mut world = bevy_ecs::world::World::new();
    let mut alloc = EntityIdAllocator::new();
    let e1 = world.spawn_empty().id().to_bits();
    let e2 = world.spawn_empty().id().to_bits();
    let id1 = alloc.allocate(e1);
    let id2 = alloc.allocate(e2);
    assert_eq!(id1, 1);
    assert_eq!(id2, 2);
}

#[test]
fn lookup_both_directions() {
    let mut world = bevy_ecs::world::World::new();
    let mut alloc = EntityIdAllocator::new();
    let entity = world.spawn_empty().id().to_bits();
    let id = alloc.allocate(entity);
    assert_eq!(alloc.get_id(entity), Some(id));
    assert_eq!(alloc.get_entity(id), Some(entity));
}

#[test]
fn deallocate_removes_mapping() {
    let mut world = bevy_ecs::world::World::new();
    let mut alloc = EntityIdAllocator::new();
    let entity = world.spawn_empty().id().to_bits();
    let id = alloc.allocate(entity);
    alloc.deallocate(entity);
    assert_eq!(alloc.get_id(entity), None);
    assert_eq!(alloc.get_entity(id), None);
    assert_eq!(alloc.entity_count(), 0);
}

#[test]
fn skips_zero_on_wrap() {
    let mut world = bevy_ecs::world::World::new();
    let mut alloc = EntityIdAllocator::new();
    alloc.next_id = u32::MAX;
    let e1 = world.spawn_empty().id().to_bits();
    let e2 = world.spawn_empty().id().to_bits();
    let id1 = alloc.allocate(e1);
    let id2 = alloc.allocate(e2);
    assert_eq!(id1, u32::MAX);
    assert_eq!(id2, 1);
}

#[test]
fn tick_state_advances() {
    let mut state = TickState::new(0);
    assert_eq!(state.tick, 0);
    state.advance(32_000_000);
    assert_eq!(state.tick, 1);
    state.advance(64_000_000);
    assert_eq!(state.tick, 2);
}

#[test]
fn slow_ticks_are_counted_and_reported() {
    let mut state = TickState::new(0);
    assert!(!state.advance(TICK_DURATION_NS));
    assert!(state.advance(TICK_DURATION_NS + 3 * TICK_DURATION_NS));
    assert_eq!(state.slow_tick_count, 1);
    assert_eq!(state.delta_ns, 3 * TICK_DURATION_NS);
    assert_eq!(state.uptime_ns(), 4 * TICK_DURATION_NS);
}

#[test]
fn periodic_log_ticks() {
    assert!(!logs_zone_time(0));
    assert!(logs_zone_time(620));
    assert!(!logs_zone_time(621));
    assert!(logs_heartbeat(930));
    assert!(!logs_heartbeat(620));
    assert_eq!(tick_sleep_ns(2_000_000), 30_000_000);
    assert_eq!(tick_sleep_ns(40_000_000), 0);
    assert!(run_loop_should_stop(10, Some(10)));
    assert!(!run_loop_should_stop(9, Some(10)));
    assert!(!run_loop_should_stop(9, None));
}

#[test]
fn zone_time_wraps_hours() {
    let mut time = ZoneTime::new();
    time.hour = 23;
    time.minute = 59;
    time.tick_accumulator = time.ticks_per_game_minute - 1;
    time.advance();
    assert_eq!(time.hour, 0);
    assert_eq!(time.minute, 0);
}

#[test]
fn zone_time_day_night() {
    let mut time = ZoneTime::new();
    time.hour = 12;
    assert!(time.is_daytime());
    time.hour = 22;
    assert!(!time.is_daytime());
    time.hour = 5;
    assert!(!time.is_daytime());
    time.hour = 6;
    assert!(time.is_daytime());
}

#[test]
fn respawn_queue_drains_ready() {
    let mut queue = RespawnQueue::new();
    queue.schedule(1, 100, 10, 0);
    queue.schedule(2, 200, 5, 0);
    assert_eq!(queue.pending_count(), 2);

    let ready = queue.drain_ready(100);
    assert!(ready.is_empty());
    assert_eq!(queue.pending_count(), 2);

    let ready = queue.drain_ready(155);
    assert_eq!(ready.len(), 1);
    assert_eq!(ready[0], (2, 200));
    assert_eq!(queue.pending_count(), 1);

    let ready = queue.drain_ready(310);
    assert_eq!(ready.len(), 1);
    assert_eq!(ready[0], (1, 100));
    assert_eq!(queue.pending_count(), 0);
}

#[test]
fn game_time_rate() {
    let mut time = ZoneTime::new();
    time.hour = 0;
    time.minute = 0;
    for _ in 0..31 {
        time.advance();
    }
    assert!(time.minute >= 2 && time.minute <= 4, "Expected ~3 game minutes after 31 ticks, got {}", time.minute);
    assert_eq!(time.minute, 3);
}

#[test]
fn pick_npc_single_entry() {
    let entry = SpawnEntry { spawngroupid: 1, npcid: 100, chance: 100 };
    let entries = vec![&entry];
    assert_eq!(pick_npc(&entries), Some(100));
}

#[test]
fn pick_npc_highest_chance() {
    let e1 = SpawnEntry { spawngroupid: 1, npcid: 100, chance: 30 };
    let e2 = SpawnEntry { spawngroupid: 1, npcid: 200, chance: 70 };
    let entries = vec![&e1, &e2];
    assert_eq!(pick_npc(&entries), Some(200));
}

#[test]
fn pick_npc_empty() {
    let entries: Vec<&SpawnEntry> = vec![];
    assert_eq!(pick_npc(&entries), None);
}

#[test]
fn pick_npc_ties_and_nonpositive_weights() {
    let e1 = SpawnEntry { spawngroupid: 1, npcid: 100, chance: 50 };
    let e2 = SpawnEntry { spawngroupid: 1, npcid: 200, chance: 50 };
    assert_eq!(pick_npc(&[&e1, &e2]), Some(200));
    let z1 = SpawnEntry { spawngroupid: 1, npcid: 7, chance: 0 };
    let z2 = SpawnEntry { spawngroupid: 1, npcid: 8, chance: 0 };
    assert_eq!(pick_npc(&[&z1, &z2]), Some(7));
}

#[test]
fn spawn_plan_places_picked_npcs() {
    let entries = vec![
        SpawnEntry { spawngroupid: 10, npcid: 1, chance: 20 },
        SpawnEntry { spawngroupid: 11, npcid: 2, chance: 100 },
        SpawnEntry { spawngroupid: 10, npcid: 3, chance: 80 },
        SpawnEntry { spawngroupid: 12, npcid: 99, chance: 100 },
    ];
    let npc_type_ids = vec![1, 2, 3];
    let plan = plan_spawns(&[10, 11, 13, 12, 10], &entries, &npc_type_ids);
    assert_eq!(
        plan.placements,
        vec![
            SpawnPlacement { point: 0, npc: 2 },
            SpawnPlacement { point: 1, npc: 1 },
            SpawnPlacement { point: 4, npc: 2 },
        ]
    );
    assert_eq!(plan.result.npcs_spawned, 3);
    assert_eq!(plan.result.spawn_points_total, 5);
    assert_eq!(plan.result.spawn_points_empty, 2);
}

#[test]
fn spawn_groups_pickable_detects_weight_overflow() {
    let fits = vec![
        SpawnEntry { spawngroupid: 1, npcid: 1, chance: i32::MAX },
        SpawnEntry { spawngroupid: 2, npcid: 2, chance: i32::MAX },
        SpawnEntry { spawngroupid: 1, npcid: 3, chance: -5 },
    ];
    assert!(spawn_groups_pickable(&fits));
    let overflows = vec![
        SpawnEntry { spawngroupid: 1, npcid: 1, chance: i32::MAX },
        SpawnEntry { spawngroupid: 2, npcid: 2, chance: 7 },
        SpawnEntry { spawngroupid: 1, npcid: 3, chance: 1 },
    ];
    assert!(!spawn_groups_pickable(&overflows));
    let low = vec![
        SpawnEntry { spawngroupid: 4, npcid: 1, chance: i32::MIN },
        SpawnEntry { spawngroupid: 4, npcid: 2, chance: -1 },
    ];
    assert!(!spawn_groups_pickable(&low));
    assert!(spawn_groups_pickable(&[]));
}

#[test]
fn camp_timer_counts_down() {
    let mut timer = CampTimer::new();
    assert_eq!(timer.seconds_remaining(), 30);
    assert!(!timer.tick());
    for _ in 0..30 * 31 - 2 {
        timer.tick();
    }
    assert_eq!(timer.ticks_remaining, 1);
    assert!(timer.tick());
}

fn listener(entity_id: u32, kind: EntityKind, name: &str, within_say_range: bool) -> ChatListener {
    ChatListener { entity_id, kind, name: name.to_string(), within_say_range }
}

#[test]
fn shout_broadcasts_to_all() {
    let out = handle_chat_message(ChatChannel::Shout, 1, true, "", &[]);
    assert_eq!(out.len(), 1);
    assert_eq!(out[0].target, None);
}

#[test]
fn tell_to_missing_player_sends_error() {
    let out = handle_chat_message(ChatChannel::Tell, 1, true, "Nobody", &[]);
    assert_eq!(out.len(), 1);
    assert_eq!(out[0].target, Some(1));
    assert_eq!(out[0].reply, ChatReply::PlayerNotFound);
    let text = player_not_found_text("Nobody");
    assert_eq!(text, "Player 'Nobody' not found.");
    assert!(text.contains("not found"));
}

#[test]
fn tell_finds_player_ignoring_case() {
    let ls = vec![
        listener(5, EntityKind::Npc, "ghouldan", true),
        listener(6, EntityKind::Player, "Ghouldan", false),
    ];
    let out = handle_chat_message(ChatChannel::Tell, 1, false, "GHOULDAN", &ls);
    assert_eq!(
        out,
        vec![
            ChatDelivery { target: Some(6), reply: ChatReply::Relay },
            ChatDelivery { target: Some(1), reply: ChatReply::Relay },
        ]
    );
    assert!(names_match("abcZ", "ABCz"));
    assert!(!names_match("abc", "abcd"));
}

#[test]
fn say_reaches_players_in_range() {
    let ls = vec![
        listener(1, EntityKind::Player, "Me", true),
        listener(2, EntityKind::Player, "Near", true),
        listener(3, EntityKind::Player, "Far", false),
        listener(4, EntityKind::Npc, "orc", true),
    ];
    let out = handle_chat_message(ChatChannel::Say, 1, true, "", &ls);
    assert_eq!(
        out,
        vec![
            ChatDelivery { target: Some(2), reply: ChatReply::Relay },
            ChatDelivery { target: Some(1), reply: ChatReply::Relay },
        ]
    );
    let unplaced = handle_chat_message(ChatChannel::Say, 1, false, "", &ls);
    assert_eq!(unplaced, vec![ChatDelivery { target: Some(1), reply: ChatReply::Relay }]);
    let other = handle_chat_message(ChatChannel::Other, 1, true, "", &ls);
    assert_eq!(other, vec![ChatDelivery { target: Some(1), reply: ChatReply::Relay }]);
}

#[test]
fn who_response_filters_npcs() {
    let ids = vec![
        identity(1, EntityKind::Player, "Ghouldan", 5, 11, 50),
        identity(2, EntityKind::Npc, "an_orc_pawn", 1, 1, 5),
    ];
    let who = build_who_response(&ids);
    assert_eq!(who.entries.len(), 1);
    assert_eq!(who.entries[0].name, "Ghouldan");
    assert_eq!(who.entries[0].level, 50);
    assert_eq!(who.total_online, 1);
}

#[test]
fn consider_builds_packet() {
    let target = identity(42, EntityKind::Npc, "a_fire_beetle", 11, 1, 3);
    let health = Health {
        current_hp: 25,
        max_hp: 25,
        current_mana: 0,
        max_mana: 0,
        current_endurance: 0,
        max_endurance: 0,
    };
    let c = build_consider(1, &target, &health);
    assert_eq!(c.entity_id, 1);
    assert_eq!(c.target_id, 42);
    assert_eq!(c.level, 3);
    assert_eq!(c.current_hp, 25);
    assert_eq!(c.faction, 0);
    assert!(!c.pvp);
}

#[test]
fn zone_rule_flags() {
    let zone = adif::zone_config::ZoneConfig {
        id: 1,
        zoneidnumber: 52,
        short_name: "grobb".to_string(),
        long_name: "Grobb".to_string(),
        safe_x_bits: 0,
        safe_y_bits: 0,
        safe_z_bits: 0,
        safe_heading_bits: 0,
        min_level: 0,
        max_level: 0,
        min_clip_bits: 0,
        max_clip_bits: 0,
        underworld_bits: 0,
        walkspeed_bits: 0,
        zone_exp_multiplier_bits: 1.0f32.to_bits(),
        can_bind: 1,
        can_combat: 0,
        can_levitate: 2,
    };
    assert!(zone.bindable());
    assert!(!zone.combatable());
    assert!(zone.levitable());
}
