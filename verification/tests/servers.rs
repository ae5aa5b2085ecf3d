use adif::bridge::{handle_udp_packet, open_session, ConnectionPhase, Inbound};
use adif::codec::append_crc;
use adif::client_sessions::{zone_entry_sequences, ClientMessage, SessionState, SessionAction, SessionManager};
use adif::config::{default_host, default_listen_port, default_log_level, default_max_connections, default_port, DatabaseSection};
use adif::login::{
    build_base_message, build_base_reply, build_server_list, des_encrypt_zero_key, handle_login_opcode,
};
use adif::loot::roll_cash;
use adif::opcodes::{
    OP_ENTER_WORLD, OP_LOGIN_ACCEPTED, OP_LOGIN_CHAT_MESSAGE, OP_LOGIN_LOGIN, OP_LOGIN_PLAY_REQUEST,
    OP_LOGIN_PLAY_RESPONSE, OP_LOGIN_SERVER_LIST_RESPONSE, OP_LOGIN_SESSION_READY, OP_SEND_LOGIN_INFO,
    OP_ZONE_SERVER_INFO,
};
use adif::session::PeerAddr;
use adif::text::{decimal_i32, parse_i32};
use adif::transport::{flatten_app_messages, hex_preview, split_money};
use adif::world::{extract_account_name, handle_world_opcode};
use adif::zone_client::{NpcSpawnRow, ZoneClient};
use adif::zone_registry::{build_zone_server_info_bytes, route_for_zone, ZoneRegistry};

fn peer() -> PeerAddr {
    PeerAddr { ip: "10.0.0.2".to_string(), port: 40000 }
}

fn session_request(connect_code: u32, max_packet_size: u32) -> Vec<u8> {
    let mut pkt = vec![0x00, 0x01];
    pkt.extend_from_slice(&2u32.to_be_bytes());
    pkt.extend_from_slice(&connect_code.to_be_bytes());
    pkt.extend_from_slice(&max_packet_size.to_be_bytes());
    pkt
}

#[test]
fn login_session_ready_gets_chat_message() {
    let replies = handle_login_opcode(OP_LOGIN_SESSION_READY, &[]);
    assert_eq!(replies.len(), 1);
    assert_eq!(replies[0].opcode, OP_LOGIN_CHAT_MESSAGE);
    let mut expected = build_base_message(2);
    expected.extend_from_slice(&build_base_reply(true, 101));
    assert_eq!(replies[0].payload, expected);
    assert_eq!(&expected[..], &[2, 0, 0, 0, 0, 0, 0, 0, 0, 0, 1, 101, 0, 0, 0, 0]);
}

#[test]
fn login_request_is_accepted_with_server_list() {
    let replies = handle_login_opcode(OP_LOGIN_LOGIN, &[7, 0, 0, 0, 9, 9]);
    assert_eq!(replies.len(), 2);
    assert_eq!(replies[0].opcode, OP_LOGIN_ACCEPTED);
    assert_eq!(&replies[0].payload[..4], &[7, 0, 0, 0]);
    assert_eq!((replies[0].payload.len() - 10) % 8, 0);
    assert_eq!(replies[1].opcode, OP_LOGIN_SERVER_LIST_RESPONSE);
    assert_eq!(replies[1].payload, build_server_list());
}

#[test]
fn play_request_echoes_server() {
    let mut data = vec![5, 0, 0, 0];
    data.extend_from_slice(&[0; 6]);
    data.extend_from_slice(&1u32.to_le_bytes());
    let replies = handle_login_opcode(OP_LOGIN_PLAY_REQUEST, &data);
    assert_eq!(replies.len(), 1);
    assert_eq!(replies[0].opcode, OP_LOGIN_PLAY_RESPONSE);
    assert_eq!(&replies[0].payload[..4], &[5, 0, 0, 0]);
    assert_eq!(&replies[0].payload[16..20], &1u32.to_le_bytes());
    assert!(handle_login_opcode(0x7777, &data).is_empty());
}

#[test]
fn des_zero_key_known_block() {
    let c = des_encrypt_zero_key(&[0u8; 8]);
    assert_eq!(c, vec![0x8C, 0xA6, 0x4D, 0xE9, 0xC1, 0xB1, 0x23, 0xA7]);
    let padded = des_encrypt_zero_key(&[1, 2, 3]);
    assert_eq!(padded.len(), 8);
    assert_ne!(&padded[..3], &[1, 2, 3]);
}

#[test]
fn world_login_info_replies() {
    let replies = handle_world_opcode(OP_SEND_LOGIN_INFO, &[]);
    assert_eq!(replies.len(), 6);
    assert_eq!(&replies[0].payload[..4], b"ADIF");
    assert_eq!(replies[0].payload.len(), 128);
    assert_eq!(replies[2].opcode, OP_ENTER_WORLD);
    assert_eq!(replies[2].payload, b"Ghouldan\0".to_vec());
    assert!(replies[3].payload.is_empty());
}

#[test]
fn world_enter_world_gives_zone_address() {
    let replies = handle_world_opcode(OP_ENTER_WORLD, &[]);
    assert_eq!(replies.len(), 1);
    assert_eq!(replies[0].opcode, OP_ZONE_SERVER_INFO);
    let p = &replies[0].payload;
    assert_eq!(p.len(), 130);
    assert_eq!(&p[..10], b"127.0.0.1\0");
    assert_eq!(p[128], (5998 & 0xFF) as u8);
    assert_eq!(p[129], (5998 >> 8) as u8);
}

#[test]
fn account_name_from_login_info() {
    let mut data = b"ghouldan\0password".to_vec();
    data.resize(200, 0);
    assert_eq!(extract_account_name(&data), "ghouldan");
}

#[test]
fn zone_routing() {
    let mut reg = ZoneRegistry::new();
    reg.register(52, "grobb".to_string(), PeerAddr { ip: "192.168.1.5".to_string(), port: 7000 });
    assert_eq!(reg.zone_count(), 1);
    assert!(reg.find_by_name("grobb").is_some());
    assert!(route_for_zone(&reg, 53).is_none());
    let route = route_for_zone(&reg, 52).unwrap();
    assert_eq!(route.ip, "192.168.1.5");
    assert_eq!(route.port, 7000);
    assert_eq!(route.zone_short_name, "grobb");
    let bytes = build_zone_server_info_bytes(&route);
    assert_eq!(&bytes[..11], b"192.168.1.5");
    assert_eq!(bytes[11], 0);
    assert_eq!(bytes[128], 0x58);
    assert_eq!(bytes[129], 0x1B);
    reg.unregister(52);
    assert_eq!(reg.zone_count(), 0);
}

#[test]
fn client_session_lifecycle() {
    let mut mgr = SessionManager::new();
    let a = mgr.create_session(peer());
    let b = mgr.create_session(peer());
    assert_eq!(b, a + 1);
    assert_eq!(mgr.session_count(), 2);
    mgr.authenticate(a, 77, "ghouldan".to_string());
    let info = mgr.get(a).unwrap();
    assert_eq!(info.state, SessionState::Authenticated);
    assert_eq!(info.account_id, 77);
    mgr.enter_zone(a, 12);
    assert_eq!(mgr.get(a).unwrap().entity_id, Some(12));
    assert!(mgr.remove_session(b));
    assert!(!mgr.remove_session(b));
    assert_eq!(mgr.all_session_ids(), vec![a]);
}

#[test]
fn config_defaults_and_url() {
    assert_eq!(default_listen_port(), 7000);
    assert_eq!(default_host(), "localhost");
    assert_eq!(default_port(), 5433);
    assert_eq!(default_max_connections(), 10);
    assert_eq!(default_log_level(), "info");
    let db = DatabaseSection {
        host: "localhost".to_string(),
        port: 5433,
        database: "db".to_string(),
        username: "u".to_string(),
        password: "p".to_string(),
        max_connections: 5,
    };
    assert_eq!(db.connection_string(), "postgres://u:p@localhost:5433/db");
}

#[test]
fn decimal_text() {
    assert_eq!(decimal_i32(-120), b"-120".to_vec());
    assert_eq!(decimal_i32(0), b"0".to_vec());
    assert_eq!(decimal_i32(i32::MIN), b"-2147483648".to_vec());
    assert_eq!(parse_i32("42"), Some(42));
    assert_eq!(parse_i32("-7"), Some(-7));
    assert_eq!(parse_i32("+7"), Some(7));
    assert_eq!(parse_i32("2147483648"), None);
    assert_eq!(parse_i32("-2147483648"), Some(i32::MIN));
    assert_eq!(parse_i32("4x"), None);
    assert_eq!(parse_i32(""), None);
}

#[test]
fn hex_and_money() {
    assert_eq!(hex_preview(&[0x00, 0x09, 0xAB]), "00 09 AB");
    assert_eq!(hex_preview(&[]), "");
    assert_eq!(hex_preview(&[0u8; 60]).len(), 48 * 3 - 1);
    assert_eq!(split_money(12345), (12, 3, 4, 5));
    assert_eq!(split_money(9), (0, 0, 0, 9));
}

#[test]
fn cash_rolls_stay_in_range() {
    for _ in 0..200 {
        let (p, g, s, c) = roll_cash(Some((100, 500)));
        let total = p * 1000 + g * 100 + s * 10 + c;
        assert!((100..=500).contains(&total));
        assert!(g < 10 && s < 10 && c < 10);
    }
    assert_eq!(roll_cash(None), (0, 0, 0, 0));
    assert_eq!(roll_cash(Some((5, 0))), (0, 0, 0, 0));
    let (p, g, s, c) = roll_cash(Some((-50, 3)));
    assert!(p == 0 && g == 0 && s == 0 && c <= 3);
}

#[test]
fn combined_app_messages_are_unpacked() {
    let mut body = vec![4, 0x34, 0x12, 0xAA, 0xBB];
    body.extend_from_slice(&[2, 0x01, 0x00]);
    let msgs = flatten_app_messages(0x1900, &body);
    assert_eq!(msgs.len(), 2);
    assert_eq!(msgs[0].opcode, 0x1234);
    assert_eq!(msgs[0].payload, vec![0xAA, 0xBB]);
    assert_eq!(msgs[1].opcode, 0x0001);
    assert!(msgs[1].payload.is_empty());
    let single = flatten_app_messages(0x4242, &[1, 2, 3]);
    assert_eq!(single.len(), 1);
    assert_eq!(single[0].payload, vec![1, 2, 3]);
}

#[test]
fn session_opens_and_answers_keep_alive_and_app_packets() {
    let (mut conn, reply) = open_session(ConnectionPhase::Login, peer(), &session_request(0xDEADBEEF, 512)).unwrap();
    assert_eq!(reply.len(), 17);
    assert_eq!(&reply[..2], &[0x00, 0x02]);
    assert_eq!(reply[10], 0);
    assert_eq!(reply[11], 0);
    assert_eq!(conn.session.connect_code, 0xDEADBEEF);
    assert!(!conn.compress);
    assert!(open_session(ConnectionPhase::Login, peer(), &[0x00, 0x06]).is_none());

    let events = handle_udp_packet(&mut conn, &[0x00, 0x06]);
    assert_eq!(events.len(), 1);
    match &events[0] {
        Inbound::Send { datagram } => assert_eq!(datagram, &vec![0x00, 0x06]),
        _ => panic!("Expected a keep-alive reply"),
    }

    let events = handle_udp_packet(&mut conn, &[0x00, 0x09, 0x00, 0x00, 0x00, 0x01, 0x00, 0x55]);
    assert_eq!(events.len(), 2);
    match &events[0] {
        Inbound::Send { datagram } => assert_eq!(datagram, &vec![0x00, 0x15, 0x00, 0x00]),
        _ => panic!("Expected an ack"),
    }
    match &events[1] {
        Inbound::App { opcode, data } => {
            assert_eq!(*opcode, 0x0001);
            assert_eq!(data, &vec![0x55]);
        }
        _ => panic!("Expected an application message"),
    }
    assert_eq!(conn.session.sequence_in, 1);

    let events = handle_udp_packet(&mut conn, &[0x00, 0x05, 0xDE, 0xAD, 0xBE, 0xEF]);
    assert!(matches!(events[0], Inbound::Closed));
}

#[test]
fn zone_client_targeting() {
    let mut c = ZoneClient::new(ConnectionPhase::Zone);
    assert_eq!(c.alloc_spawn_id(), 1);
    assert_eq!(c.alloc_spawn_id(), 2);
    c.target_mouse(&5u32.to_le_bytes());
    assert_eq!(c.target_id, Some(5));
    c.target_mouse(&0u32.to_le_bytes());
    assert_eq!(c.target_id, None);
    assert!(!c.target_command(&9u32.to_le_bytes()));
    c.toggle_auto_attack(&1u32.to_le_bytes());
    assert!(c.auto_attack);
    c.toggle_auto_attack(&[1]);
    assert!(c.auto_attack);
    c.toggle_auto_attack(&0u32.to_le_bytes());
    assert!(!c.auto_attack);
}

#[test]
fn outbound_queues() {
    let mut mgr = SessionManager::new();
    let a = mgr.create_session(peer());
    let b = mgr.create_session(peer());
    mgr.queue_packet(a, vec![1]);
    mgr.broadcast(&[2, 2]);
    mgr.queue_packet(99, vec![3]);
    assert_eq!(mgr.take_outbound(a), vec![vec![1], vec![2, 2]]);
    assert_eq!(mgr.take_outbound(a), Vec::<Vec<u8>>::new());
    assert_eq!(mgr.take_outbound(b), vec![vec![2, 2]]);
    assert!(mgr.remove_session(b));
    assert!(mgr.take_outbound(b).is_empty());
}

#[test]
fn zone_session_protocol() {
    let mut mgr = SessionManager::new();
    let id = mgr.create_session(peer());
    let (seq, act) = mgr.handle_client_message(id, 0, ClientMessage::SessionRequest);
    assert_eq!((seq, act), (1, SessionAction::AcceptSession { sequence: 1, session_id: id }));
    let (seq, act) = mgr.handle_client_message(id, seq, ClientMessage::ZoneEntryRequest);
    assert_eq!((seq, act), (1, SessionAction::Ignore));
    let (seq, act) = mgr.handle_client_message(id, seq, ClientMessage::PositionUpdate { entity_id: 4 });
    assert_eq!(act, SessionAction::Ignore);
    let (seq, act) = mgr.handle_client_message(id, seq, ClientMessage::AuthRequest { account_name: "ghouldan".to_string() });
    assert_eq!((seq, act), (2, SessionAction::AcceptAuth { sequence: 2, account_id: 1 }));
    assert_eq!(mgr.get(id).unwrap().account_name, "ghouldan");
    let (seq, act) = mgr.handle_client_message(id, seq, ClientMessage::ZoneEntryRequest);
    assert_eq!((seq, act), (2, SessionAction::SendZone));
    assert_eq!(mgr.get(id).unwrap().state, SessionState::InZone);
    assert_eq!(mgr.get(id).unwrap().entity_id, Some(0));
    let (spawn_seqs, ready) = zone_entry_sequences(seq, 3);
    assert_eq!(spawn_seqs, vec![3, 4, 5]);
    assert_eq!(ready, 6);
    let (_, act) = mgr.handle_client_message(id, ready, ClientMessage::PositionUpdate { entity_id: 4 });
    assert_eq!(act, SessionAction::MoveEntity { entity_id: 4 });
    let (_, act) = mgr.handle_client_message(id, ready, ClientMessage::Heartbeat);
    assert_eq!(act, SessionAction::Ignore);
    let (_, act) = mgr.handle_client_message(id, ready, ClientMessage::Disconnect);
    assert_eq!(act, SessionAction::Close);
}

#[test]
fn unauthorised_requests_are_ignored_at_any_sequence() {
    let mut mgr = SessionManager::new();
    let id = mgr.create_session(peer());
    let (seq, act) = mgr.handle_client_message(id, u32::MAX, ClientMessage::ZoneEntryRequest);
    assert_eq!((seq, act), (u32::MAX, SessionAction::Ignore));
    assert_eq!(mgr.get(id).unwrap().state, SessionState::Connected);
    let (seq, act) = mgr.handle_client_message(id, u32::MAX, ClientMessage::PositionUpdate { entity_id: 9 });
    assert_eq!((seq, act), (u32::MAX, SessionAction::Ignore));
    assert_eq!(mgr.get(id).unwrap().state, SessionState::Connected);
    assert_eq!(mgr.get(id).unwrap().entity_id, None);
}

#[test]
fn npc_names_lose_their_hash_marks() {
    let mut c = ZoneClient::new(ConnectionPhase::Zone);
    let row = NpcSpawnRow {
        npc_name: "a_rat#01".to_string(),
        lastname: None,
        level: 2,
        race: 36,
        class: 1,
        gender: 2,
        bodytype: 1,
        hp: 0,
        size_bits: None,
        runspeed_bits: None,
        walkspeed_bits: None,
        texture: 0,
        helmtexture: 0,
        light: 0,
        findable: 1,
        mindmg: 1,
        maxdmg: 4,
        attack_delay: 30,
        loottable_id: 0,
        x_fixed: 80,
        y_fixed: -16,
        z_fixed: 0,
        heading_fixed: 0,
    };
    let buf = c.register_npc(&row);
    assert_eq!(buf.len(), 385);
    assert_eq!(&buf[7..14], b"a_rat01");
    assert_eq!(buf[14], 0);
    let npc = c.spawned_npcs.get(&1).unwrap();
    assert_eq!(npc.name, "a_rat01");
    assert_eq!(npc.cur_hp, 40);
    assert_eq!(c.next_spawn_id, 2);
}

#[test]
fn zone_session_delivers_client_messages() {
    let (mut conn, zone_reply) = open_session(ConnectionPhase::Zone, peer(), &session_request(0x0102_0304, 512)).unwrap();
    assert_eq!(zone_reply[10], 2);
    assert_eq!(zone_reply[11], 1);
    assert!(conn.compress);
    assert_eq!(conn.session.crc_bytes, 2);
    let key = conn.session.encode_key;
    let mut datagram = vec![0x00, 0x09, 0x00, 0x00, 0x00, 0x34, 0x12, 7];
    append_crc(&mut datagram, key, 2);
    let events = handle_udp_packet(&mut conn, &datagram);
    assert_eq!(events.len(), 2);
    assert!(matches!(events[0], Inbound::Send { .. }));
    match &events[1] {
        Inbound::App { opcode, data } => {
            assert_eq!(*opcode, 0x1234);
            assert_eq!(data, &vec![7]);
        }
        _ => panic!("Expected an application message"),
    }
    assert_eq!(conn.session.sequence_in, 1);
    let last = datagram.len() - 1;
    datagram[last] ^= 0xFF;
    assert!(handle_udp_packet(&mut conn, &datagram).is_empty());
}

#[test]
fn fragmented_client_message_is_delivered_whole() {
    let (mut conn, _) = open_session(ConnectionPhase::World, peer(), &session_request(0x0A0B_0C0D, 512)).unwrap();
    let key = conn.session.encode_key;
    let message = [0x34u8, 0x12, 1, 2, 3, 4, 5, 6];
    let mut first = vec![0x00, 0x0d, 0x00, 0x00, 0x00];
    first.extend_from_slice(&(message.len() as u32).to_be_bytes());
    first.extend_from_slice(&message[..3]);
    append_crc(&mut first, key, 2);
    let mut second = vec![0x00, 0x0d, 0x00, 0x00, 0x01];
    second.extend_from_slice(&message[3..6]);
    append_crc(&mut second, key, 2);
    let mut third = vec![0x00, 0x0d, 0x00, 0x00, 0x02];
    third.extend_from_slice(&message[6..]);
    append_crc(&mut third, key, 2);

    let e1 = handle_udp_packet(&mut conn, &first);
    assert_eq!(e1.len(), 1);
    let e2 = handle_udp_packet(&mut conn, &second);
    assert_eq!(e2.len(), 1);
    let e3 = handle_udp_packet(&mut conn, &third);
    assert_eq!(e3.len(), 2);
    match &e3[1] {
        Inbound::App { opcode, data } => {
            assert_eq!(*opcode, 0x1234);
            assert_eq!(data, &vec![1, 2, 3, 4, 5, 6]);
        }
        _ => panic!("Expected the reassembled message"),
    }
    assert_eq!(conn.session.sequence_in, 3);
    assert_eq!(conn.session.fragment_assembler.pending_count(), 0);
}
