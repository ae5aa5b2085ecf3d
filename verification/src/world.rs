//! The world server's side of the Titanium world exchange: the greeting, the
//! replies to each client request, and the names clients send.
use vstd::prelude::*;
use vstd::utf8::encode_utf8;

use crate::bytes::{le16, le32, push_all, push_u32_le, splice, zeroed, zeros, write_str, write_u8, text_field};
use crate::opcodes::{
    messages_view, AppMessage, OP_APPROVE_WORLD, OP_ENTER_WORLD, OP_EXPANSION_INFO, OP_GUILDS_LIST,
    OP_LOG_SERVER, OP_MOTD, OP_POST_ENTER_WORLD, OP_SEND_CHAR_INFO, OP_SEND_LOGIN_INFO,
    OP_ZONE_SERVER_INFO,
};
use crate::text::push_text;
use crate::titanium::{name_end, string_from_utf8_lossy, utf8_lossy};
use crate::zone_registry::{build_zone_server_info_bytes, zone_server_info_spec, ZoneRouteInfo};

verus! {

/// Port of the zone server the world server sends clients to.
pub const ZONE_SERVER_PORT: u16 = 5998;

/// The messages the world server sends as soon as a client connects: an
/// empty guild list and a zeroed world approval.
pub open spec fn world_greeting() -> Seq<(u16, Seq<u8>)> {
    seq![(OP_GUILDS_LIST, zeros(4)), (OP_APPROVE_WORLD, zeros(544))]
}

/// Builds the messages the world server sends as soon as a client connects.
pub fn send_proactive_world_packets() -> (msgs: Vec<AppMessage>)
    ensures
        messages_view(msgs@) == world_greeting(),
{
    let mut msgs: Vec<AppMessage> = Vec::new();
    msgs.push(AppMessage { opcode: OP_GUILDS_LIST, payload: zeroed(4) });
    msgs.push(AppMessage { opcode: OP_APPROVE_WORLD, payload: zeroed(544) });
    assert(messages_view(msgs@) =~= world_greeting());
    msgs
}

/// The bytes of a name field: up to its first NUL byte, or at most 64
/// bytes when it has none.
pub open spec fn name_field_bytes(data: Seq<u8>) -> Seq<u8> {
    data.take(name_end(data))
}

fn name_field_end(data: &[u8]) -> (end: usize)
    ensures
        end == name_end(data@),
        end <= data@.len(),
{
    let n = data.len();
    let mut i: usize = 0;
    while i < n
        invariant_except_break
            i <= n,
            n == data@.len(),
            forall|j: int| 0 <= j < i ==> data@[j] != 0,
        ensures
            i <= n,
            forall|j: int| 0 <= j < i ==> data@[j] != 0,
            i < n ==> data@[i as int] == 0,
        decreases n - i,
    {
        if data[i] == 0 {
            break;
        }
        i = i + 1;
    }
    proof {
        if i < n {
            let c = choose|k: int|
                0 <= k < data@.len() && data@[k] == 0 && forall|j: int| 0 <= j < k ==> data@[j] != 0;
            assert(0 <= c < data@.len() && data@[c] == 0);
            if c < i {
                assert(data@[c] != 0);
            }
            if c > i {
                assert(data@[i as int] != 0);
            }
        } else {
            assert(!exists|k: int| 0 <= k < data@.len() && data@[k] == 0);
        }
    }
    if i < n {
        i
    } else if n < 64 {
        n
    } else {
        64
    }
}

fn name_field(data: &[u8]) -> (name: String)
    ensures
        name@ == utf8_lossy(name_field_bytes(data@)),
{
    let end = name_field_end(data);
    let field = vstd::slice::slice_subrange(data, 0, end);
    assert(field@ =~= name_field_bytes(data@));
    string_from_utf8_lossy(field)
}

/// The account name at the start of a login-info request, or "Unknown"
/// when the request is empty.
pub fn extract_account_name(data: &[u8]) -> (name: String)
    ensures
        data@.len() == 0 ==> name@ == "Unknown"@,
        data@.len() > 0 ==> name@ == utf8_lossy(name_field_bytes(data@)),
{
    if data.len() == 0 {
        return "Unknown".to_owned();
    }
    name_field(data)
}

/// The character name at the start of an enter-world request, or
/// "Unknown" when the request is empty.
pub fn extract_enter_world_name(data: &[u8]) -> (name: String)
    ensures
        data@.len() == 0 ==> name@ == "Unknown"@,
        data@.len() > 0 ==> name@ == utf8_lossy(name_field_bytes(data@)),
{
    if data.len() == 0 {
        return "Unknown".to_owned();
    }
    name_field(data)
}

/// The character list: one character slot of eight used, holding
/// Ghouldan, a level 10 male human warrior in zone 52.
pub open spec fn character_list() -> Seq<u8> {
    let entry = zeros(320);
    let entry = splice(entry, 0, text_field(encode_utf8("Ghouldan"@), 64));
    let entry = splice(entry, 64, seq![1u8]);
    let entry = splice(entry, 68, seq![1u8]);
    let entry = splice(entry, 72, seq![10u8]);
    let entry = splice(entry, 76, seq![52u8]);
    let entry = splice(entry, 80, seq![0u8]);
    let entry = splice(entry, 84, seq![1u8]);
    le32(1) + le32(8) + entry
}

/// Builds the character list.
pub fn build_character_list() -> (buf: Vec<u8>)
    ensures
        buf@ == character_list(),
{
    let mut entry = zeroed(320);
    write_str(&mut entry, 0, "Ghouldan", 64);
    write_u8(&mut entry, 64, 1);
    write_u8(&mut entry, 68, 1);
    write_u8(&mut entry, 72, 10);
    write_u8(&mut entry, 76, 52);
    write_u8(&mut entry, 80, 0);
    write_u8(&mut entry, 84, 1);
    let mut buf: Vec<u8> = Vec::new();
    push_u32_le(&mut buf, 1);
    push_u32_le(&mut buf, 8);
    push_all(&mut buf, entry.as_slice());
    assert(buf@ =~= character_list());
    buf
}

/// The replies to a world-server request, in sending order. Login info is
/// answered with the server name, the message of the day, the character
/// to enter with, an empty post-enter, all expansions and the character
/// list; entering the world is answered with the zone server's address;
/// other requests get no reply.
pub open spec fn world_replies(opcode: u16) -> Seq<(u16, Seq<u8>)> {
    if opcode == OP_SEND_LOGIN_INFO {
        seq![
            (OP_LOG_SERVER, encode_utf8("ADIF"@) + zeros(124)),
            (OP_MOTD, encode_utf8("Welcome to ADIF - Another Day In Forever"@) + seq![0u8]),
            (OP_ENTER_WORLD, encode_utf8("Ghouldan"@) + seq![0u8]),
            (OP_POST_ENTER_WORLD, Seq::empty()),
            (OP_EXPANSION_INFO, le32(0x7FFF)),
            (OP_SEND_CHAR_INFO, character_list()),
        ]
    } else if opcode == OP_ENTER_WORLD {
        seq![(OP_ZONE_SERVER_INFO, zone_server_info_spec(encode_utf8("127.0.0.1"@), ZONE_SERVER_PORT))]
    } else {
        Seq::empty()
    }
}

/// The messages the world server sends in answer to a client request.
pub fn handle_world_opcode(opcode: u16, data: &[u8]) -> (replies: Vec<AppMessage>)
    ensures
        messages_view(replies@) == world_replies(opcode),
{
    let mut replies: Vec<AppMessage> = Vec::new();
    if opcode == OP_SEND_LOGIN_INFO {
        let mut log_server: Vec<u8> = Vec::new();
        push_text(&mut log_server, "ADIF");
        crate::bytes::push_repeated(&mut log_server, 0, 124);
        assert(log_server@ =~= encode_utf8("ADIF"@) + zeros(124));
        replies.push(AppMessage { opcode: OP_LOG_SERVER, payload: log_server });
        let mut motd: Vec<u8> = Vec::new();
        push_text(&mut motd, "Welcome to ADIF - Another Day In Forever");
        motd.push(0u8);
        assert(motd@ =~= encode_utf8("Welcome to ADIF - Another Day In Forever"@) + seq![0u8]);
        replies.push(AppMessage { opcode: OP_MOTD, payload: motd });
        let mut enter: Vec<u8> = Vec::new();
        push_text(&mut enter, "Ghouldan");
        enter.push(0u8);
        assert(enter@ =~= encode_utf8("Ghouldan"@) + seq![0u8]);
        replies.push(AppMessage { opcode: OP_ENTER_WORLD, payload: enter });
        replies.push(AppMessage { opcode: OP_POST_ENTER_WORLD, payload: Vec::new() });
        let mut expansions: Vec<u8> = Vec::new();
        push_u32_le(&mut expansions, 0x7FFF);
        assert(expansions@ =~= le32(0x7FFF));
        replies.push(AppMessage { opcode: OP_EXPANSION_INFO, payload: expansions });
        replies.push(AppMessage { opcode: OP_SEND_CHAR_INFO, payload: build_character_list() });
        assert(replies@[3].payload@ =~= Seq::<u8>::empty());
    } else if opcode == OP_ENTER_WORLD {
        let route = ZoneRouteInfo {
            ip: "127.0.0.1".to_owned(),
            port: ZONE_SERVER_PORT,
            zone_id: 0,
            zone_short_name: "".to_owned(),
        };
        let info = build_zone_server_info_bytes(&route);
        let payload = vstd::slice::slice_to_vec(info.as_slice());
        assert(payload@ == zone_server_info_spec(encode_utf8("127.0.0.1"@), ZONE_SERVER_PORT));
        replies.push(AppMessage { opcode: OP_ZONE_SERVER_INFO, payload });
    }
    assert(messages_view(replies@) =~= world_replies(opcode));
    replies
}

} // verus!
