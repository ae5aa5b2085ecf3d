//! Application-layer opcodes of the Titanium client, their names for logs,
//! and the application messages that carry them.
use vstd::prelude::*;

verus! {

// Login server opcodes.
pub const OP_LOGIN_SESSION_READY: u16 = 0x0001;
pub const OP_LOGIN_LOGIN: u16 = 0x0002;
pub const OP_LOGIN_SERVER_LIST_REQUEST: u16 = 0x0004;
pub const OP_LOGIN_PLAY_REQUEST: u16 = 0x000d;
pub const OP_LOGIN_CHAT_MESSAGE: u16 = 0x0016;
pub const OP_LOGIN_SERVER_LIST_RESPONSE: u16 = 0x0018;
pub const OP_LOGIN_ACCEPTED: u16 = 0x0017;
pub const OP_LOGIN_PLAY_RESPONSE: u16 = 0x0021;

// World server opcodes.
pub const OP_GUILDS_LIST: u16 = 0x6957;
pub const OP_APPROVE_WORLD: u16 = 0x3c25;
pub const OP_LOG_SERVER: u16 = 0x0fa6;
pub const OP_MOTD: u16 = 0x024d;
pub const OP_EXPANSION_INFO: u16 = 0x04ec;
pub const OP_POST_ENTER_WORLD: u16 = 0x52A4;
pub const OP_SEND_CHAR_INFO: u16 = 0x4513;
pub const OP_ZONE_SERVER_INFO: u16 = 0x61b6;

// Zone server opcodes.
pub const OP_ZONE_ENTRY: u16 = 0x7213;
pub const OP_PLAYER_PROFILE: u16 = 0x75df;
pub const OP_NEW_ZONE: u16 = 0x0920;
pub const OP_REQ_CLIENT_SPAWN: u16 = 0x0322;
pub const OP_ZONE_SPAWNS: u16 = 0x2e78;
pub const OP_SET_SERVER_FILTER: u16 = 0x6563;
pub const OP_SEND_ZONE_POINTS: u16 = 0x3eba;
pub const OP_REQ_NEW_ZONE: u16 = 0x7ac5;
pub const OP_TIME_OF_DAY: u16 = 0x1580;
pub const OP_SEND_EXP_ZONEIN: u16 = 0x0587;
pub const OP_CONSIDER: u16 = 0x65ca;
pub const OP_SPAWN_APPEARANCE: u16 = 0x7c32;
pub const OP_DELETE_SPAWN: u16 = 0x55bc;
pub const OP_CLIENT_READY: u16 = 0x5e20;
pub const OP_NEW_SPAWN: u16 = 0x1860;
pub const OP_WEATHER: u16 = 0x254d;
pub const OP_TARGET_MOUSE: u16 = 0x6c47;
pub const OP_CLIENT_UPDATE: u16 = 0x14cb;
pub const OP_CHANNEL_MESSAGE: u16 = 0x1004;
pub const OP_HP_UPDATE: u16 = 0x3bcf;
pub const OP_ACK_PACKET: u16 = 0x7752;
pub const OP_SEND_LOGIN_INFO: u16 = 0x4dd0;
pub const OP_ENTER_WORLD: u16 = 0x7cba;
pub const OP_WORLD_COMPLETE: u16 = 0x509d;
pub const OP_CRASH_DUMP: u16 = 0x7825;
pub const OP_WORLD_OBJECTS_SENT: u16 = 0x1fa1;
pub const OP_SPAWN_DOOR: u16 = 0x4c24;
pub const OP_CHAR_INVENTORY: u16 = 0x5394;
pub const OP_SEND_AA_STATS: u16 = 0x5918;
pub const OP_SEND_AA_TABLE: u16 = 0x367D;
pub const OP_UPDATE_AA: u16 = 0x5966;
pub const OP_SEND_TRIBUTES: u16 = 0x067A;
pub const OP_GUILD_TRIBUTES: u16 = 0x5E3A;
pub const OP_APP_COMBINED: u16 = 0x1900;
pub const OP_GROUND_SPAWN: u16 = 0x0f47;
pub const OP_EXP_UPDATE: u16 = 0x5ecd;
pub const OP_RAID_UPDATE: u16 = 0x1f21;

/// The log name of an opcode the zone protocol handles, "Unknown" for others.
pub open spec fn opcode_label(opcode: u16) -> Seq<char> {
    if opcode == OP_ZONE_ENTRY {
        "OP_ZoneEntry"@
    } else if opcode == OP_PLAYER_PROFILE {
        "OP_PlayerProfile"@
    } else if opcode == OP_NEW_ZONE {
        "OP_NewZone"@
    } else if opcode == OP_REQ_CLIENT_SPAWN {
        "OP_ReqClientSpawn"@
    } else if opcode == OP_ZONE_SPAWNS {
        "OP_ZoneSpawns"@
    } else if opcode == OP_SET_SERVER_FILTER {
        "OP_SetServerFilter"@
    } else if opcode == OP_SEND_ZONE_POINTS {
        "OP_SendZonepoints"@
    } else if opcode == OP_REQ_NEW_ZONE {
        "OP_ReqNewZone"@
    } else if opcode == OP_TIME_OF_DAY {
        "OP_TimeOfDay"@
    } else if opcode == OP_SEND_EXP_ZONEIN {
        "OP_SendExpZonein"@
    } else if opcode == OP_CONSIDER {
        "OP_Consider"@
    } else if opcode == OP_SPAWN_APPEARANCE {
        "OP_SpawnAppearance"@
    } else if opcode == OP_DELETE_SPAWN {
        "OP_DeleteSpawn"@
    } else if opcode == OP_CLIENT_READY {
        "OP_ClientReady"@
    } else if opcode == OP_NEW_SPAWN {
        "OP_NewSpawn"@
    } else if opcode == OP_WEATHER {
        "OP_Weather"@
    } else if opcode == OP_TARGET_MOUSE {
        "OP_TargetMouse"@
    } else if opcode == OP_CLIENT_UPDATE {
        "OP_ClientUpdate"@
    } else if opcode == OP_CHANNEL_MESSAGE {
        "OP_ChannelMessage"@
    } else if opcode == OP_HP_UPDATE {
        "OP_HPUpdate"@
    } else if opcode == OP_ACK_PACKET {
        "OP_AckPacket"@
    } else if opcode == OP_WORLD_COMPLETE {
        "OP_WorldComplete"@
    } else {
        "Unknown"@
    }
}

/// The name of an opcode, for logs.
pub fn opcode_name(opcode: u16) -> (name: &'static str)
    ensures
        name@ == opcode_label(opcode),
{
    if opcode == OP_ZONE_ENTRY {
        "OP_ZoneEntry"
    } else if opcode == OP_PLAYER_PROFILE {
        "OP_PlayerProfile"
    } else if opcode == OP_NEW_ZONE {
        "OP_NewZone"
    } else if opcode == OP_REQ_CLIENT_SPAWN {
        "OP_ReqClientSpawn"
    } else if opcode == OP_ZONE_SPAWNS {
        "OP_ZoneSpawns"
    } else if opcode == OP_SET_SERVER_FILTER {
        "OP_SetServerFilter"
    } else if opcode == OP_SEND_ZONE_POINTS {
        "OP_SendZonepoints"
    } else if opcode == OP_REQ_NEW_ZONE {
        "OP_ReqNewZone"
    } else if opcode == OP_TIME_OF_DAY {
        "OP_TimeOfDay"
    } else if opcode == OP_SEND_EXP_ZONEIN {
        "OP_SendExpZonein"
    } else if opcode == OP_CONSIDER {
        "OP_Consider"
    } else if opcode == OP_SPAWN_APPEARANCE {
        "OP_SpawnAppearance"
    } else if opcode == OP_DELETE_SPAWN {
        "OP_DeleteSpawn"
    } else if opcode == OP_CLIENT_READY {
        "OP_ClientReady"
    } else if opcode == OP_NEW_SPAWN {
        "OP_NewSpawn"
    } else if opcode == OP_WEATHER {
        "OP_Weather"
    } else if opcode == OP_TARGET_MOUSE {
        "OP_TargetMouse"
    } else if opcode == OP_CLIENT_UPDATE {
        "OP_ClientUpdate"
    } else if opcode == OP_CHANNEL_MESSAGE {
        "OP_ChannelMessage"
    } else if opcode == OP_HP_UPDATE {
        "OP_HPUpdate"
    } else if opcode == OP_ACK_PACKET {
        "OP_AckPacket"
    } else if opcode == OP_WORLD_COMPLETE {
        "OP_WorldComplete"
    } else {
        "Unknown"
    }
}

/// An application message: an opcode and its payload.
pub struct AppMessage {
    pub opcode: u16,
    pub payload: Vec<u8>,
}

/// The opcodes and payload bytes of a list of messages.
pub open spec fn messages_view(msgs: Seq<AppMessage>) -> Seq<(u16, Seq<u8>)> {
    msgs.map_values(|m: AppMessage| (m.opcode, m.payload@))
}

} // verus!
