//! Protocol, wire-format and game-rule logic of the ADIF game server.
pub mod accounts;
pub mod bytes;
pub mod codec;
pub mod packet;
pub mod fragment;
pub mod framing;
pub mod session;
pub mod hate_list;
pub mod combat;
pub mod patrol;
pub mod camp;
pub mod chat;
pub mod game_time;
pub mod spawn;
pub mod entity_id;
pub mod client_sessions;
pub mod zone_registry;
pub mod titanium;
pub mod opcodes;
pub mod text;
pub mod item;
pub mod login;
pub mod world;
pub mod config;
pub mod transport;
pub mod bridge;
pub mod zone_client;
pub mod zone_config;
pub mod loot;
pub mod zone_records;
pub mod tick;
pub mod ai;
