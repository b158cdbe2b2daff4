//! Messages shared by the broker, its clients and the game servers.
pub mod broker_client;
pub mod broker_message;
pub mod broker_protocol;
pub mod broker_topics;
pub mod msg_client_server;
pub mod msg_dgs;
pub mod msg_game_payload;
pub mod msg_servers;
pub mod servers;

use vstd::prelude::*;

verus! {

/// The stream of the handshake.
pub const STREAM_HANDSHAKE: u16 = 0;

/// The stream of world snapshots.
pub const STREAM_SNAPSHOTS: u16 = 100;

/// The stream of player inputs.
pub const STREAM_INPUTS: u16 = 101;

/// The stream of heartbeats.
pub const STREAM_HEARTBEAT: u16 = 102;

/// Where a game server can be reached, and the zone it serves.
#[derive(Debug, Clone)]
pub struct ServerInfo {
    pub ip: String,
    pub port: u16,
    pub zone: String,
}

/// A player logs in.
#[derive(Debug, Clone)]
pub struct Login {
    pub username: String,
    pub password: String,
}

/// A player registers.
#[derive(Debug, Clone)]
pub struct Register {
    pub username: String,
    pub password: String,
}

/// The answer to a login: the player's id and the server to join.
#[derive(Debug, Clone)]
pub struct LoginResponse {
    pub player_id: String,
    pub server: ServerInfo,
}

} // verus!
