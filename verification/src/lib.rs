//! Verified core of an MMO replication stack: the publish/subscribe broker's
//! wire protocol and routing tables, topic construction and topic patterns,
//! game message framing, and chunk geometry.
pub mod bytes_io;
pub mod core_types;
pub mod broker_protocol;
pub mod shared_replication;
pub mod collections;
pub mod broker;
pub mod game_client;
pub mod game_message;
pub mod game_server;
pub mod legacy_broker;
pub mod not_games;
pub mod orchestrator;
pub mod spatial_auth;
