//! Servers introduce themselves to the broker; the orchestrator is asked for
//! more servers.
use crate::bytes_io::{bytes_contents, bytes_mut_contents, bytes_mut_new, freeze, get_u8, put_u8};
use crate::game_message::{GameMessage, GameMessageHeaders, NetRead, NetWrite, NetWriteTo};
use crate::shared_replication::broker_message::NodeId;
use bytes::{Bytes, BytesMut};
use vstd::prelude::*;

verus! {

/// The kinds of nodes that talk to the broker.
#[derive(Debug, Clone, Copy, PartialEq, Eq, Structural)]
pub enum ServerType {
    Client,
    Server,
    Spatial,
    Orchestrator,
    Authentification,
    NotAFriend,
}

impl ServerType {
    /// The kind named by a byte; unknown bytes name no friend.
    pub open spec fn from_code(value: u8) -> ServerType {
        if value == 0x01 {
            ServerType::Client
        } else if value == 0x02 {
            ServerType::Server
        } else if value == 0x03 {
            ServerType::Spatial
        } else if value == 0x04 {
            ServerType::Orchestrator
        } else if value == 0x05 {
            ServerType::Authentification
        } else {
            ServerType::NotAFriend
        }
    }
}

impl From<u8> for ServerType {
    fn from(value: u8) -> (r: Self) {
        if value == 0x01 {
            ServerType::Client
        } else if value == 0x02 {
            ServerType::Server
        } else if value == 0x03 {
            ServerType::Spatial
        } else if value == 0x04 {
            ServerType::Orchestrator
        } else if value == 0x05 {
            ServerType::Authentification
        } else {
            ServerType::NotAFriend
        }
    }
}

impl vstd::std_specs::convert::FromSpecImpl<u8> for ServerType {
    open spec fn obeys_from_spec() -> bool {
        true
    }

    open spec fn from_spec(v: u8) -> Self {
        ServerType::from_code(v)
    }
}

/// A server introduces itself: its kind and its id.
#[derive(Debug, Clone, Copy, PartialEq, Eq, Structural)]
pub struct ServerHelloMSG {
    pub server_type: ServerType,
    pub id: NodeId,
}

/// The orchestrator is asked for `server_count` more servers.
#[derive(Debug, Clone, Copy, PartialEq, Eq, Structural)]
pub struct SpawnServerMSG {
    pub server_count: u8,
}

impl NetRead for SpawnServerMSG {
    /// Reading an empty buffer does not return.
    open spec fn spec_read_returns(data: Seq<u8>) -> bool {
        data.len() >= 1
    }

    open spec fn spec_readable(data: Seq<u8>) -> bool {
        true
    }

    open spec fn spec_reads(data: Seq<u8>, m: Self, rest: Seq<u8>) -> bool {
        m.server_count == data[0] && rest == data.skip(1)
    }

    fn deserialize(data: &mut Bytes) -> (r: Result<Self, String>) {
        Ok(SpawnServerMSG { server_count: get_u8(data) })
    }
}

impl NetWriteTo for SpawnServerMSG {
    open spec fn spec_writable(&self) -> bool {
        true
    }

    open spec fn spec_written(&self) -> Seq<u8> {
        seq![self.server_count]
    }

    fn write_to(&self, buf: &mut BytesMut) {
        put_u8(buf, self.server_count);
    }
}

impl NetWrite for SpawnServerMSG {
    open spec fn spec_serializable(&self) -> bool {
        true
    }

    open spec fn spec_serialized(&self) -> Seq<u8> {
        seq![self.server_count]
    }

    fn serialize(&self) -> (r: Bytes) {
        let mut buf = bytes_mut_new();
        self.write_to(&mut buf);
        freeze(buf)
    }
}

impl GameMessage for SpawnServerMSG {
    open spec fn spec_header() -> GameMessageHeaders {
        GameMessageHeaders::SpawnServer
    }

    fn header() -> (r: GameMessageHeaders) {
        GameMessageHeaders::SpawnServer
    }
}

} // verus!
