//! A friend of the broker (a server, not a client) says hello.
use crate::bytes_io::{bytes_as_slice, bytes_contents, bytes_from_vec};
use crate::shared_replication::broker_message::NodeId;
use crate::shared_replication::msg_game_payload::{GameMessage, GameMessageHeaders};
use bytes::Bytes;
use vstd::bytes::{spec_u32_from_le_bytes, spec_u32_to_le_bytes, u32_from_le_bytes, u32_to_le_bytes};
use vstd::prelude::*;
use vstd::slice::slice_subrange;

verus! {

/// The kinds of nodes that talk to the broker.
#[derive(Debug, Clone, Copy, PartialEq, Eq, Structural)]
pub enum ServerType {
    Client,
    Server,
    Spatial,
    Orchestrator,
    Authentification,
    NotAFriend,
}

impl ServerType {
    /// The byte of the kind; the catch-all kind is 0x06.
    pub open spec fn code(self) -> u8 {
        match self {
            ServerType::Client => 0x01,
            ServerType::Server => 0x02,
            ServerType::Spatial => 0x03,
            ServerType::Orchestrator => 0x04,
            ServerType::Authentification => 0x05,
            ServerType::NotAFriend => 0x06,
        }
    }

    /// The kind named by a byte; unknown bytes name no friend.
    pub open spec fn from_code(value: u8) -> ServerType {
        if value == 0x01 {
            ServerType::Client
        } else if value == 0x02 {
            ServerType::Server
        } else if value == 0x03 {
            ServerType::Spatial
        } else if value == 0x04 {
            ServerType::Orchestrator
        } else if value == 0x05 {
            ServerType::Authentification
        } else {
            ServerType::NotAFriend
        }
    }

    /// The byte of the kind.
    pub fn as_u8(self) -> (r: u8)
        ensures
            r == self.code(),
    {
        match self {
            ServerType::Client => 0x01,
            ServerType::Server => 0x02,
            ServerType::Spatial => 0x03,
            ServerType::Orchestrator => 0x04,
            ServerType::Authentification => 0x05,
            ServerType::NotAFriend => 0x06,
        }
    }
}

impl From<u8> for ServerType {
    fn from(value: u8) -> (r: Self) {
        if value == 0x01 {
            ServerType::Client
        } else if value == 0x02 {
            ServerType::Server
        } else if value == 0x03 {
            ServerType::Spatial
        } else if value == 0x04 {
            ServerType::Orchestrator
        } else if value == 0x05 {
            ServerType::Authentification
        } else {
            ServerType::NotAFriend
        }
    }
}

impl vstd::std_specs::convert::FromSpecImpl<u8> for ServerType {
    open spec fn obeys_from_spec() -> bool {
        true
    }

    open spec fn from_spec(v: u8) -> Self {
        ServerType::from_code(v)
    }
}

/// A server introduces itself: its kind and its id.
#[derive(Debug, Clone, Copy, PartialEq, Eq, Structural)]
pub struct ServerHelloMSG {
    pub server_type: ServerType,
    pub id: NodeId,
}

impl GameMessage for ServerHelloMSG {
    open spec fn spec_header() -> GameMessageHeaders {
        GameMessageHeaders::FriendHello
    }

    open spec fn spec_writable(&self) -> bool {
        true
    }

    /// The kind's byte, then the id on four little-endian bytes.
    open spec fn spec_encoding(&self) -> Seq<u8> {
        seq![self.server_type.code()] + spec_u32_to_le_bytes(self.id)
    }

    /// A known kind and at least five bytes; nothing is consumed.
    open spec fn spec_readable(data: Seq<u8>) -> bool {
        &&& data.len() >= 5
        &&& ServerType::from_code(data[0]) != ServerType::NotAFriend
    }

    open spec fn spec_reads(data: Seq<u8>, m: Self, rest: Seq<u8>) -> bool {
        &&& m.server_type == ServerType::from_code(data[0])
        &&& m.id == spec_u32_from_le_bytes(data.subrange(1, 5))
        &&& rest == data
    }

    fn header() -> (r: GameMessageHeaders) {
        GameMessageHeaders::FriendHello
    }

    fn serialize(&self) -> (r: Bytes) {
        let mut data: Vec<u8> = Vec::new();
        data.push(self.server_type.as_u8());
        let id = u32_to_le_bytes(self.id);
        data.push(id[0]);
        data.push(id[1]);
        data.push(id[2]);
        data.push(id[3]);
        assert(data@ =~= seq![self.server_type.code()] + spec_u32_to_le_bytes(self.id));
        bytes_from_vec(data)
    }

    fn deserialize(data: &mut Bytes) -> (r: Result<Self, String>) {
        let bytes = bytes_as_slice(data);
        if bytes.len() < 2 {
            return Err("ServerHelloMSG trop court".to_string());
        }
        let server_type = ServerType::from(bytes[0]);
        if server_type == ServerType::NotAFriend {
            return Err("ServerHelloMSG : type de serveur inconnu".to_string());
        }
        if bytes.len() < 1 + 4 {
            Err("ServerHelloMSG : données d'identification trop courtes".to_string())
        } else {
            let id = u32_from_le_bytes(slice_subrange(bytes, 1, 5));
            Ok(ServerHelloMSG { server_type, id })
        }
    }
}

/// A friend's hello of a known kind reads back as itself.
pub proof fn lemma_server_hello_round_trip(m: ServerHelloMSG)
    requires
        m.server_type != ServerType::NotAFriend,
    ensures
        ServerHelloMSG::spec_readable(m.spec_encoding()),
        forall|m2: ServerHelloMSG, rest: Seq<u8>|
            ServerHelloMSG::spec_reads(m.spec_encoding(), m2, rest) ==> m2 == m,
{
    vstd::bytes::lemma_auto_spec_u32_to_from_le_bytes();
    let e = m.spec_encoding();
    assert(e.subrange(1, 5) =~= spec_u32_to_le_bytes(m.id));
}

} // verus!
