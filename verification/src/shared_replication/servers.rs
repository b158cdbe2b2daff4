//! The kinds of nodes as an older part of the code reads them: here the
//! bytes of clients and servers are the other way round.
use vstd::prelude::*;

verus! {

/// The kinds of nodes.
#[derive(Debug, Clone, Copy, PartialEq, Eq, Structural)]
pub enum ServerType {
    Client,
    Server,
    Spatial,
    Orchestrator,
    Authentification,
    NotAFriend,
}

impl ServerType {
    /// The kind named by a byte: 0x01 is a server, 0x02 a client.
    pub open spec fn from_code(value: u8) -> ServerType {
        if value == 0x01 {
            ServerType::Server
        } else if value == 0x02 {
            ServerType::Client
        } else if value == 0x03 {
            ServerType::Spatial
        } else if value == 0x04 {
            ServerType::Orchestrator
        } else if value == 0x05 {
            ServerType::Authentification
        } else {
            ServerType::NotAFriend
        }
    }
}

impl From<u8> for ServerType {
    fn from(value: u8) -> (r: Self) {
        if value == 0x01 {
            ServerType::Server
        } else if value == 0x02 {
            ServerType::Client
        } else if value == 0x03 {
            ServerType::Spatial
        } else if value == 0x04 {
            ServerType::Orchestrator
        } else if value == 0x05 {
            ServerType::Authentification
        } else {
            ServerType::NotAFriend
        }
    }
}

impl vstd::std_specs::convert::FromSpecImpl<u8> for ServerType {
    open spec fn obeys_from_spec() -> bool {
        true
    }

    open spec fn from_spec(v: u8) -> Self {
        ServerType::from_code(v)
    }
}

} // verus!
