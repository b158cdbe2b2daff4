//! Messages of the game servers: chunk hand-off orders, heartbeats and
//! client spawns.
use crate::bytes_io::{
    bytes_as_slice, bytes_contents, bytes_len, bytes_mut_contents, bytes_mut_new, freeze,
    get_u32_le, get_u8, put_slice, put_u32_le, put_u8, split_to,
};
use crate::core_types::chunks::GameChunk;
use crate::game_message::core_types::chunk_encoding;
use crate::game_message::{GameMessage, GameMessageHeaders, NetRead, NetWrite, NetWriteTo};
use crate::shared_replication::broker_message::NodeId;
use crate::shared_replication::msg_client_server::{string_bytes, text_bytes, text_from_bytes};
use bytes::{Bytes, BytesMut};
use vstd::bytes::{spec_u16_from_le_bytes, spec_u32_from_le_bytes, spec_u32_to_le_bytes};
use vstd::prelude::*;
use vstd::utf8::{decode_utf8, valid_utf8};

verus! {

/// What a chunk hand-off message asks or reports.
#[derive(Debug, Clone, Copy, PartialEq, Eq, Structural)]
pub enum ChunkHandOffAction {
    /// Asks a game server to take an area from someone.
    TakeArea,
    /// A game server tells another it will take the area.
    ReadyToTake,
    /// The spatial server takes an area back from a game server.
    ForceReleaseAera,
    /// A game server tells the spatial server it took an area.
    AeraTook,
    /// A game server tells the spatial server it released an area.
    AeraGiven,
}

/// What a game server reports about itself.
#[derive(Debug, Clone)]
pub struct Heartbeat {
    pub id: String,
    pub node_id: NodeId,
    pub zone: String,
    pub player_count: usize,
    pub max_players: usize,
}

/// A heartbeat on its way to the orchestrator.
#[derive(Debug, Clone)]
pub struct HeartbeatMessage {
    pub heartbeat: Heartbeat,
}

/// The broker asks a game server to spawn a client in a chunk.
#[derive(Debug, Clone)]
pub struct SpawnClientMsg {
    pub client_id: NodeId,
    pub pseudo: String,
    pub chunk: GameChunk,
}

/// The bytes of a spawn order: the id on four little-endian bytes, the
/// chunk, the pseudonym's length on one byte, the pseudonym.
pub open spec fn spawn_encoding(m: &SpawnClientMsg) -> Seq<u8> {
    spec_u32_to_le_bytes(m.client_id) + chunk_encoding(m.chunk) + seq![
        string_bytes(&m.pseudo).len() as u8,
    ] + string_bytes(&m.pseudo)
}

impl NetWriteTo for SpawnClientMsg {
    /// The pseudonym takes at most 255 bytes.
    open spec fn spec_writable(&self) -> bool {
        string_bytes(&self.pseudo).len() <= 255
    }

    open spec fn spec_written(&self) -> Seq<u8> {
        spawn_encoding(self)
    }

    fn write_to(&self, buf: &mut BytesMut) {
        put_u32_le(buf, self.client_id);
        self.chunk.write_to(buf);
        let pseudo_bytes = text_bytes(&self.pseudo);
        put_u8(buf, pseudo_bytes.len() as u8);
        put_slice(buf, pseudo_bytes);
    }
}

impl NetWrite for SpawnClientMsg {
    open spec fn spec_serializable(&self) -> bool {
        string_bytes(&self.pseudo).len() <= 255
    }

    open spec fn spec_serialized(&self) -> Seq<u8> {
        spawn_encoding(self)
    }

    fn serialize(&self) -> (r: Bytes) {
        let mut buf = bytes_mut_new();
        self.write_to(&mut buf);
        freeze(buf)
    }
}

impl NetRead for SpawnClientMsg {
    /// Reading stops on a buffer of exactly eight bytes: the length byte of
    /// the pseudonym is missing.
    open spec fn spec_read_returns(data: Seq<u8>) -> bool {
        data.len() != 8
    }

    /// Nine bytes at least, then as many as the length byte says, valid
    /// UTF-8; all of it is consumed.
    open spec fn spec_readable(data: Seq<u8>) -> bool {
        &&& data.len() >= 9
        &&& data.len() - 9 >= data[8]
        &&& valid_utf8(data.subrange(9, 9 + data[8]))
    }

    open spec fn spec_reads(data: Seq<u8>, m: Self, rest: Seq<u8>) -> bool {
        &&& m.client_id == spec_u32_from_le_bytes(data.subrange(0, 4))
        &&& m.chunk.x == spec_u16_from_le_bytes(data.subrange(4, 6)) as i16
        &&& m.chunk.y == spec_u16_from_le_bytes(data.subrange(6, 8)) as i16
        &&& m.pseudo@ == decode_utf8(data.subrange(9, 9 + data[8]))
        &&& rest == data.skip(9 + data[8])
    }

    fn deserialize(data: &mut Bytes) -> (r: Result<Self, String>) {
        if bytes_len(data) < 4 {
            return Err("SpawnClientMsg trop court".to_string());
        }
        let ghost d = bytes_contents(*data);
        let client_id = get_u32_le(data);
        let chunk = match GameChunk::deserialize(data) {
            Ok(chunk) => chunk,
            Err(_) => {
                return Err("SpawnClientMsg : GameChunk: buffer trop court".to_string());
            },
        };
        assert(d.take(4) =~= d.subrange(0, 4));
        assert(d.skip(4).take(2) =~= d.subrange(4, 6));
        assert(d.skip(4).skip(2).take(2) =~= d.subrange(6, 8));
        assert(d.skip(4).skip(4) =~= d.skip(8));
        let pseudo_len = get_u8(data) as usize;
        assert(d.skip(8).skip(1) =~= d.skip(9));
        if bytes_len(data) < pseudo_len {
            return Err("SpawnClientMsg : pseudo incomplet".to_string());
        }
        let pseudo_bytes = split_to(data, pseudo_len);
        assert(d.skip(9).take(pseudo_len as int) =~= d.subrange(9, 9 + pseudo_len));
        assert(d.skip(9).skip(pseudo_len as int) =~= d.skip(9 + pseudo_len));
        match text_from_bytes(bytes_as_slice(&pseudo_bytes)) {
            Some(pseudo) => Ok(SpawnClientMsg { client_id, pseudo, chunk }),
            None => Err("SpawnClientMsg : pseudo invalide".to_string()),
        }
    }
}

impl GameMessage for SpawnClientMsg {
    open spec fn spec_header() -> GameMessageHeaders {
        GameMessageHeaders::SpawnClient
    }

    fn header() -> (r: GameMessageHeaders) {
        GameMessageHeaders::SpawnClient
    }
}

} // verus!
