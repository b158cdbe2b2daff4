//! Messages of the game servers: chunk hand-off, heartbeats, client spawns.
use crate::bytes_io::{
    bytes_as_slice, bytes_contents, bytes_len, bytes_mut_contents, bytes_mut_new, bytes_new,
    freeze, get_i32_le, get_u16_le, get_u32_le, get_u8, put_slice, put_u16_le, put_u32_le, put_u8,
    split_to,
};
use crate::shared_replication::broker_message::NodeId;
use crate::shared_replication::msg_client_server::{string_bytes, text_bytes, text_from_bytes};
use crate::shared_replication::msg_game_payload::{GameMessage, GameMessageHeaders};
use bytes::Bytes;
use vstd::bytes::{spec_u16_from_le_bytes, spec_u16_to_le_bytes, spec_u32_from_le_bytes, spec_u32_to_le_bytes};
use vstd::prelude::*;
use vstd::utf8::{decode_utf8, valid_utf8};

verus! {

/// Asks a game server to take a chunk.
#[derive(Debug, Clone, Copy, PartialEq, Eq, Structural)]
pub struct TakeChunkMessage {
    pub chunk_x: i32,
    pub chunk_y: i32,
}

impl GameMessage for TakeChunkMessage {
    open spec fn spec_header() -> GameMessageHeaders {
        GameMessageHeaders::TakeChunk
    }

    open spec fn spec_writable(&self) -> bool {
        true
    }

    /// x then y, each on four little-endian bytes.
    open spec fn spec_encoding(&self) -> Seq<u8> {
        spec_u32_to_le_bytes(self.chunk_x as u32) + spec_u32_to_le_bytes(self.chunk_y as u32)
    }

    /// At least eight bytes; the eight are consumed.
    open spec fn spec_readable(data: Seq<u8>) -> bool {
        data.len() >= 8
    }

    open spec fn spec_reads(data: Seq<u8>, m: Self, rest: Seq<u8>) -> bool {
        &&& m.chunk_x == spec_u32_from_le_bytes(data.take(4)) as i32
        &&& m.chunk_y == spec_u32_from_le_bytes(data.skip(4).take(4)) as i32
        &&& rest == data.skip(8)
    }

    fn header() -> (r: GameMessageHeaders) {
        GameMessageHeaders::TakeChunk
    }

    fn serialize(&self) -> (r: Bytes) {
        let mut buf = bytes_mut_new();
        put_u32_le(&mut buf, self.chunk_x as u32);
        put_u32_le(&mut buf, self.chunk_y as u32);
        freeze(buf)
    }

    fn deserialize(data: &mut Bytes) -> (r: Result<Self, String>) {
        if bytes_len(data) < 8 {
            return Err("TakeChunk trop court".to_string());
        }
        let ghost d = bytes_contents(*data);
        let chunk_x = get_i32_le(data);
        let chunk_y = get_i32_le(data);
        assert(d.skip(4).skip(4) =~= d.skip(8));
        Ok(TakeChunkMessage { chunk_x, chunk_y })
    }
}

/// What a game server reports about itself.
#[derive(Debug, Clone)]
pub struct Heartbeat {
    pub id: String,
    pub zone: String,
    pub player_count: usize,
    pub max_players: usize,
}

/// A heartbeat on its way to the orchestrator.  On the wire it is the JSON
/// text of the heartbeat preceded by its length on two little-endian bytes;
/// the JSON text itself is made and read outside this library.
#[derive(Debug, Clone)]
pub struct HeartbeatMessage {
    pub heartbeat: Heartbeat,
}

impl HeartbeatMessage {
    /// The header of heartbeat messages.
    pub fn header() -> (r: GameMessageHeaders)
        ensures
            r == GameMessageHeaders::Heartbeat,
    {
        GameMessageHeaders::Heartbeat
    }

    /// Frames the JSON text of a heartbeat: its length (cut to sixteen bits)
    /// on two little-endian bytes, then the text.  No text gives no bytes.
    pub fn frame(json: Option<&[u8]>) -> (r: Bytes)
        ensures
            bytes_contents(r) == match json {
                Some(j) => spec_u16_to_le_bytes(j@.len() as u16) + j@,
                None => Seq::<u8>::empty(),
            },
    {
        match json {
            Some(j) => {
                let mut buf = bytes_mut_new();
                put_u16_le(&mut buf, j.len() as u16);
                put_slice(&mut buf, j);
                freeze(buf)
            },
            None => bytes_new(),
        }
    }

    /// Takes the framed JSON text off the front of `data`: refused when the
    /// length or the text is cut short.
    pub fn unframe(data: &mut Bytes) -> (r: Result<Bytes, String>)
        ensures
            ({
                let d = bytes_contents(*old(data));
                let readable = d.len() >= 2 && d.len() - 2 >= spec_u16_from_le_bytes(d.take(2));
                &&& r is Ok <==> readable
                &&& r matches Ok(json) ==> {
                    let n = spec_u16_from_le_bytes(d.take(2)) as int;
                    &&& bytes_contents(json) == d.subrange(2, 2 + n)
                    &&& bytes_contents(*final(data)) == d.skip(2 + n)
                }
            }),
    {
        if bytes_len(data) < 2 {
            return Err("HeartbeatMessage trop court".to_string());
        }
        let ghost d = bytes_contents(*data);
        let message_len = get_u16_le(data) as usize;
        if bytes_len(data) < message_len {
            return Err("HeartbeatMessage : JSON incomplet".to_string());
        }
        let json = split_to(data, message_len);
        assert(d.skip(2).take(message_len as int) =~= d.subrange(2, 2 + message_len));
        assert(d.skip(2).skip(message_len as int) =~= d.skip(2 + message_len));
        Ok(json)
    }
}

/// The broker asks a game server to spawn a client.
#[derive(Debug, Clone)]
pub struct SpawnClientMsg {
    pub client_id: NodeId,
    pub pseudo: String,
    pub chunk_x: i32,
    pub chunk_y: i32,
}

impl GameMessage for SpawnClientMsg {
    open spec fn spec_header() -> GameMessageHeaders {
        GameMessageHeaders::SpawnClient
    }

    /// The pseudonym takes at most 255 bytes.
    open spec fn spec_writable(&self) -> bool {
        string_bytes(&self.pseudo).len() <= 255
    }

    /// Id, x, y on four little-endian bytes each, the pseudonym's length on
    /// one byte, then the pseudonym.
    open spec fn spec_encoding(&self) -> Seq<u8> {
        spec_u32_to_le_bytes(self.client_id) + spec_u32_to_le_bytes(self.chunk_x as u32)
            + spec_u32_to_le_bytes(self.chunk_y as u32) + seq![
            string_bytes(&self.pseudo).len() as u8,
        ] + string_bytes(&self.pseudo)
    }

    /// Thirteen bytes, then as many as the length byte says, valid UTF-8;
    /// all of it is consumed.
    open spec fn spec_readable(data: Seq<u8>) -> bool {
        &&& data.len() >= 13
        &&& data.len() - 13 >= data[12]
        &&& valid_utf8(data.subrange(13, 13 + data[12]))
    }

    open spec fn spec_reads(data: Seq<u8>, m: Self, rest: Seq<u8>) -> bool {
        &&& m.client_id == spec_u32_from_le_bytes(data.subrange(0, 4))
        &&& m.chunk_x == spec_u32_from_le_bytes(data.subrange(4, 8)) as i32
        &&& m.chunk_y == spec_u32_from_le_bytes(data.subrange(8, 12)) as i32
        &&& m.pseudo@ == decode_utf8(data.subrange(13, 13 + data[12]))
        &&& rest == data.skip(13 + data[12])
    }

    fn header() -> (r: GameMessageHeaders) {
        GameMessageHeaders::SpawnClient
    }

    fn serialize(&self) -> (r: Bytes) {
        let pseudo_bytes = text_bytes(&self.pseudo);
        let mut buf = bytes_mut_new();
        put_u32_le(&mut buf, self.client_id);
        put_u32_le(&mut buf, self.chunk_x as u32);
        put_u32_le(&mut buf, self.chunk_y as u32);
        put_u8(&mut buf, pseudo_bytes.len() as u8);
        put_slice(&mut buf, pseudo_bytes);
        freeze(buf)
    }

    fn deserialize(data: &mut Bytes) -> (r: Result<Self, String>) {
        if bytes_len(data) < 13 {
            return Err("SpawnClientMsg trop court".to_string());
        }
        let ghost d = bytes_contents(*data);
        let client_id = get_u32_le(data);
        let chunk_x = get_i32_le(data);
        let chunk_y = get_i32_le(data);
        let pseudo_len = get_u8(data) as usize;
        assert(d.take(4) =~= d.subrange(0, 4));
        assert(d.skip(4).take(4) =~= d.subrange(4, 8));
        assert(d.skip(4).skip(4).take(4) =~= d.subrange(8, 12));
        assert(d.skip(4).skip(4).skip(4).skip(1) =~= d.skip(13));
        assert(d.skip(4).skip(4).skip(4)[0] == d[12]);
        if bytes_len(data) < pseudo_len {
            return Err("SpawnClientMsg : pseudo incomplet".to_string());
        }
        let pseudo_bytes = split_to(data, pseudo_len);
        assert(d.skip(13).take(pseudo_len as int) =~= d.subrange(13, 13 + pseudo_len));
        assert(d.skip(13).skip(pseudo_len as int) =~= d.skip(13 + pseudo_len));
        match text_from_bytes(bytes_as_slice(&pseudo_bytes)) {
            Some(pseudo) => Ok(SpawnClientMsg { client_id, pseudo, chunk_x, chunk_y }),
            None => Err("SpawnClientMsg : pseudo invalide".to_string()),
        }
    }
}

/// A written spawn order reads back as itself, consuming exactly its
/// bytes.
pub proof fn lemma_spawn_client_round_trip(m: SpawnClientMsg, tail: Seq<u8>)
    requires
        m.spec_writable(),
    ensures
        SpawnClientMsg::spec_readable(m.spec_encoding() + tail),
        forall|m2: SpawnClientMsg, rest: Seq<u8>|
            SpawnClientMsg::spec_reads(m.spec_encoding() + tail, m2, rest) ==> {
                &&& m2.client_id == m.client_id
                &&& m2.chunk_x == m.chunk_x
                &&& m2.chunk_y == m.chunk_y
                &&& m2.pseudo@ == m.pseudo@
                &&& rest == tail
            },
{
    vstd::bytes::lemma_auto_spec_u32_to_from_le_bytes();
    let b = string_bytes(&m.pseudo);
    let e = m.spec_encoding() + tail;
    assert(e.subrange(0, 4) =~= spec_u32_to_le_bytes(m.client_id));
    assert(e.subrange(4, 8) =~= spec_u32_to_le_bytes(m.chunk_x as u32));
    assert(e.subrange(8, 12) =~= spec_u32_to_le_bytes(m.chunk_y as u32));
    assert(e[12] == b.len() as u8);
    assert(e.subrange(13, 13 + b.len() as int) =~= b);
    assert(e.skip(13 + b.len() as int) =~= tail);
    let (x, y) = (m.chunk_x, m.chunk_y);
    assert((x as u32) as i32 == x) by (bit_vector);
    assert((y as u32) as i32 == y) by (bit_vector);
    vstd::utf8::encode_utf8_valid_utf8(m.pseudo@);
    vstd::utf8::encode_utf8_decode_utf8(m.pseudo@);
}

} // verus!
