//! Chunks on the wire.
use crate::bytes_io::{bytes_contents, bytes_len, bytes_mut_contents, bytes_mut_new, freeze, get_i16_le, put_i16_le};
use crate::core_types::chunks::{GameChunk, GameChunkAera};
use crate::game_message::{NetRead, NetWrite, NetWriteTo};
use bytes::{Bytes, BytesMut};
use vstd::bytes::{spec_u16_from_le_bytes, spec_u16_to_le_bytes};
use vstd::prelude::*;

verus! {

/// The bytes of a chunk: x then y, each on two little-endian bytes.
pub open spec fn chunk_encoding(c: GameChunk) -> Seq<u8> {
    spec_u16_to_le_bytes(c.x as u16) + spec_u16_to_le_bytes(c.y as u16)
}

impl NetWriteTo for GameChunk {
    open spec fn spec_writable(&self) -> bool {
        true
    }

    open spec fn spec_written(&self) -> Seq<u8> {
        chunk_encoding(*self)
    }

    fn write_to(&self, buf: &mut BytesMut) {
        put_i16_le(buf, self.x);
        put_i16_le(buf, self.y);
    }
}

impl NetWrite for GameChunk {
    open spec fn spec_serializable(&self) -> bool {
        true
    }

    open spec fn spec_serialized(&self) -> Seq<u8> {
        chunk_encoding(*self)
    }

    fn serialize(&self) -> (r: Bytes) {
        let mut buf = bytes_mut_new();
        self.write_to(&mut buf);
        freeze(buf)
    }
}

impl NetRead for GameChunk {
    open spec fn spec_read_returns(data: Seq<u8>) -> bool {
        true
    }

    /// At least four bytes; the four are consumed.
    open spec fn spec_readable(data: Seq<u8>) -> bool {
        data.len() >= 4
    }

    open spec fn spec_reads(data: Seq<u8>, m: Self, rest: Seq<u8>) -> bool {
        &&& m.x == spec_u16_from_le_bytes(data.take(2)) as i16
        &&& m.y == spec_u16_from_le_bytes(data.skip(2).take(2)) as i16
        &&& rest == data.skip(4)
    }

    fn deserialize(data: &mut Bytes) -> (r: Result<Self, String>) {
        if bytes_len(data) < 4 {
            return Err("GameChunk: buffer trop court".to_string());
        }
        let ghost d = bytes_contents(*data);
        let x = get_i16_le(data);
        let y = get_i16_le(data);
        assert(d.skip(2).skip(2) =~= d.skip(4));
        Ok(GameChunk { x, y })
    }
}

/// A written chunk reads back as itself, consuming its four bytes.
pub proof fn lemma_chunk_round_trip(c: GameChunk, tail: Seq<u8>)
    ensures
        GameChunk::spec_readable(chunk_encoding(c) + tail),
        forall|m: GameChunk, rest: Seq<u8>|
            GameChunk::spec_reads(chunk_encoding(c) + tail, m, rest) ==> m == c && rest == tail,
{
    vstd::bytes::lemma_auto_spec_u16_to_from_le_bytes();
    let e = chunk_encoding(c) + tail;
    assert(e.take(2) =~= spec_u16_to_le_bytes(c.x as u16));
    assert(e.skip(2).take(2) =~= spec_u16_to_le_bytes(c.y as u16));
    assert(e.skip(4) =~= tail);
    let (x, y) = (c.x, c.y);
    assert((x as u16) as i16 == x) by (bit_vector);
    assert((y as u16) as i16 == y) by (bit_vector);
}

/// A rectangle of chunks as it travels.
#[derive(Debug, Clone, Copy, PartialEq, Eq, Structural)]
pub struct SerializedGameChunkAera {
    x_min: i16,
    x_max: i16,
    y_min: i16,
    y_max: i16,
}

impl From<GameChunkAera> for SerializedGameChunkAera {
    fn from(value: GameChunkAera) -> (r: Self) {
        SerializedGameChunkAera {
            x_min: value.x_min,
            x_max: value.x_max,
            y_min: value.y_min,
            y_max: value.y_max,
        }
    }
}

impl vstd::std_specs::convert::FromSpecImpl<GameChunkAera> for SerializedGameChunkAera {
    open spec fn obeys_from_spec() -> bool {
        true
    }

    closed spec fn from_spec(v: GameChunkAera) -> Self {
        SerializedGameChunkAera { x_min: v.x_min, x_max: v.x_max, y_min: v.y_min, y_max: v.y_max }
    }
}

impl From<SerializedGameChunkAera> for GameChunkAera {
    fn from(value: SerializedGameChunkAera) -> (r: Self) {
        GameChunkAera {
            x_min: value.x_min,
            x_max: value.x_max,
            y_min: value.y_min,
            y_max: value.y_max,
        }
    }
}

impl vstd::std_specs::convert::FromSpecImpl<SerializedGameChunkAera> for GameChunkAera {
    open spec fn obeys_from_spec() -> bool {
        true
    }

    closed spec fn from_spec(v: SerializedGameChunkAera) -> Self {
        GameChunkAera { x_min: v.x_min, x_max: v.x_max, y_min: v.y_min, y_max: v.y_max }
    }
}

} // verus!
