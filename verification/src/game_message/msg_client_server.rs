//! Client to server messages: inputs with their history, and hello.
use crate::bytes_io::{
    bytes_as_slice, bytes_contents, bytes_len, bytes_mut_contents, bytes_mut_new, freeze,
    get_u16_le, put_slice, put_u16_le, split_to,
};
use crate::core_types::helpers::Tick;
use crate::game_message::msg_entities::NetworkEntityId;
use crate::game_message::{GameMessage, GameMessageHeaders, NetRead, NetWrite, NetWriteTo};
use crate::shared_replication::broker_message::NodeId;
use crate::shared_replication::msg_client_server::{string_bytes, text_bytes, text_from_bytes};
use bytes::{Bytes, BytesMut};
use std::collections::VecDeque;
use vstd::bytes::{spec_u16_from_le_bytes, spec_u16_to_le_bytes};
use vstd::prelude::*;
use vstd::utf8::{decode_utf8, valid_utf8};

verus! {

/// What a player presses in one frame.
#[derive(Debug, Clone, Copy, Default, PartialEq, Eq, Structural)]
pub struct PlayerInput {
    pub up: bool,
    pub down: bool,
    pub left: bool,
    pub right: bool,
    pub attack: bool,
    pub shoot: bool,
    pub build: bool,
}

/// The recent inputs of a player, oldest first, with the frame of each.
#[derive(Debug, Clone)]
pub struct InputBuffer {
    pub history: VecDeque<(Tick, PlayerInput)>,
    /// How many inputs the history keeps.
    pub max_size: u8,
}

impl InputBuffer {
    /// An empty history keeping up to `max_size` inputs.
    pub fn new(max_size: u8) -> (r: Self)
        ensures
            r.history@ == Seq::<(Tick, PlayerInput)>::empty(),
            r.max_size == max_size,
    {
        InputBuffer { history: VecDeque::with_capacity(max_size as usize), max_size }
    }

    /// Adds the input of frame `time`, first dropping the oldest one when the
    /// history is full.
    pub fn push(&mut self, input: PlayerInput, time: Tick)
        ensures
            final(self).max_size == old(self).max_size,
            final(self).history@ == (if old(self).history@.len() >= old(self).max_size
                && old(self).history@.len() > 0 {
                old(self).history@.drop_first()
            } else {
                old(self).history@
            }).push((time, input)),
    {
        if self.history.len() >= self.max_size as usize {
            let _ = self.history.pop_front();
        }
        self.history.push_back((time, input));
    }

    /// Takes over the history and the size of `other_buffer`.
    pub fn recv_other(&mut self, other_buffer: InputBuffer)
        ensures
            final(self).max_size == other_buffer.max_size,
            final(self).history@ == other_buffer.history@,
    {
        self.max_size = other_buffer.max_size;
        self.history = other_buffer.history;
    }

    /// The most recent input, if any.
    pub fn get_last_input(&self) -> (r: Option<(Tick, PlayerInput)>)
        ensures
            r == (if self.history@.len() == 0 {
                None
            } else {
                Some(self.history@.last())
            }),
    {
        let n = self.history.len();
        if n == 0 {
            None
        } else {
            Some(self.history[n - 1])
        }
    }
}

/// Pushing keeps the history within its size (at least one input is
/// kept), and the pushed input is the last one.
pub proof fn lemma_push_bounded(h: Seq<(Tick, PlayerInput)>, max_size: u8, input: PlayerInput, time: Tick)
    requires
        h.len() <= if max_size == 0 {
            1
        } else {
            max_size as int
        },
    ensures
        ({
            let after = (if h.len() >= max_size && h.len() > 0 {
                h.drop_first()
            } else {
                h
            }).push((time, input));
            &&& after.len() <= if max_size == 0 {
                1
            } else {
                max_size as int
            }
            &&& after.last() == (time, input)
        }),
{
}

/// A client's inputs on their way to its game server.
#[derive(Debug, Clone)]
pub struct PlayerInputMsg {
    pub emitter_id: NodeId,
    pub entity_id: NetworkEntityId,
    pub input_data: InputBuffer,
}

/// A client says hello with its pseudonym.
#[derive(Debug, Clone)]
pub struct ClientHelloMsg {
    pub pseudo: String,
}

/// The bytes of a hello: the pseudonym's UTF-8 length on two little-endian
/// bytes (cut to sixteen bits), then the pseudonym.
pub open spec fn hello_encoding(pseudo: &String) -> Seq<u8> {
    spec_u16_to_le_bytes(string_bytes(pseudo).len() as u16) + string_bytes(pseudo)
}

impl NetWriteTo for ClientHelloMsg {
    open spec fn spec_writable(&self) -> bool {
        true
    }

    open spec fn spec_written(&self) -> Seq<u8> {
        hello_encoding(&self.pseudo)
    }

    fn write_to(&self, buf: &mut BytesMut) {
        let pseudo_bytes = text_bytes(&self.pseudo);
        put_u16_le(buf, pseudo_bytes.len() as u16);
        put_slice(buf, pseudo_bytes);
    }
}

impl NetWrite for ClientHelloMsg {
    open spec fn spec_serializable(&self) -> bool {
        true
    }

    open spec fn spec_serialized(&self) -> Seq<u8> {
        hello_encoding(&self.pseudo)
    }

    fn serialize(&self) -> (r: Bytes) {
        let mut buf = bytes_mut_new();
        self.write_to(&mut buf);
        freeze(buf)
    }
}

impl NetRead for ClientHelloMsg {
    open spec fn spec_read_returns(data: Seq<u8>) -> bool {
        true
    }

    /// A length, that many bytes after it, valid UTF-8; all are consumed.
    open spec fn spec_readable(data: Seq<u8>) -> bool {
        &&& data.len() >= 2
        &&& data.len() - 2 >= spec_u16_from_le_bytes(data.take(2))
        &&& valid_utf8(data.subrange(2, 2 + spec_u16_from_le_bytes(data.take(2))))
    }

    open spec fn spec_reads(data: Seq<u8>, m: Self, rest: Seq<u8>) -> bool {
        let n = spec_u16_from_le_bytes(data.take(2)) as int;
        &&& m.pseudo@ == decode_utf8(data.subrange(2, 2 + n))
        &&& rest == data.skip(2 + n)
    }

    fn deserialize(data: &mut Bytes) -> (r: Result<Self, String>) {
        if bytes_len(data) < 2 {
            return Err("ClientHelloMsg trop court".to_string());
        }
        let ghost d = bytes_contents(*data);
        let pseudo_len = get_u16_le(data) as usize;
        if bytes_len(data) < pseudo_len {
            return Err("ClientHelloMsg : données de pseudo manquantes".to_string());
        }
        let pseudo_bytes = split_to(data, pseudo_len);
        assert(d.skip(2).take(pseudo_len as int) =~= d.subrange(2, 2 + pseudo_len));
        assert(d.skip(2).skip(pseudo_len as int) =~= d.skip(2 + pseudo_len));
        match text_from_bytes(bytes_as_slice(&pseudo_bytes)) {
            Some(pseudo) => Ok(ClientHelloMsg { pseudo }),
            None => Err("ClientHelloMsg : pseudo non valide UTF-8".to_string()),
        }
    }
}

impl GameMessage for ClientHelloMsg {
    open spec fn spec_header() -> GameMessageHeaders {
        GameMessageHeaders::ClientHello
    }

    fn header() -> (r: GameMessageHeaders) {
        GameMessageHeaders::ClientHello
    }
}

/// A written hello whose pseudonym fits in sixteen bits of length reads
/// back with the same pseudonym, consuming exactly its bytes.
pub proof fn lemma_hello_round_trip(m: ClientHelloMsg, tail: Seq<u8>)
    requires
        string_bytes(&m.pseudo).len() <= u16::MAX,
    ensures
        ClientHelloMsg::spec_readable(hello_encoding(&m.pseudo) + tail),
        forall|m2: ClientHelloMsg, rest: Seq<u8>|
            ClientHelloMsg::spec_reads(hello_encoding(&m.pseudo) + tail, m2, rest) ==> m2.pseudo@
                == m.pseudo@ && rest == tail,
{
    vstd::bytes::lemma_auto_spec_u16_to_from_le_bytes();
    let b = string_bytes(&m.pseudo);
    let e = hello_encoding(&m.pseudo) + tail;
    assert(e.take(2) =~= spec_u16_to_le_bytes(b.len() as u16));
    assert(e.subrange(2, 2 + b.len() as int) =~= b);
    assert(e.skip(2 + b.len() as int) =~= tail);
    vstd::utf8::encode_utf8_valid_utf8(m.pseudo@);
    vstd::utf8::encode_utf8_decode_utf8(m.pseudo@);
}

} // verus!
