//! Game messages between clients, game servers and the broker: a header byte
//! names the kind, the message's bytes follow.
pub mod core_types;
pub mod msg_client_server;
pub mod msg_dgs;
pub mod msg_entities;
pub mod msg_servers;

use crate::broker_protocol::topics::Topic;
use crate::bytes_io::{
    bytes_contents, bytes_mut_contents, bytes_mut_len, bytes_mut_set, put_u16_le, put_u8,
};
use crate::shared_replication::broker_message::{BrokerMessage, ProtocolTag};
use bytes::{Bytes, BytesMut};
use vstd::bytes::spec_u16_to_le_bytes;
use vstd::prelude::*;

verus! {

/// The kinds of game messages.
#[derive(Debug, Clone, Copy, PartialEq, Eq, Structural)]
pub enum GameMessageHeaders {
    /// Shards broadcast the state of the world.
    Snapshot,
    /// Client to shard.
    ClientInput,
    /// The broker broadcasts a client's hello.
    ClientHello,
    /// The broker tells a shard to spawn a client.
    SpawnClient,
    /// Broker to client.
    ClientWelcome,
    /// A client went away.
    ClientDisconnect,
    /// From a shard to the broker, then to the orchestrator.
    Heartbeat,
    /// The orchestrator is asked for servers.
    SpawnServer,
    /// Something that is not a client says hello.
    FriendHello,
    /// Between shards.
    ChunkHandOff,
    /// Any other byte.
    DiscardedMessageBecauseYouKnow,
}

impl GameMessageHeaders {
    /// The header byte; the catch-all kind is sent as 0x11.
    pub open spec fn code(self) -> u8 {
        match self {
            GameMessageHeaders::Snapshot => 0x04,
            GameMessageHeaders::ClientInput => 0x05,
            GameMessageHeaders::ClientHello => 0x06,
            GameMessageHeaders::SpawnClient => 0x07,
            GameMessageHeaders::ClientWelcome => 0x08,
            GameMessageHeaders::ClientDisconnect => 0x09,
            GameMessageHeaders::Heartbeat => 0x0B,
            GameMessageHeaders::SpawnServer => 0x0C,
            GameMessageHeaders::FriendHello => 0x0F,
            GameMessageHeaders::ChunkHandOff => 0x10,
            GameMessageHeaders::DiscardedMessageBecauseYouKnow => 0x11,
        }
    }

    /// The kind named by a header byte; unknown bytes name the catch-all.
    pub open spec fn from_code(value: u8) -> GameMessageHeaders {
        if value == 0x04 {
            GameMessageHeaders::Snapshot
        } else if value == 0x05 {
            GameMessageHeaders::ClientInput
        } else if value == 0x06 {
            GameMessageHeaders::ClientHello
        } else if value == 0x07 {
            GameMessageHeaders::SpawnClient
        } else if value == 0x08 {
            GameMessageHeaders::ClientWelcome
        } else if value == 0x09 {
            GameMessageHeaders::ClientDisconnect
        } else if value == 0x0B {
            GameMessageHeaders::Heartbeat
        } else if value == 0x0C {
            GameMessageHeaders::SpawnServer
        } else if value == 0x0F {
            GameMessageHeaders::FriendHello
        } else if value == 0x10 {
            GameMessageHeaders::ChunkHandOff
        } else {
            GameMessageHeaders::DiscardedMessageBecauseYouKnow
        }
    }

    /// The header byte.
    pub fn as_u8(self) -> (r: u8)
        ensures
            r == self.code(),
    {
        match self {
            GameMessageHeaders::Snapshot => 0x04,
            GameMessageHeaders::ClientInput => 0x05,
            GameMessageHeaders::ClientHello => 0x06,
            GameMessageHeaders::SpawnClient => 0x07,
            GameMessageHeaders::ClientWelcome => 0x08,
            GameMessageHeaders::ClientDisconnect => 0x09,
            GameMessageHeaders::Heartbeat => 0x0B,
            GameMessageHeaders::SpawnServer => 0x0C,
            GameMessageHeaders::FriendHello => 0x0F,
            GameMessageHeaders::ChunkHandOff => 0x10,
            GameMessageHeaders::DiscardedMessageBecauseYouKnow => 0x11,
        }
    }
}

impl From<u8> for GameMessageHeaders {
    fn from(value: u8) -> (r: Self) {
        if value == 0x04 {
            GameMessageHeaders::Snapshot
        } else if value == 0x05 {
            GameMessageHeaders::ClientInput
        } else if value == 0x06 {
            GameMessageHeaders::ClientHello
        } else if value == 0x07 {
            GameMessageHeaders::SpawnClient
        } else if value == 0x08 {
            GameMessageHeaders::ClientWelcome
        } else if value == 0x09 {
            GameMessageHeaders::ClientDisconnect
        } else if value == 0x0B {
            GameMessageHeaders::Heartbeat
        } else if value == 0x0C {
            GameMessageHeaders::SpawnServer
        } else if value == 0x0F {
            GameMessageHeaders::FriendHello
        } else if value == 0x10 {
            GameMessageHeaders::ChunkHandOff
        } else {
            GameMessageHeaders::DiscardedMessageBecauseYouKnow
        }
    }
}

impl vstd::std_specs::convert::FromSpecImpl<u8> for GameMessageHeaders {
    open spec fn obeys_from_spec() -> bool {
        true
    }

    open spec fn from_spec(v: u8) -> Self {
        GameMessageHeaders::from_code(v)
    }
}

/// Every kind but the catch-all reads back from its own header byte.
pub proof fn lemma_header_round_trip(h: GameMessageHeaders)
    requires
        h != GameMessageHeaders::DiscardedMessageBecauseYouKnow,
    ensures
        GameMessageHeaders::from_code(h.code()) == h,
{
}

/// Writing a value at the end of a buffer.
pub trait NetWriteTo {
    /// Whether the value can be written.
    spec fn spec_writable(&self) -> bool;

    /// The bytes written.
    spec fn spec_written(&self) -> Seq<u8>;

    fn write_to(&self, buf: &mut BytesMut)
        requires
            self.spec_writable(),
        ensures
            bytes_mut_contents(*final(buf)) == bytes_mut_contents(*old(buf)) + self.spec_written(),
    ;
}

/// Turning a value into bytes.
pub trait NetWrite {
    /// Whether the value can be turned into bytes.
    spec fn spec_serializable(&self) -> bool;

    /// The bytes of the value.
    spec fn spec_serialized(&self) -> Seq<u8>;

    fn serialize(&self) -> (r: Bytes)
        requires
            self.spec_serializable(),
        ensures
            bytes_contents(r) == self.spec_serialized(),
    ;
}

/// Reading a value from the front of bytes.
pub trait NetRead: Sized {
    /// Whether reading `data` returns at all, refused or not.
    spec fn spec_read_returns(data: Seq<u8>) -> bool;

    /// Whether `data` holds such a value at its front.
    spec fn spec_readable(data: Seq<u8>) -> bool;

    /// Reading `data` gives `m`, leaving `rest`.
    spec fn spec_reads(data: Seq<u8>, m: Self, rest: Seq<u8>) -> bool;

    fn deserialize(data: &mut Bytes) -> (r: Result<Self, String>)
        requires
            Self::spec_read_returns(bytes_contents(*old(data))),
        ensures
            r is Ok <==> Self::spec_readable(bytes_contents(*old(data))),
            r matches Ok(m) ==> Self::spec_reads(
                bytes_contents(*old(data)),
                m,
                bytes_contents(*final(data)),
            ),
    ;
}

/// A message of the game: it has a header and can be written and read.
pub trait GameMessage: Sized + NetWrite + NetRead + NetWriteTo {
    /// The header of this kind of message.
    spec fn spec_header() -> GameMessageHeaders;

    fn header() -> (r: GameMessageHeaders)
        ensures
            r == Self::spec_header(),
    ;
}

/// A game message received from the broker: its kind and its bytes.
#[derive(Debug, Clone)]
pub struct GamePayload {
    pub header: GameMessageHeaders,
    pub data: Bytes,
}

/// The message that explains a header mismatch.
#[verifier::external_body]
fn header_mismatch(expected: GameMessageHeaders, found: GameMessageHeaders) -> String {
    format!(
        "Erreur d'extraction : Header attendu {:?}, mais le payload contient {:?}",
        expected,
        found,
    )
}

/// The bytes of a publication of `message` on `topic`: the publish tag, the
/// topic, the length of what follows on two little-endian bytes (cut to
/// sixteen bits), the message's header byte, and the message.
pub open spec fn publish_encoding(topic: Seq<u8>, header: u8, written: Seq<u8>) -> Seq<u8> {
    seq![ProtocolTag::Publish.code()] + topic + spec_u16_to_le_bytes((written.len() + 1) as u16)
        + seq![header] + written
}

impl GamePayload {
    /// Reads a `T` from the data when the header is `T`'s; otherwise an error
    /// and the data untouched.
    pub fn extract<T: GameMessage>(&mut self) -> (r: Result<T, String>)
        requires
            old(self).header == T::spec_header() ==> T::spec_read_returns(
                bytes_contents(old(self).data),
            ),
        ensures
            final(self).header == old(self).header,
            old(self).header != T::spec_header() ==> r is Err && final(self).data == old(
                self,
            ).data,
            old(self).header == T::spec_header() ==> (r is Ok <==> T::spec_readable(
                bytes_contents(old(self).data),
            )),
            old(self).header == T::spec_header() ==> (r matches Ok(m) ==> T::spec_reads(
                bytes_contents(old(self).data),
                m,
                bytes_contents(final(self).data),
            )),
    {
        let expected = T::header();
        if self.header == expected {
            T::deserialize(&mut self.data)
        } else {
            Err(header_mismatch(expected, self.header))
        }
    }

    /// Appends to `buf` a publication of `message` on `topic`.
    pub fn write_publish_to<T: GameMessage>(buf: &mut BytesMut, topic: &Topic, message: &T)
        requires
            message.spec_writable(),
        ensures
            bytes_mut_contents(*final(buf)) == bytes_mut_contents(*old(buf)) + publish_encoding(
                topic@,
                T::spec_header().code(),
                message.spec_written(),
            ),
    {
        BrokerMessage::write_publish_headers(buf, topic);
        put_u16_le(buf, 0);
        let payload_start = bytes_mut_len(buf);
        let ghost before = bytes_mut_contents(*buf);
        put_u8(buf, T::header().as_u8());
        message.write_to(buf);
        let end = bytes_mut_len(buf);
        let payload_len = (end - payload_start) as u16;
        let len_bytes = vstd::bytes::u16_to_le_bytes(payload_len);
        proof {
            vstd::bytes::lemma_auto_spec_u16_to_from_le_bytes();
        }
        bytes_mut_set(buf, payload_start - 2, len_bytes[0]);
        bytes_mut_set(buf, payload_start - 1, len_bytes[1]);
        assert(bytes_mut_contents(*buf) =~= bytes_mut_contents(*old(buf)) + publish_encoding(
            topic@,
            T::spec_header().code(),
            message.spec_written(),
        ));
    }
}

} // verus!
