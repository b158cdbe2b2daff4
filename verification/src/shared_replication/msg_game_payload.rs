//! Game messages carried in broker payloads: a header byte names the kind of
//! message, the message's own bytes follow.
use crate::bytes_io::{
    bytes_as_slice, bytes_contents, bytes_len, bytes_mut_contents, bytes_mut_new, freeze,
    put_slice, put_u8,
};
use bytes::Bytes;
use vstd::prelude::*;

verus! {

/// The kinds of game messages.
#[derive(Debug, Clone, Copy, PartialEq, Eq, Structural)]
pub enum GameMessageHeaders {
    /// Shards broadcast the state of the world.
    Snapshot,
    /// Client to shard.
    ClientInput,
    /// The broker broadcasts a client's hello.
    ClientHello,
    /// The broker tells a shard to spawn a client.
    SpawnClient,
    /// Broker to client.
    ClientWelcome,
    /// A client went away.
    ClientDisconnect,
    /// From a shard to the broker, then to the orchestrator.
    Heartbeat,
    /// Something that is not a client says hello.
    FriendHello,
    /// Between shards.
    TakeChunk,
    /// Any other byte.
    DiscardedMessageBecauseYouKnow,
}

impl GameMessageHeaders {
    /// The header byte; the catch-all kind is sent as 0x11.
    pub open spec fn code(self) -> u8 {
        match self {
            GameMessageHeaders::Snapshot => 0x04,
            GameMessageHeaders::ClientInput => 0x05,
            GameMessageHeaders::ClientHello => 0x06,
            GameMessageHeaders::SpawnClient => 0x07,
            GameMessageHeaders::ClientWelcome => 0x08,
            GameMessageHeaders::ClientDisconnect => 0x09,
            GameMessageHeaders::Heartbeat => 0x0B,
            GameMessageHeaders::FriendHello => 0x0F,
            GameMessageHeaders::TakeChunk => 0x10,
            GameMessageHeaders::DiscardedMessageBecauseYouKnow => 0x11,
        }
    }

    /// The kind named by a header byte; unknown bytes name the catch-all.
    pub open spec fn from_code(value: u8) -> GameMessageHeaders {
        if value == 0x04 {
            GameMessageHeaders::Snapshot
        } else if value == 0x05 {
            GameMessageHeaders::ClientInput
        } else if value == 0x06 {
            GameMessageHeaders::ClientHello
        } else if value == 0x07 {
            GameMessageHeaders::SpawnClient
        } else if value == 0x08 {
            GameMessageHeaders::ClientWelcome
        } else if value == 0x09 {
            GameMessageHeaders::ClientDisconnect
        } else if value == 0x0B {
            GameMessageHeaders::Heartbeat
        } else if value == 0x0F {
            GameMessageHeaders::FriendHello
        } else if value == 0x10 {
            GameMessageHeaders::TakeChunk
        } else {
            GameMessageHeaders::DiscardedMessageBecauseYouKnow
        }
    }

    /// The header byte.
    pub fn as_u8(self) -> (r: u8)
        ensures
            r == self.code(),
    {
        match self {
            GameMessageHeaders::Snapshot => 0x04,
            GameMessageHeaders::ClientInput => 0x05,
            GameMessageHeaders::ClientHello => 0x06,
            GameMessageHeaders::SpawnClient => 0x07,
            GameMessageHeaders::ClientWelcome => 0x08,
            GameMessageHeaders::ClientDisconnect => 0x09,
            GameMessageHeaders::Heartbeat => 0x0B,
            GameMessageHeaders::FriendHello => 0x0F,
            GameMessageHeaders::TakeChunk => 0x10,
            GameMessageHeaders::DiscardedMessageBecauseYouKnow => 0x11,
        }
    }
}

impl From<u8> for GameMessageHeaders {
    fn from(value: u8) -> (r: Self) {
        if value == 0x04 {
            GameMessageHeaders::Snapshot
        } else if value == 0x05 {
            GameMessageHeaders::ClientInput
        } else if value == 0x06 {
            GameMessageHeaders::ClientHello
        } else if value == 0x07 {
            GameMessageHeaders::SpawnClient
        } else if value == 0x08 {
            GameMessageHeaders::ClientWelcome
        } else if value == 0x09 {
            GameMessageHeaders::ClientDisconnect
        } else if value == 0x0B {
            GameMessageHeaders::Heartbeat
        } else if value == 0x0F {
            GameMessageHeaders::FriendHello
        } else if value == 0x10 {
            GameMessageHeaders::TakeChunk
        } else {
            GameMessageHeaders::DiscardedMessageBecauseYouKnow
        }
    }
}

impl vstd::std_specs::convert::FromSpecImpl<u8> for GameMessageHeaders {
    open spec fn obeys_from_spec() -> bool {
        true
    }

    open spec fn from_spec(v: u8) -> Self {
        GameMessageHeaders::from_code(v)
    }
}

/// Every kind but the catch-all reads back from its own header byte.
pub proof fn lemma_header_round_trip(h: GameMessageHeaders)
    requires
        h != GameMessageHeaders::DiscardedMessageBecauseYouKnow,
    ensures
        GameMessageHeaders::from_code(h.code()) == h,
{
}

/// What every game message offers: its header, its bytes, and reading it
/// back from bytes.
pub trait GameMessage: Sized {
    /// The header of this kind of message.
    spec fn spec_header() -> GameMessageHeaders;

    /// Whether the message can be written.
    spec fn spec_writable(&self) -> bool;

    /// The bytes of the message, without header.
    spec fn spec_encoding(&self) -> Seq<u8>;

    /// Whether `data` holds such a message at its front.
    spec fn spec_readable(data: Seq<u8>) -> bool;

    /// Reading `data` gives `m`, with `rest` left unread.
    spec fn spec_reads(data: Seq<u8>, m: Self, rest: Seq<u8>) -> bool;

    fn header() -> (r: GameMessageHeaders)
        ensures
            r == Self::spec_header(),
    ;

    fn serialize(&self) -> (r: Bytes)
        requires
            self.spec_writable(),
        ensures
            bytes_contents(r) == self.spec_encoding(),
    ;

    fn deserialize(data: &mut Bytes) -> (r: Result<Self, String>)
        ensures
            r is Ok <==> Self::spec_readable(bytes_contents(*old(data))),
            r matches Ok(m) ==> Self::spec_reads(
                bytes_contents(*old(data)),
                m,
                bytes_contents(*final(data)),
            ),
    ;
}

/// A game message received from the broker: its kind and its bytes.
#[derive(Debug, Clone)]
pub struct GamePayload {
    pub header: GameMessageHeaders,
    pub data: Bytes,
}

/// The message that explains a header mismatch.
#[verifier::external_body]
fn header_mismatch(expected: GameMessageHeaders, found: GameMessageHeaders) -> String {
    format!(
        "Erreur d'extraction : Header attendu {:?}, mais le payload contient {:?}",
        expected,
        found,
    )
}

impl GamePayload {
    /// The header byte followed by the data, as sent on the network.
    pub fn to_network_bytes(&self) -> (r: Bytes)
        ensures
            bytes_contents(r) == seq![self.header.code()] + bytes_contents(self.data),
    {
        let mut buf = bytes_mut_new();
        put_u8(&mut buf, self.header.as_u8());
        put_slice(&mut buf, bytes_as_slice(&self.data));
        freeze(buf)
    }

    /// Reads a `T` from the data when the header is `T`'s; otherwise an error
    /// and the data untouched.
    pub fn extract<T: GameMessage>(&mut self) -> (r: Result<T, String>)
        ensures
            final(self).header == old(self).header,
            old(self).header != T::spec_header() ==> r is Err && final(self).data == old(self).data,
            old(self).header == T::spec_header() ==> (r is Ok <==> T::spec_readable(
                bytes_contents(old(self).data),
            )),
            old(self).header == T::spec_header() ==> (r matches Ok(m) ==> T::spec_reads(
                bytes_contents(old(self).data),
                m,
                bytes_contents(final(self).data),
            )),
    {
        let expected = T::header();
        if self.header == expected {
            T::deserialize(&mut self.data)
        } else {
            Err(header_mismatch(expected, self.header))
        }
    }
}

} // verus!
