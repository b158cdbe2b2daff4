//! The broker's wire protocol: messages between nodes and the broker.
//!
//! A message is a tag byte followed by its fields, integers little-endian,
//! topics on sixteen bytes, payloads preceded by their length on two bytes.
use crate::broker_protocol::topics::{Topic, TopicDefaults};
use crate::bytes_io::{
    bytes_as_slice, bytes_contents, bytes_is_empty, bytes_len, bytes_mut_contents, bytes_mut_new,
    freeze, get_u16_le, get_u32_le, get_u8, put_slice, put_u16_le, put_u32_le, put_u8, split_to,
};
use bytes::{Bytes, BytesMut};
use vstd::prelude::*;
use vstd::bytes::{spec_u16_from_le_bytes, spec_u16_to_le_bytes, spec_u32_from_le_bytes, spec_u32_to_le_bytes, u32_from_le_bytes};
use vstd::slice::slice_subrange;

verus! {

/// The stream on which reliable broker traffic travels.
pub const RELIABLE_STREAM_ID: u16 = 0;

/// Why a buffer could not be read as a protocol message.
#[derive(Debug, Clone, Copy)]
pub enum ProtocolError {
    BufferTooShort { expected: usize, actual: usize, context: &'static str },
    UnknownTag(u8),
    MalformedData(&'static str),
}

/// The kind of a broker message, sent as its first byte.
#[derive(Debug, Clone, Copy, PartialEq, Eq, Structural)]
pub enum ProtocolTag {
    Subscribe,
    Unsubscribe,
    Publish,
    Broadcast,
    BroadcastFromClient,
    AuthorizeClient,
    KickClient,
    Welcome,
}

impl ProtocolTag {
    /// The byte of the tag.
    pub open spec fn code(self) -> u8 {
        match self {
            ProtocolTag::Subscribe => 0x01,
            ProtocolTag::Unsubscribe => 0x02,
            ProtocolTag::Publish => 0x03,
            ProtocolTag::Broadcast => 0x04,
            ProtocolTag::BroadcastFromClient => 0x05,
            ProtocolTag::AuthorizeClient => 0x06,
            ProtocolTag::KickClient => 0x07,
            ProtocolTag::Welcome => 0x08,
        }
    }

    /// The tag whose byte is `value`, if any.
    pub open spec fn from_code(value: u8) -> Option<ProtocolTag> {
        if value == 0x01 {
            Some(ProtocolTag::Subscribe)
        } else if value == 0x02 {
            Some(ProtocolTag::Unsubscribe)
        } else if value == 0x03 {
            Some(ProtocolTag::Publish)
        } else if value == 0x04 {
            Some(ProtocolTag::Broadcast)
        } else if value == 0x05 {
            Some(ProtocolTag::BroadcastFromClient)
        } else if value == 0x06 {
            Some(ProtocolTag::AuthorizeClient)
        } else if value == 0x07 {
            Some(ProtocolTag::KickClient)
        } else if value == 0x08 {
            Some(ProtocolTag::Welcome)
        } else {
            None
        }
    }

    pub fn as_u8(self) -> (r: u8)
        ensures
            r == self.code(),
    {
        match self {
            ProtocolTag::Subscribe => 0x01,
            ProtocolTag::Unsubscribe => 0x02,
            ProtocolTag::Publish => 0x03,
            ProtocolTag::Broadcast => 0x04,
            ProtocolTag::BroadcastFromClient => 0x05,
            ProtocolTag::AuthorizeClient => 0x06,
            ProtocolTag::KickClient => 0x07,
            ProtocolTag::Welcome => 0x08,
        }
    }

    /// Decodes a tag byte; any other value is refused as an unknown tag.
    pub fn try_from(value: u8) -> (r: Result<ProtocolTag, ProtocolError>)
        ensures
            match Self::from_code(value) {
                Some(t) => r == Ok::<ProtocolTag, ProtocolError>(t),
                None => r == Err::<ProtocolTag, ProtocolError>(ProtocolError::UnknownTag(value)),
            },
    {
        if value == 0x01 {
            Ok(ProtocolTag::Subscribe)
        } else if value == 0x02 {
            Ok(ProtocolTag::Unsubscribe)
        } else if value == 0x03 {
            Ok(ProtocolTag::Publish)
        } else if value == 0x04 {
            Ok(ProtocolTag::Broadcast)
        } else if value == 0x05 {
            Ok(ProtocolTag::BroadcastFromClient)
        } else if value == 0x06 {
            Ok(ProtocolTag::AuthorizeClient)
        } else if value == 0x07 {
            Ok(ProtocolTag::KickClient)
        } else if value == 0x08 {
            Ok(ProtocolTag::Welcome)
        } else {
            Err(ProtocolError::UnknownTag(value))
        }
    }
}

/// The id the broker gives a node.  Server ids have the high bit set; client
/// ids do not and are never 0, which stands for "the sender itself".
pub type NodeId = u32;

/// The first id given to a server.
pub const FIRST_SERVER_ID: NodeId = 0x8000_0000;

/// The first id given to a client.
pub const FIRST_CLIENT_ID: NodeId = 1;

/// The id that stands for the sender of a message.
pub const REFERENCE_TO_SENDER: NodeId = 0;

/// Whether an id names a client: high bit clear and not the sender reference.
pub open spec fn spec_is_client(id: NodeId) -> bool {
    id & 0x8000_0000u32 == 0 && id != 0
}

/// Whether an id names a server: high bit set.
pub open spec fn spec_is_server(id: NodeId) -> bool {
    id & 0x8000_0000u32 != 0
}

/// What the id of a node says about the node.
pub trait NodeIdMetaData {
    fn is_client(&self) -> bool;

    fn is_server(&self) -> bool;
}

impl NodeIdMetaData for NodeId {
    fn is_client(&self) -> (r: bool)
        ensures
            r == spec_is_client(*self),
    {
        (*self & FIRST_SERVER_ID == 0) && (*self != REFERENCE_TO_SENDER)
    }

    fn is_server(&self) -> (r: bool)
        ensures
            r == spec_is_server(*self),
    {
        (*self & FIRST_SERVER_ID) != 0
    }
}

/// A message between a node and the broker.
#[derive(Debug, Clone)]
pub enum BrokerMessage {
    Subscribe { client_id: NodeId, topic: Topic },
    Unsubscribe { client_id: NodeId, topic: Topic },
    Publish { topic: Topic, payload: Bytes },
    Broadcast { payload: Bytes },
    BroadCastFrom { client_id: NodeId, payload: Bytes },
    AuthorizeClient { client_id: NodeId },
    KickNode { client_id: NodeId },
    Welcome { node_id: NodeId },
}

/// A message, with its topic and payload seen as byte sequences.
pub ghost enum MessageView {
    Subscribe { client_id: NodeId, topic: Seq<u8> },
    Unsubscribe { client_id: NodeId, topic: Seq<u8> },
    Publish { topic: Seq<u8>, payload: Seq<u8> },
    Broadcast { payload: Seq<u8> },
    BroadCastFrom { client_id: NodeId, payload: Seq<u8> },
    AuthorizeClient { client_id: NodeId },
    KickNode { client_id: NodeId },
    Welcome { node_id: NodeId },
}

impl View for BrokerMessage {
    type V = MessageView;

    open spec fn view(&self) -> MessageView {
        match self {
            BrokerMessage::Subscribe { client_id, topic } => MessageView::Subscribe {
                client_id: *client_id,
                topic: topic@,
            },
            BrokerMessage::Unsubscribe { client_id, topic } => MessageView::Unsubscribe {
                client_id: *client_id,
                topic: topic@,
            },
            BrokerMessage::Publish { topic, payload } => MessageView::Publish {
                topic: topic@,
                payload: bytes_contents(*payload),
            },
            BrokerMessage::Broadcast { payload } => MessageView::Broadcast {
                payload: bytes_contents(*payload),
            },
            BrokerMessage::BroadCastFrom { client_id, payload } => MessageView::BroadCastFrom {
                client_id: *client_id,
                payload: bytes_contents(*payload),
            },
            BrokerMessage::AuthorizeClient { client_id } => MessageView::AuthorizeClient {
                client_id: *client_id,
            },
            BrokerMessage::KickNode { client_id } => MessageView::KickNode { client_id: *client_id },
            BrokerMessage::Welcome { node_id } => MessageView::Welcome { node_id: *node_id },
        }
    }
}

/// The tag of a message.
pub open spec fn message_tag(m: MessageView) -> ProtocolTag {
    match m {
        MessageView::Subscribe { .. } => ProtocolTag::Subscribe,
        MessageView::Unsubscribe { .. } => ProtocolTag::Unsubscribe,
        MessageView::Publish { .. } => ProtocolTag::Publish,
        MessageView::Broadcast { .. } => ProtocolTag::Broadcast,
        MessageView::BroadCastFrom { .. } => ProtocolTag::BroadcastFromClient,
        MessageView::AuthorizeClient { .. } => ProtocolTag::AuthorizeClient,
        MessageView::KickNode { .. } => ProtocolTag::KickClient,
        MessageView::Welcome { .. } => ProtocolTag::Welcome,
    }
}

/// The fields of a message as sent after its tag.  A payload is preceded by
/// the low two bytes of its length.
pub open spec fn message_body(m: MessageView) -> Seq<u8> {
    match m {
        MessageView::Subscribe { client_id, topic } => spec_u32_to_le_bytes(client_id) + topic,
        MessageView::Unsubscribe { client_id, topic } => spec_u32_to_le_bytes(client_id) + topic,
        MessageView::Publish { topic, payload } => topic + spec_u16_to_le_bytes(
            payload.len() as u16,
        ) + payload,
        MessageView::Broadcast { payload } => spec_u16_to_le_bytes(payload.len() as u16) + payload,
        MessageView::BroadCastFrom { client_id, payload } => spec_u32_to_le_bytes(client_id)
            + spec_u16_to_le_bytes(payload.len() as u16) + payload,
        MessageView::AuthorizeClient { client_id } => spec_u32_to_le_bytes(client_id),
        MessageView::KickNode { client_id } => spec_u32_to_le_bytes(client_id),
        MessageView::Welcome { node_id } => spec_u32_to_le_bytes(node_id),
    }
}

/// The bytes a message is sent as: its tag, then its fields.
pub open spec fn message_encoding(m: MessageView) -> Seq<u8> {
    seq![message_tag(m).code()] + message_body(m)
}

/// A message that can be sent and read back: topics of sixteen bytes and
/// payloads whose length fits in two bytes.
pub open spec fn message_sendable(m: MessageView) -> bool {
    match m {
        MessageView::Subscribe { topic, .. } => topic.len() == 16,
        MessageView::Unsubscribe { topic, .. } => topic.len() == 16,
        MessageView::Publish { topic, payload } => topic.len() == 16 && payload.len() <= 0xffff,
        MessageView::Broadcast { payload } => payload.len() <= 0xffff,
        MessageView::BroadCastFrom { payload, .. } => payload.len() <= 0xffff,
        _ => true,
    }
}

/// The least number of bytes a message of kind `tag` takes, tag included.
pub open spec fn spec_min_len(tag: ProtocolTag) -> nat {
    match tag {
        ProtocolTag::Subscribe | ProtocolTag::Unsubscribe => 1 + 4 + 16,
        ProtocolTag::Publish => 1 + 16 + 2,
        ProtocolTag::Broadcast => 1 + 2,
        ProtocolTag::BroadcastFromClient => 1 + 4 + 2,
        ProtocolTag::AuthorizeClient | ProtocolTag::KickClient => 1 + 4,
        ProtocolTag::Welcome => 1 + 4,
    }
}

/// The little-endian u32 at `at` in `s`.
pub open spec fn u32_at(s: Seq<u8>, at: int) -> u32 {
    spec_u32_from_le_bytes(s.subrange(at, at + 4))
}

/// The little-endian u16 at `at` in `s`.
pub open spec fn u16_at(s: Seq<u8>, at: int) -> u16 {
    spec_u16_from_le_bytes(s.subrange(at, at + 2))
}

/// Reading a length-prefixed payload whose length sits at `at`; the bytes after
/// the payload are ignored.
pub open spec fn payload_at(
    s: Seq<u8>,
    at: int,
    min: nat,
    context: &'static str,
) -> Result<Seq<u8>, ProtocolError> {
    let len = u16_at(s, at) as int;
    if s.len() - (at + 2) < len {
        Err(
            ProtocolError::BufferTooShort {
                expected: (min + len) as usize,
                actual: s.len() as usize,
                context: context,
            },
        )
    } else {
        Ok(s.subrange(at + 2, at + 2 + len))
    }
}

/// Reading a message from the whole of `s`.  Bytes after the message are
/// ignored.
pub open spec fn message_read(s: Seq<u8>) -> Result<MessageView, ProtocolError> {
    if s.len() == 0 {
        Err(ProtocolError::BufferTooShort { expected: 1, actual: 0, context: "Lecture du Tag" })
    } else {
        match ProtocolTag::from_code(s[0]) {
            None => Err(ProtocolError::UnknownTag(s[0])),
            Some(tag) => if s.len() < spec_min_len(tag) {
                Err(
                    ProtocolError::BufferTooShort {
                        expected: spec_min_len(tag) as usize,
                        actual: s.len() as usize,
                        context: "Taille minimale",
                    },
                )
            } else {
                match tag {
                    ProtocolTag::Subscribe => Ok(
                        MessageView::Subscribe { client_id: u32_at(s, 1), topic: s.subrange(5, 21) },
                    ),
                    ProtocolTag::Unsubscribe => Ok(
                        MessageView::Unsubscribe { client_id: u32_at(s, 1), topic: s.subrange(5, 21) },
                    ),
                    ProtocolTag::Publish => match payload_at(s, 17, spec_min_len(tag), "Publish dynamique") {
                        Ok(p) => Ok(MessageView::Publish { topic: s.subrange(1, 17), payload: p }),
                        Err(e) => Err(e),
                    },
                    ProtocolTag::Broadcast => match payload_at(s, 1, spec_min_len(tag), "Deserialize Broadcast") {
                        Ok(p) => Ok(MessageView::Broadcast { payload: p }),
                        Err(e) => Err(e),
                    },
                    ProtocolTag::BroadcastFromClient => match payload_at(s, 5, spec_min_len(tag), "BroadcastFromClient") {
                        Ok(p) => Ok(MessageView::BroadCastFrom { client_id: u32_at(s, 1), payload: p }),
                        Err(e) => Err(e),
                    },
                    ProtocolTag::AuthorizeClient => Ok(MessageView::AuthorizeClient { client_id: u32_at(s, 1) }),
                    ProtocolTag::KickClient => Ok(MessageView::KickNode { client_id: u32_at(s, 1) }),
                    ProtocolTag::Welcome => Ok(MessageView::Welcome { node_id: u32_at(s, 1) }),
                }
            },
        }
    }
}

/// Copies sixteen bytes into a topic.
fn topic_from_slice(s: &[u8]) -> (r: Topic)
    requires
        s@.len() == 16,
    ensures
        r@ == s@,
{
    let mut topic = <Topic as TopicDefaults>::default_topic();
    let mut i: usize = 0;
    while i < 16
        invariant
            s@.len() == 16,
            0 <= i <= 16,
            topic@.len() == 16,
            forall|j: int| 0 <= j < i ==> topic@[j] == s@[j],
        decreases 16 - i,
    {
        topic[i] = s[i];
        i = i + 1;
    }
    assert(topic@ =~= s@);
    topic
}

/// Reads a length-prefixed payload from the front of `payload`.
fn read_payload(
    payload: &mut Bytes,
    Ghost(s): Ghost<Seq<u8>>,
    at: usize,
    min_len: usize,
    context: &'static str,
) -> (r: Result<Bytes, ProtocolError>)
    requires
        s.len() >= at + 2,
        at <= 17,
        bytes_contents(*old(payload)) == s.skip(at as int),
        min_len <= 21,
    ensures
        match payload_at(s, at as int, min_len as nat, context) {
            Ok(p) => r matches Ok(b) && bytes_contents(b) == p,
            Err(e) => r == Err::<Bytes, ProtocolError>(e),
        },
{
    assert(s.skip(at as int).take(2) =~= s.subrange(at as int, at + 2));
    let payload_len = get_u16_le(payload) as usize;
    if bytes_len(payload) < payload_len {
        return Err(
            ProtocolError::BufferTooShort {
                expected: min_len + payload_len,
                actual: bytes_len(payload) + 2 + at,
                context,
            },
        );
    }
    let data = split_to(payload, payload_len);
    assert(bytes_contents(data) =~= s.subrange(at + 2, at + 2 + payload_len));
    Ok(data)
}

impl BrokerMessage {
    /// The tag of the message.
    pub fn tag(&self) -> (r: ProtocolTag)
        ensures
            r == message_tag(self@),
    {
        match self {
            BrokerMessage::Subscribe { .. } => ProtocolTag::Subscribe,
            BrokerMessage::Unsubscribe { .. } => ProtocolTag::Unsubscribe,
            BrokerMessage::Publish { .. } => ProtocolTag::Publish,
            BrokerMessage::Broadcast { .. } => ProtocolTag::Broadcast,
            BrokerMessage::BroadCastFrom { .. } => ProtocolTag::BroadcastFromClient,
            BrokerMessage::AuthorizeClient { .. } => ProtocolTag::AuthorizeClient,
            BrokerMessage::KickNode { .. } => ProtocolTag::KickClient,
            BrokerMessage::Welcome { .. } => ProtocolTag::Welcome,
        }
    }

    /// The least number of bytes a message of kind `tag` takes, tag included.
    pub fn min_len(tag: ProtocolTag) -> (r: usize)
        ensures
            r == spec_min_len(tag),
    {
        let tl = <Topic as TopicDefaults>::topic_length();
        match tag {
            ProtocolTag::Subscribe | ProtocolTag::Unsubscribe => 1 + 4 + tl,
            ProtocolTag::Publish => 1 + tl + 2,
            ProtocolTag::Broadcast => 1 + 2,
            ProtocolTag::BroadcastFromClient => 1 + 4 + 2,
            ProtocolTag::AuthorizeClient | ProtocolTag::KickClient => 1 + 4,
            ProtocolTag::Welcome => 1 + 4,
        }
    }

    /// The tag of the message held in `payload`, without consuming it: none
    /// when the payload is empty or its first byte is no tag.
    pub fn peek_inner_tag(payload: &Bytes) -> (r: Option<ProtocolTag>)
        ensures
            r == (if bytes_contents(*payload).len() == 0 {
                None
            } else {
                ProtocolTag::from_code(bytes_contents(*payload)[0])
            }),
    {
        let s = bytes_as_slice(payload);
        if s.len() == 0 {
            None
        } else {
            ProtocolTag::try_from(s[0]).ok()
        }
    }

    /// The id held in bytes 1 to 4 of `payload`, without consuming it: none
    /// when the payload is shorter than five bytes.
    pub fn peek_inner_client_id(payload: &Bytes) -> (r: Option<NodeId>)
        ensures
            r == (if bytes_contents(*payload).len() >= 5 {
                Some(u32_at(bytes_contents(*payload), 1))
            } else {
                None
            }),
    {
        if bytes_len(payload) >= 5 {
            let s = bytes_as_slice(payload);
            let id_bytes = slice_subrange(s, 1, 5);
            Some(u32_from_le_bytes(id_bytes))
        } else {
            None
        }
    }

    /// Reads a message from `payload`.
    pub fn deserialize(payload: Bytes) -> (r: Result<Self, ProtocolError>)
        ensures
            match message_read(bytes_contents(payload)) {
                Ok(m) => r matches Ok(msg) && msg@ == m,
                Err(e) => r == Err::<Self, ProtocolError>(e),
            },
    {
        let ghost s = bytes_contents(payload);
        let mut payload = payload;
        if bytes_is_empty(&payload) {
            return Err(
                ProtocolError::BufferTooShort { expected: 1, actual: 0, context: "Lecture du Tag" },
            );
        }
        let tag = match ProtocolTag::try_from(get_u8(&mut payload)) {
            Ok(t) => t,
            Err(e) => {
                return Err(e);
            },
        };
        let real_payload_len = bytes_len(&payload) + 1;
        let min_len = Self::min_len(tag);
        if real_payload_len < min_len {
            return Err(
                ProtocolError::BufferTooShort {
                    expected: min_len,
                    actual: real_payload_len,
                    context: "Taille minimale",
                },
            );
        }
        match tag {
            ProtocolTag::Subscribe | ProtocolTag::Unsubscribe => {
                assert(s.skip(1).take(4) =~= s.subrange(1, 5));
                let client_id = get_u32_le(&mut payload);
                let topic_bytes = split_to(&mut payload, <Topic as TopicDefaults>::topic_length());
                let topic = topic_from_slice(bytes_as_slice(&topic_bytes));
                assert(topic@ =~= s.subrange(5, 21));
                if tag == ProtocolTag::Subscribe {
                    Ok(BrokerMessage::Subscribe { client_id, topic })
                } else {
                    Ok(BrokerMessage::Unsubscribe { client_id, topic })
                }
            },
            ProtocolTag::Publish => {
                let topic_bytes = split_to(&mut payload, <Topic as TopicDefaults>::topic_length());
                let topic = topic_from_slice(bytes_as_slice(&topic_bytes));
                assert(topic@ =~= s.subrange(1, 17));
                assert(bytes_contents(payload) =~= s.skip(17));
                match read_payload(&mut payload, Ghost(s), 17, min_len, "Publish dynamique") {
                    Ok(data) => Ok(BrokerMessage::Publish { topic, payload: data }),
                    Err(e) => Err(e),
                }
            },
            ProtocolTag::Broadcast => {
                match read_payload(&mut payload, Ghost(s), 1, min_len, "Deserialize Broadcast") {
                    Ok(data) => Ok(BrokerMessage::Broadcast { payload: data }),
                    Err(e) => Err(e),
                }
            },
            ProtocolTag::BroadcastFromClient => {
                assert(s.skip(1).take(4) =~= s.subrange(1, 5));
                let client_id = get_u32_le(&mut payload);
                assert(bytes_contents(payload) =~= s.skip(5));
                match read_payload(&mut payload, Ghost(s), 5, min_len, "BroadcastFromClient") {
                    Ok(data) => Ok(BrokerMessage::BroadCastFrom { client_id, payload: data }),
                    Err(e) => Err(e),
                }
            },
            ProtocolTag::AuthorizeClient | ProtocolTag::KickClient => {
                assert(s.skip(1).take(4) =~= s.subrange(1, 5));
                let client_id = get_u32_le(&mut payload);
                if tag == ProtocolTag::AuthorizeClient {
                    Ok(BrokerMessage::AuthorizeClient { client_id })
                } else {
                    Ok(BrokerMessage::KickNode { client_id })
                }
            },
            ProtocolTag::Welcome => {
                assert(s.skip(1).take(4) =~= s.subrange(1, 5));
                let client_id = get_u32_le(&mut payload);
                Ok(BrokerMessage::Welcome { node_id: client_id })
            },
        }
    }

    /// The message's bytes: its tag, then its fields.
    pub fn serialize(&self) -> (r: Bytes)
        ensures
            bytes_contents(r) == message_encoding(self@),
    {
        let mut buf = bytes_mut_new();
        put_u8(&mut buf, self.tag().as_u8());
        self.write_to(&mut buf);
        assert(bytes_mut_contents(buf) =~= message_encoding(self@));
        freeze(buf)
    }

    /// Appends the message's fields (without its tag) to `buf`.
    pub fn write_to(&self, buf: &mut BytesMut)
        ensures
            bytes_mut_contents(*final(buf)) == bytes_mut_contents(*old(buf)) + message_body(self@),
    {
        match self {
            BrokerMessage::Subscribe { client_id, topic } | BrokerMessage::Unsubscribe {
                client_id,
                topic,
            } => {
                put_u32_le(buf, *client_id);
                put_slice(buf, topic);
            },
            BrokerMessage::Publish { topic, payload } => {
                put_slice(buf, topic);
                put_u16_le(buf, bytes_len(payload) as u16);
                put_slice(buf, bytes_as_slice(payload));
            },
            BrokerMessage::Broadcast { payload } => {
                put_u16_le(buf, bytes_len(payload) as u16);
                put_slice(buf, bytes_as_slice(payload));
            },
            BrokerMessage::BroadCastFrom { client_id, payload } => {
                put_u32_le(buf, *client_id);
                put_u16_le(buf, bytes_len(payload) as u16);
                put_slice(buf, bytes_as_slice(payload));
            },
            BrokerMessage::AuthorizeClient { client_id }
            | BrokerMessage::KickNode { client_id }
            | BrokerMessage::Welcome { node_id: client_id } => {
                put_u32_le(buf, *client_id);
            },
        }
        assert(bytes_mut_contents(*buf) =~= bytes_mut_contents(*old(buf)) + message_body(self@));
    }

    /// Appends a subscription of `target_client` to `topic`, tag included.
    pub fn write_subscribe_to(buf: &mut BytesMut, target_client: NodeId, topic: &Topic)
        ensures
            bytes_mut_contents(*final(buf)) == bytes_mut_contents(*old(buf)) + message_encoding(
                MessageView::Subscribe { client_id: target_client, topic: topic@ },
            ),
    {
        put_u8(buf, ProtocolTag::Subscribe.as_u8());
        put_u32_le(buf, target_client);
        put_slice(buf, topic);
        assert(bytes_mut_contents(*buf) =~= bytes_mut_contents(*old(buf)) + message_encoding(
            MessageView::Subscribe { client_id: target_client, topic: topic@ },
        ));
    }

    /// Appends an unsubscription of `target_client` from `topic`, tag included.
    pub fn write_unsubscribe_from(buf: &mut BytesMut, target_client: NodeId, topic: &Topic)
        ensures
            bytes_mut_contents(*final(buf)) == bytes_mut_contents(*old(buf)) + message_encoding(
                MessageView::Unsubscribe { client_id: target_client, topic: topic@ },
            ),
    {
        put_u8(buf, ProtocolTag::Unsubscribe.as_u8());
        put_u32_le(buf, target_client);
        put_slice(buf, topic);
        assert(bytes_mut_contents(*buf) =~= bytes_mut_contents(*old(buf)) + message_encoding(
            MessageView::Unsubscribe { client_id: target_client, topic: topic@ },
        ));
    }

    /// Appends the head of a publication on `topic`: the tag and the topic.
    pub fn write_publish_headers(buf: &mut BytesMut, topic: &Topic)
        ensures
            bytes_mut_contents(*final(buf)) == bytes_mut_contents(*old(buf)) + seq![
                ProtocolTag::Publish.code(),
            ] + topic@,
    {
        put_u8(buf, ProtocolTag::Publish.as_u8());
        put_slice(buf, topic);
    }
}

/// Reading back the encoding of a sendable message gives the message, whatever
/// bytes follow it.
pub proof fn lemma_message_round_trip(m: MessageView, rest: Seq<u8>)
    requires
        message_sendable(m),
    ensures
        message_read(message_encoding(m) + rest) == Ok::<MessageView, ProtocolError>(m),
{
    vstd::bytes::lemma_auto_spec_u16_to_from_le_bytes();
    vstd::bytes::lemma_auto_spec_u32_to_from_le_bytes();
    let s = message_encoding(m) + rest;
    match m {
        MessageView::Subscribe { client_id, topic } => {
            assert(s.subrange(1, 5) =~= spec_u32_to_le_bytes(client_id));
            assert(s.subrange(5, 21) =~= topic);
        },
        MessageView::Unsubscribe { client_id, topic } => {
            assert(s.subrange(1, 5) =~= spec_u32_to_le_bytes(client_id));
            assert(s.subrange(5, 21) =~= topic);
        },
        MessageView::Publish { topic, payload } => {
            assert(s.subrange(1, 17) =~= topic);
            assert(s.subrange(17, 19) =~= spec_u16_to_le_bytes(payload.len() as u16));
            assert(s.subrange(19, 19 + payload.len() as int) =~= payload);
        },
        MessageView::Broadcast { payload } => {
            assert(s.subrange(1, 3) =~= spec_u16_to_le_bytes(payload.len() as u16));
            assert(s.subrange(3, 3 + payload.len() as int) =~= payload);
        },
        MessageView::BroadCastFrom { client_id, payload } => {
            assert(s.subrange(1, 5) =~= spec_u32_to_le_bytes(client_id));
            assert(s.subrange(5, 7) =~= spec_u16_to_le_bytes(payload.len() as u16));
            assert(s.subrange(7, 7 + payload.len() as int) =~= payload);
        },
        MessageView::AuthorizeClient { client_id } => {
            assert(s.subrange(1, 5) =~= spec_u32_to_le_bytes(client_id));
        },
        MessageView::KickNode { client_id } => {
            assert(s.subrange(1, 5) =~= spec_u32_to_le_bytes(client_id));
        },
        MessageView::Welcome { node_id } => {
            assert(s.subrange(1, 5) =~= spec_u32_to_le_bytes(node_id));
        },
    }
}

/// The tag and the id of a serialized message can be read without decoding it.
pub proof fn lemma_peek_serialized(m: MessageView)
    ensures
        message_encoding(m).len() >= 1,
        message_encoding(m)[0] == message_tag(m).code(),
        ProtocolTag::from_code(message_tag(m).code()) == Some(message_tag(m)),
        (m is Subscribe || m is Unsubscribe || m is BroadCastFrom || m is AuthorizeClient
            || m is KickNode || m is Welcome) ==> message_encoding(m).len() >= 5 && u32_at(
            message_encoding(m),
            1,
        ) == match m {
            MessageView::Subscribe { client_id, .. } => client_id,
            MessageView::Unsubscribe { client_id, .. } => client_id,
            MessageView::BroadCastFrom { client_id, .. } => client_id,
            MessageView::AuthorizeClient { client_id } => client_id,
            MessageView::KickNode { client_id } => client_id,
            MessageView::Welcome { node_id } => node_id,
            _ => 0,
        },
{
    vstd::bytes::lemma_auto_spec_u16_to_from_le_bytes();
    vstd::bytes::lemma_auto_spec_u32_to_from_le_bytes();
    let s = message_encoding(m);
    match m {
        MessageView::Subscribe { client_id, .. } => {
            assert(s.subrange(1, 5) =~= spec_u32_to_le_bytes(client_id));
        },
        MessageView::Unsubscribe { client_id, .. } => {
            assert(s.subrange(1, 5) =~= spec_u32_to_le_bytes(client_id));
        },
        MessageView::BroadCastFrom { client_id, .. } => {
            assert(s.subrange(1, 5) =~= spec_u32_to_le_bytes(client_id));
        },
        MessageView::AuthorizeClient { client_id } => {
            assert(s.subrange(1, 5) =~= spec_u32_to_le_bytes(client_id));
        },
        MessageView::KickNode { client_id } => {
            assert(s.subrange(1, 5) =~= spec_u32_to_le_bytes(client_id));
        },
        MessageView::Welcome { node_id } => {
            assert(s.subrange(1, 5) =~= spec_u32_to_le_bytes(node_id));
        },
        _ => {},
    }
}

/// Client ids and server ids are apart: no id is both, and the first ids of
/// each kind are of their kind.
pub proof fn lemma_node_kinds(id: NodeId)
    ensures
        !(spec_is_client(id) && spec_is_server(id)),
        spec_is_client(id) || spec_is_server(id) || id == REFERENCE_TO_SENDER,
        spec_is_client(FIRST_CLIENT_ID),
        spec_is_server(FIRST_SERVER_ID),
        (id as int) < FIRST_SERVER_ID ==> !spec_is_server(id),
        (id as int) >= FIRST_SERVER_ID ==> spec_is_server(id),
{
    assert(id < 0x8000_0000u32 ==> id & 0x8000_0000u32 == 0) by (bit_vector);
    assert(id >= 0x8000_0000u32 ==> id & 0x8000_0000u32 != 0) by (bit_vector);
    assert(1u32 & 0x8000_0000u32 == 0) by (bit_vector);
    assert(0x8000_0000u32 & 0x8000_0000u32 != 0) by (bit_vector);
}

} // verus!
