//! A node's side of the broker connection: what it makes of the network's
//! events, and the bytes of its requests.  The network itself is driven from
//! outside; a connection is known by its uuid.
use crate::broker::broker_core::{
    batch_encoding, NodeRequest, StreamInfo, BATCH_SUBSCRIBE_TAG, BATCH_UNSUBSCRIBE_TAG,
};
use crate::broker_protocol::topic_patterns::{pattern_sendable, TopicPattern};
use crate::broker_protocol::topics::Topic;
use crate::bytes_io::{
    bytes_as_slice, bytes_contents, bytes_is_empty, bytes_len, bytes_mut_contents, bytes_mut_new, freeze,
    get_u8, put_slice, put_u16_le, put_u8,
};
use crate::shared_replication::broker_message::{
    message_encoding, message_read, BrokerMessage, MessageView, NodeId, ProtocolTag,
    RELIABLE_STREAM_ID,
};
use crate::shared_replication::msg_game_payload::{GameMessage, GameMessageHeaders, GamePayload};
use bytes::Bytes;
use vstd::bytes::spec_u16_to_le_bytes;
use vstd::prelude::*;

verus! {

/// What the network layer reports to the broker client.
#[derive(Debug, Clone)]
pub enum PeerEvent {
    Connected { connection: u128 },
    Disconnected,
    Message { stream: StreamInfo, data: Bytes },
    StreamCreated,
    StreamClosed,
    /// The connection failed.
    ConnectionError,
    /// Any other error of the network layer.
    OtherError,
}

/// What the broker client reports to the game.
#[derive(Debug, Clone)]
pub enum ClientNetworkEvent {
    Connected,
    /// The broker welcomed the node and gave it its id.
    Ready,
    Disconnected,
    /// A game message; `client_id` is the client that sent it, 0 when the
    /// system did.
    DataReceived { client_id: NodeId, stream: StreamInfo, payload: GamePayload },
}

/// What the client makes of one network event.
#[derive(Debug, Clone)]
pub enum PollStep {
    /// Report this event to the game.
    Report(ClientNetworkEvent),
    /// Nothing to report; look at the next network event.
    Skip,
}

/// Bytes to send on a stream of a connection.
#[derive(Debug, Clone)]
pub struct Outgoing {
    pub connection: u128,
    pub stream: StreamInfo,
    pub data: Bytes,
}

/// The broker client: its connection, the id the broker gave it, and
/// whether the broker has welcomed it.
#[derive(Debug, Clone)]
pub struct MmoNetworkClient {
    connection: Option<u128>,
    pub node_id: Option<NodeId>,
    stream_unreliable: StreamInfo,
    stream_reliable: StreamInfo,
    is_ready: bool,
}

/// The unreliable stream the client publishes on.
pub open spec fn unreliable_stream() -> StreamInfo {
    StreamInfo { stream_id: 0, reliable: false }
}

/// The reliable broker stream.
pub open spec fn reliable_stream() -> StreamInfo {
    StreamInfo { stream_id: RELIABLE_STREAM_ID, reliable: true }
}

/// The game message a broadcast payload carries: its first byte names the
/// kind, the rest is the message.
pub open spec fn payload_event(client_id: NodeId, stream: StreamInfo, payload: Seq<u8>, e: ClientNetworkEvent) -> bool {
    e matches ClientNetworkEvent::DataReceived { client_id: c, stream: s, payload: p } && c
        == client_id && s == stream && p.header == GameMessageHeaders::from_code(payload[0])
        && bytes_contents(p.data) == payload.skip(1)
}

/// The bytes of a publication: tag, topic, the length of the payload on two
/// little-endian bytes (cut to sixteen bits), the message's header byte and
/// the message.
pub open spec fn publish_bytes(topic: Seq<u8>, header: u8, body: Seq<u8>) -> Seq<u8> {
    seq![ProtocolTag::Publish.code()] + topic + spec_u16_to_le_bytes((body.len() + 1) as u16)
        + seq![header] + body
}

impl MmoNetworkClient {
    /// The connection, if any.
    pub closed spec fn spec_connection(&self) -> Option<u128> {
        self.connection
    }

    /// The id the broker gave the client, if any.
    pub closed spec fn spec_node_id(&self) -> Option<NodeId> {
        self.node_id
    }

    /// Whether the broker has welcomed the client.
    pub closed spec fn spec_ready(&self) -> bool {
        self.is_ready
    }

    /// The streams are the usual ones.
    pub closed spec fn wf(&self) -> bool {
        &&& self.stream_unreliable == unreliable_stream()
        &&& self.stream_reliable == reliable_stream()
    }

    /// A client with no connection, no id, not welcomed.
    pub fn new() -> (r: Self)
        ensures
            r.wf(),
            r.spec_connection() is None,
            r.spec_node_id() is None,
            !r.spec_ready(),
    {
        MmoNetworkClient {
            connection: None,
            node_id: None,
            stream_unreliable: StreamInfo { stream_id: 0, reliable: false },
            stream_reliable: StreamInfo { stream_id: RELIABLE_STREAM_ID, reliable: true },
            is_ready: false,
        }
    }

    /// Whether the client has a connection.
    pub fn is_connected(&self) -> (r: bool)
        ensures
            r == self.spec_connection() is Some,
    {
        self.connection.is_some()
    }

    /// Forgets the connection, the id and the welcome.
    fn reset(&mut self)
        ensures
            final(self).spec_connection() is None,
            final(self).spec_node_id() is None,
            !final(self).spec_ready(),
            old(self).wf() ==> final(self).wf(),
    {
        self.connection = None;
        self.is_ready = false;
        self.node_id = None;
    }

    /// What one network event means to the game.  A new connection is kept
    /// (the caller then opens the reliable broker stream on it); a lost one
    /// is forgotten with the id.  The first welcome makes the client ready;
    /// broadcasts become game messages; anything else is skipped.
    pub fn on_peer_event(&mut self, event: PeerEvent) -> (r: PollStep)
        requires
            old(self).wf(),
        ensures
            final(self).wf(),
            match event {
                PeerEvent::Connected { connection } => {
                    &&& final(self).spec_connection() == Some(connection)
                    &&& final(self).spec_node_id() == old(self).spec_node_id()
                    &&& final(self).spec_ready() == old(self).spec_ready()
                    &&& r matches PollStep::Report(ClientNetworkEvent::Connected)
                },
                PeerEvent::Disconnected | PeerEvent::ConnectionError => {
                    &&& final(self).spec_connection() is None
                    &&& final(self).spec_node_id() is None
                    &&& !final(self).spec_ready()
                    &&& r matches PollStep::Report(ClientNetworkEvent::Disconnected)
                },
                PeerEvent::Message { stream, data } => {
                    &&& final(self).spec_connection() == old(self).spec_connection()
                    &&& match message_read(bytes_contents(data)) {
                        Ok(MessageView::Welcome { node_id }) => if !old(self).spec_ready() {
                            &&& final(self).spec_node_id() == Some(node_id)
                            &&& final(self).spec_ready()
                            &&& r matches PollStep::Report(ClientNetworkEvent::Ready)
                        } else {
                            &&& final(self).spec_node_id() == old(self).spec_node_id()
                            &&& final(self).spec_ready()
                            &&& r is Skip
                        },
                        Ok(MessageView::Broadcast { payload }) => {
                            &&& final(self).spec_node_id() == old(self).spec_node_id()
                            &&& final(self).spec_ready() == old(self).spec_ready()
                            &&& if payload.len() == 0 {
                                r is Skip
                            } else {
                                r matches PollStep::Report(e) && payload_event(0, stream, payload, e)
                            }
                        },
                        Ok(MessageView::BroadCastFrom { client_id, payload }) => {
                            &&& final(self).spec_node_id() == old(self).spec_node_id()
                            &&& final(self).spec_ready() == old(self).spec_ready()
                            &&& if payload.len() == 0 {
                                r is Skip
                            } else {
                                r matches PollStep::Report(e) && payload_event(
                                    client_id,
                                    stream,
                                    payload,
                                    e,
                                )
                            }
                        },
                        _ => {
                            &&& final(self).spec_node_id() == old(self).spec_node_id()
                            &&& final(self).spec_ready() == old(self).spec_ready()
                            &&& r is Skip
                        },
                    }
                },
                _ => {
                    &&& final(self).spec_connection() == old(self).spec_connection()
                    &&& final(self).spec_node_id() == old(self).spec_node_id()
                    &&& final(self).spec_ready() == old(self).spec_ready()
                    &&& r is Skip
                },
            },
    {
        match event {
            PeerEvent::Connected { connection } => {
                self.connection = Some(connection);
                PollStep::Report(ClientNetworkEvent::Connected)
            },
            PeerEvent::Disconnected | PeerEvent::ConnectionError => {
                self.reset();
                PollStep::Report(ClientNetworkEvent::Disconnected)
            },
            PeerEvent::Message { stream, data } => {
                match BrokerMessage::deserialize(data) {
                    Ok(BrokerMessage::Welcome { node_id }) => {
                        if !self.is_ready {
                            self.node_id = Some(node_id);
                            self.is_ready = true;
                            PollStep::Report(ClientNetworkEvent::Ready)
                        } else {
                            PollStep::Skip
                        }
                    },
                    Ok(BrokerMessage::Broadcast { payload }) => {
                        Self::game_event(0, stream, payload)
                    },
                    Ok(BrokerMessage::BroadCastFrom { client_id, payload }) => {
                        Self::game_event(client_id, stream, payload)
                    },
                    _ => PollStep::Skip,
                }
            },
            _ => PollStep::Skip,
        }
    }

    /// The game message in a broadcast payload; an empty payload is skipped.
    fn game_event(client_id: NodeId, stream: StreamInfo, payload: Bytes) -> (r: PollStep)
        ensures
            if bytes_contents(payload).len() == 0 {
                r is Skip
            } else {
                r matches PollStep::Report(e) && payload_event(
                    client_id,
                    stream,
                    bytes_contents(payload),
                    e,
                )
            },
    {
        if bytes_is_empty(&payload) {
            return PollStep::Skip;
        }
        let mut payload = payload;
        let header = GameMessageHeaders::from(get_u8(&mut payload));
        PollStep::Report(
            ClientNetworkEvent::DataReceived {
                client_id,
                stream,
                payload: GamePayload { header, data: payload },
            },
        )
    }

    /// `data` to send on `stream`, when there is a connection.
    fn send_on(&self, stream: StreamInfo, data: Bytes) -> (r: Option<Outgoing>)
        ensures
            match self.spec_connection() {
                Some(c) => r matches Some(o) && o.connection == c && o.stream == stream
                    && bytes_contents(o.data) == bytes_contents(data),
                None => r is None,
            },
    {
        match self.connection {
            Some(connection) => Some(Outgoing { connection, stream, data }),
            None => None,
        }
    }

    /// A request to the broker, on the reliable stream.
    fn request(&self, msg: BrokerMessage) -> (r: Option<Outgoing>)
        requires
            self.wf(),
        ensures
            match self.spec_connection() {
                Some(c) => r matches Some(o) && o.connection == c && o.stream == reliable_stream()
                    && bytes_contents(o.data) == message_encoding(msg@),
                None => r is None,
            },
    {
        match self.connection {
            Some(connection) => Some(
                Outgoing { connection, stream: self.stream_reliable, data: msg.serialize() },
            ),
            None => None,
        }
    }

    /// Asks the broker to lift the authorization wait of a client.
    pub fn authorize_client(&self, target_client: NodeId) -> (r: Option<Outgoing>)
        requires
            self.wf(),
        ensures
            match self.spec_connection() {
                Some(c) => r matches Some(o) && o.connection == c && o.stream == reliable_stream()
                    && bytes_contents(o.data) == message_encoding(
                    MessageView::AuthorizeClient { client_id: target_client },
                ),
                None => r is None,
            },
    {
        self.request(BrokerMessage::AuthorizeClient { client_id: target_client })
    }

    /// Asks the broker to disconnect a node.
    pub fn kick_client(&self, target_client: NodeId) -> (r: Option<Outgoing>)
        requires
            self.wf(),
        ensures
            match self.spec_connection() {
                Some(c) => r matches Some(o) && o.connection == c && o.stream == reliable_stream()
                    && bytes_contents(o.data) == message_encoding(
                    MessageView::KickNode { client_id: target_client },
                ),
                None => r is None,
            },
    {
        self.request(BrokerMessage::KickNode { client_id: target_client })
    }

    /// Asks the broker to subscribe `target_client` (0 for the client itself)
    /// to `topic`.
    pub fn subscribe(&self, topic: Topic, target_client: NodeId) -> (r: Option<Outgoing>)
        requires
            self.wf(),
        ensures
            match self.spec_connection() {
                Some(c) => r matches Some(o) && o.connection == c && o.stream == reliable_stream()
                    && bytes_contents(o.data) == message_encoding(
                    MessageView::Subscribe { client_id: target_client, topic: topic@ },
                ),
                None => r is None,
            },
    {
        self.request(BrokerMessage::Subscribe { client_id: target_client, topic })
    }

    /// Asks the broker to unsubscribe `target_client` from `topic`.
    pub fn unsubscribe(&self, topic: Topic, target_client: NodeId) -> (r: Option<Outgoing>)
        requires
            self.wf(),
        ensures
            match self.spec_connection() {
                Some(c) => r matches Some(o) && o.connection == c && o.stream == reliable_stream()
                    && bytes_contents(o.data) == message_encoding(
                    MessageView::Unsubscribe { client_id: target_client, topic: topic@ },
                ),
                None => r is None,
            },
    {
        self.request(BrokerMessage::Unsubscribe { client_id: target_client, topic })
    }

    /// Asks the broker to subscribe `target_client` (0 for the client
    /// itself) to every topic of `pattern`.
    pub fn batch_subscribe(&self, pattern: TopicPattern, target_client: NodeId) -> (r: Option<
        Outgoing,
    >)
        requires
            self.wf(),
            pattern_sendable(pattern@),
        ensures
            match self.spec_connection() {
                Some(c) => r matches Some(o) && o.connection == c && o.stream == reliable_stream()
                    && bytes_contents(o.data) == batch_encoding(
                    BATCH_SUBSCRIBE_TAG,
                    target_client,
                    pattern@,
                ),
                None => r is None,
            },
    {
        let request = NodeRequest::BatchSubscribe { client_id: target_client, pattern };
        self.send_on(self.stream_reliable, request.serialize())
    }

    /// Asks the broker to unsubscribe `target_client` (0 for the client
    /// itself) from every topic of `pattern`.
    pub fn batch_unsubscribe(&self, pattern: TopicPattern, target_client: NodeId) -> (r: Option<
        Outgoing,
    >)
        requires
            self.wf(),
            pattern_sendable(pattern@),
        ensures
            match self.spec_connection() {
                Some(c) => r matches Some(o) && o.connection == c && o.stream == reliable_stream()
                    && bytes_contents(o.data) == batch_encoding(
                    BATCH_UNSUBSCRIBE_TAG,
                    target_client,
                    pattern@,
                ),
                None => r is None,
            },
    {
        let request = NodeRequest::BatchUnsubscribe { client_id: target_client, pattern };
        self.send_on(self.stream_reliable, request.serialize())
    }

    /// The bytes of a publication of `message` on `topic`.
    fn publication<T: GameMessage>(topic: &Topic, message: &T) -> (r: Bytes)
        requires
            message.spec_writable(),
        ensures
            bytes_contents(r) == publish_bytes(
                topic@,
                T::spec_header().code(),
                message.spec_encoding(),
            ),
    {
        let body = message.serialize();
        let body_bytes = bytes_as_slice(&body);
        let mut buf = bytes_mut_new();
        BrokerMessage::write_publish_headers(&mut buf, topic);
        let body_len = bytes_len(&body);
        put_u16_le(&mut buf, (body_len + 1) as u16);
        put_u8(&mut buf, T::header().as_u8());
        put_slice(&mut buf, body_bytes);
        freeze(buf)
    }

    /// Publishes `message` on `topic` on the unreliable stream.
    pub fn publish_unreliable<T: GameMessage>(&self, topic: Topic, message: &T) -> (r: Option<
        Outgoing,
    >)
        requires
            self.wf(),
            message.spec_writable(),
        ensures
            match self.spec_connection() {
                Some(c) => r matches Some(o) && o.connection == c && o.stream
                    == unreliable_stream() && bytes_contents(o.data) == publish_bytes(
                    topic@,
                    T::spec_header().code(),
                    message.spec_encoding(),
                ),
                None => r is None,
            },
    {
        let data = Self::publication(&topic, message);
        self.send_on(self.stream_unreliable, data)
    }

    /// Publishes `message` on `topic` on the reliable stream.
    pub fn publish_reliable<T: GameMessage>(&self, topic: Topic, message: &T) -> (r: Option<
        Outgoing,
    >)
        requires
            self.wf(),
            message.spec_writable(),
        ensures
            match self.spec_connection() {
                Some(c) => r matches Some(o) && o.connection == c && o.stream == reliable_stream()
                    && bytes_contents(o.data) == publish_bytes(
                    topic@,
                    T::spec_header().code(),
                    message.spec_encoding(),
                ),
                None => r is None,
            },
    {
        let data = Self::publication(&topic, message);
        self.send_on(self.stream_reliable, data)
    }
}

} // verus!
