//! What the broker does on each network event.  The network itself is driven
//! from outside: each event comes in with the connection's uuid, and the
//! broker answers with the state change it made and at most one action (a
//! reply, a routed message, or a connection to close).
use crate::broker::broker_state::{
    is_subscribed, lemma_disconnect, lemma_subscribe_all_adds, lemma_subscribe_effect, lemma_topic_from,
    lemma_topic_from_bytes, node_line_topic, routing_consistent, members, route_targets, spec_connect_client,
    spec_connect_server, spec_disconnect, spec_subscribe, spec_unsubscribe, subscribe_all,
    system_topic, topic_from, BrokerView, NetworkInterface, SharedBrokerState,
};
use crate::broker_protocol::topic_layers::LayerView;
use crate::broker_protocol::topic_patterns::{
    lemma_pattern_round_trip, pattern_encoding, pattern_read, pattern_readable, pattern_sendable,
    pattern_topics, topics_view, TopicPattern,
};
use crate::broker_protocol::topics::{
    head_byte, head_domain, head_namespace, lemma_head_byte_round_trip, Namespace, SecurityDomain, Topic, TopicBuilder, TopicInterface,
};
use crate::bytes_io::{
    bytes_as_slice, bytes_contents, bytes_len, bytes_mut_new, freeze, get_u32_le, get_u8,
    put_u32_le, put_u8,
};
use crate::shared_replication::broker_message::{
    lemma_message_round_trip, message_encoding, message_read, message_sendable, spec_is_server,
    BrokerMessage, MessageView, NodeId, NodeIdMetaData, ProtocolError, RELIABLE_STREAM_ID,
};
use bytes::Bytes;
use vstd::bytes::{spec_u32_from_le_bytes, spec_u32_to_le_bytes};
use vstd::prelude::*;

verus! {

/// A stream of a connection: its number and whether it is reliable.
#[derive(Debug, Clone, Copy, PartialEq, Eq, Structural)]
pub struct StreamInfo {
    pub stream_id: u16,
    pub reliable: bool,
}

/// The reliable stream on which the broker talks to nodes.
pub open spec fn reliable_stream() -> StreamInfo {
    StreamInfo { stream_id: RELIABLE_STREAM_ID, reliable: true }
}

/// What the network reports about a connection, the connection known by
/// its uuid.
#[derive(Debug, Clone)]
pub enum NetEvent {
    Connected { connection: u128 },
    Disconnected { connection: u128 },
    StreamCreated { connection: u128, stream: StreamInfo },
    Message { connection: u128, stream: StreamInfo, data: Bytes },
    Other,
}

/// An event with its data seen as bytes.
pub ghost enum EventView {
    Connected { connection: u128 },
    Disconnected { connection: u128 },
    StreamCreated { connection: u128, stream: StreamInfo },
    Message { connection: u128, stream: StreamInfo, data: Seq<u8> },
    Other,
}

impl View for NetEvent {
    type V = EventView;

    open spec fn view(&self) -> EventView {
        match self {
            NetEvent::Connected { connection } => EventView::Connected { connection: *connection },
            NetEvent::Disconnected { connection } => EventView::Disconnected {
                connection: *connection,
            },
            NetEvent::StreamCreated { connection, stream } => EventView::StreamCreated {
                connection: *connection,
                stream: *stream,
            },
            NetEvent::Message { connection, stream, data } => EventView::Message {
                connection: *connection,
                stream: *stream,
                data: bytes_contents(*data),
            },
            NetEvent::Other => EventView::Other,
        }
    }
}

/// A request of a node: a protocol message, or a batch of subscriptions
/// given by a topic pattern.
#[derive(Debug, Clone)]
pub enum NodeRequest {
    Message(BrokerMessage),
    BatchSubscribe { client_id: NodeId, pattern: TopicPattern },
    BatchUnsubscribe { client_id: NodeId, pattern: TopicPattern },
}

/// A request with its message and pattern seen as values.
pub ghost enum RequestView {
    Message(MessageView),
    BatchSubscribe { client_id: NodeId, pattern: Seq<LayerView> },
    BatchUnsubscribe { client_id: NodeId, pattern: Seq<LayerView> },
}

impl View for NodeRequest {
    type V = RequestView;

    open spec fn view(&self) -> RequestView {
        match self {
            NodeRequest::Message(m) => RequestView::Message(m@),
            NodeRequest::BatchSubscribe { client_id, pattern } => RequestView::BatchSubscribe {
                client_id: *client_id,
                pattern: pattern@,
            },
            NodeRequest::BatchUnsubscribe { client_id, pattern } => RequestView::BatchUnsubscribe {
                client_id: *client_id,
                pattern: pattern@,
            },
        }
    }
}

/// The tag byte of a batch subscription, after the eight message tags.
pub const BATCH_SUBSCRIBE_TAG: u8 = 0x09;

/// The tag byte of a batch unsubscription.
pub const BATCH_UNSUBSCRIBE_TAG: u8 = 0x0A;

/// The bytes of a batch request: its tag, the node it is for on four
/// little-endian bytes (0 for the sender itself), then the pattern.
pub open spec fn batch_encoding(tag: u8, client_id: NodeId, pattern: Seq<LayerView>) -> Seq<u8> {
    seq![tag] + spec_u32_to_le_bytes(client_id) + pattern_encoding(pattern)
}

/// The bytes of a request.
pub open spec fn request_encoding(req: RequestView) -> Seq<u8> {
    match req {
        RequestView::Message(m) => message_encoding(m),
        RequestView::BatchSubscribe { client_id, pattern } => batch_encoding(
            BATCH_SUBSCRIBE_TAG,
            client_id,
            pattern,
        ),
        RequestView::BatchUnsubscribe { client_id, pattern } => batch_encoding(
            BATCH_UNSUBSCRIBE_TAG,
            client_id,
            pattern,
        ),
    }
}

/// A request that can be sent: its message or its pattern can.
pub open spec fn request_sendable(req: RequestView) -> bool {
    match req {
        RequestView::Message(m) => message_sendable(m),
        RequestView::BatchSubscribe { pattern, .. } => pattern_sendable(pattern),
        RequestView::BatchUnsubscribe { pattern, .. } => pattern_sendable(pattern),
    }
}

/// Whether the first byte of `s` is a batch tag.
pub open spec fn is_batch(s: Seq<u8>) -> bool {
    s.len() >= 1 && (s[0] == BATCH_SUBSCRIBE_TAG || s[0] == BATCH_UNSUBSCRIBE_TAG)
}

/// Reading a request from `s`: a batch request by its tag, else a protocol
/// message.  A batch request is refused when it is shorter than its tag and
/// node, when its pattern cannot be read to the end of its layers, or when
/// a layer is malformed.
pub open spec fn request_read(s: Seq<u8>) -> Result<RequestView, ProtocolError> {
    if is_batch(s) {
        if s.len() < 5 {
            Err(
                ProtocolError::BufferTooShort {
                    expected: 5,
                    actual: s.len() as usize,
                    context: "Requête batch",
                },
            )
        } else if !pattern_readable(s.skip(5)) {
            Err(ProtocolError::MalformedData("Motif de topics incomplet"))
        } else {
            let client_id = spec_u32_from_le_bytes(s.subrange(1, 5));
            match pattern_read(s.skip(5)).0 {
                Ok(ls) => if s[0] == BATCH_SUBSCRIBE_TAG {
                    Ok(RequestView::BatchSubscribe { client_id, pattern: ls })
                } else {
                    Ok(RequestView::BatchUnsubscribe { client_id, pattern: ls })
                },
                Err(e) => Err(e),
            }
        }
    } else {
        match message_read(s) {
            Ok(m) => Ok(RequestView::Message(m)),
            Err(e) => Err(e),
        }
    }
}

impl NodeRequest {
    /// The request's bytes.
    pub fn serialize(&self) -> (r: Bytes)
        requires
            request_sendable(self@),
        ensures
            bytes_contents(r) == request_encoding(self@),
    {
        match self {
            NodeRequest::Message(m) => m.serialize(),
            NodeRequest::BatchSubscribe { client_id, pattern } => {
                let mut buf = bytes_mut_new();
                put_u8(&mut buf, BATCH_SUBSCRIBE_TAG);
                put_u32_le(&mut buf, *client_id);
                pattern.serialize(&mut buf);
                proof {
                    assert(crate::bytes_io::bytes_mut_contents(buf) =~= batch_encoding(
                        BATCH_SUBSCRIBE_TAG,
                        *client_id,
                        pattern@,
                    ));
                }
                freeze(buf)
            },
            NodeRequest::BatchUnsubscribe { client_id, pattern } => {
                let mut buf = bytes_mut_new();
                put_u8(&mut buf, BATCH_UNSUBSCRIBE_TAG);
                put_u32_le(&mut buf, *client_id);
                pattern.serialize(&mut buf);
                proof {
                    assert(crate::bytes_io::bytes_mut_contents(buf) =~= batch_encoding(
                        BATCH_UNSUBSCRIBE_TAG,
                        *client_id,
                        pattern@,
                    ));
                }
                freeze(buf)
            },
        }
    }

    /// Reads a request from `data` (see `request_read`).
    pub fn deserialize(data: Bytes) -> (r: Result<NodeRequest, ProtocolError>)
        ensures
            match request_read(bytes_contents(data)) {
                Ok(v) => r matches Ok(q) && q@ == v,
                Err(e) => r == Err::<NodeRequest, ProtocolError>(e),
            },
    {
        let ghost s = bytes_contents(data);
        let n = bytes_len(&data);
        let tag: u8 = if n >= 1 {
            bytes_as_slice(&data)[0]
        } else {
            0
        };
        if n >= 1 && (tag == BATCH_SUBSCRIBE_TAG || tag == BATCH_UNSUBSCRIBE_TAG) {
            if n < 5 {
                return Err(
                    ProtocolError::BufferTooShort {
                        expected: 5,
                        actual: n,
                        context: "Requête batch",
                    },
                );
            }
            let mut rest = data;
            let _ = get_u8(&mut rest);
            let client_id = get_u32_le(&mut rest);
            proof {
                assert(s.skip(1).take(4) =~= s.subrange(1, 5));
                assert(s.skip(1).skip(4) =~= s.skip(5));
            }
            match TopicPattern::try_deserialize(&mut rest) {
                None => Err(ProtocolError::MalformedData("Motif de topics incomplet")),
                Some(Err(e)) => Err(e),
                Some(Ok(pattern)) => if tag == BATCH_SUBSCRIBE_TAG {
                    Ok(NodeRequest::BatchSubscribe { client_id, pattern })
                } else {
                    Ok(NodeRequest::BatchUnsubscribe { client_id, pattern })
                },
            }
        } else {
            match BrokerMessage::deserialize(data) {
                Ok(m) => Ok(NodeRequest::Message(m)),
                Err(e) => Err(e),
            }
        }
    }
}

/// Reading back the bytes of a sendable request gives the request.
pub proof fn lemma_request_round_trip(req: RequestView)
    requires
        request_sendable(req),
    ensures
        request_read(request_encoding(req)) == Ok::<RequestView, ProtocolError>(req),
{
    vstd::bytes::lemma_auto_spec_u32_to_from_le_bytes();
    match req {
        RequestView::Message(m) => {
            lemma_message_round_trip(m, Seq::empty());
            assert(message_encoding(m) + Seq::<u8>::empty() =~= message_encoding(m));
            assert(!is_batch(message_encoding(m)));
        },
        RequestView::BatchSubscribe { client_id, pattern } => {
            let s = batch_encoding(BATCH_SUBSCRIBE_TAG, client_id, pattern);
            lemma_pattern_round_trip(pattern, Seq::empty());
            assert(s.skip(5) =~= pattern_encoding(pattern) + Seq::<u8>::empty());
            assert(s.subrange(1, 5) =~= spec_u32_to_le_bytes(client_id));
        },
        RequestView::BatchUnsubscribe { client_id, pattern } => {
            let s = batch_encoding(BATCH_UNSUBSCRIBE_TAG, client_id, pattern);
            lemma_pattern_round_trip(pattern, Seq::empty());
            assert(s.skip(5) =~= pattern_encoding(pattern) + Seq::<u8>::empty());
            assert(s.subrange(1, 5) =~= spec_u32_to_le_bytes(client_id));
        },
    }
}

/// What the broker routes to the listeners of a topic: a protocol message,
/// or the news that a node went away.
#[derive(Debug, Clone)]
pub enum Notice {
    Message(BrokerMessage),
    NodeDisconnected(NodeId),
}

/// A notice seen as a value.
pub ghost enum NoticeView {
    Message(MessageView),
    NodeDisconnected(NodeId),
}

impl View for Notice {
    type V = NoticeView;

    open spec fn view(&self) -> NoticeView {
        match self {
            Notice::Message(m) => NoticeView::Message(m@),
            Notice::NodeDisconnected(n) => NoticeView::NodeDisconnected(*n),
        }
    }
}

/// A notice to send on `stream` to the listed server and client connections.
#[derive(Debug, Clone)]
pub struct Route {
    pub notice: Notice,
    pub stream: StreamInfo,
    pub servers: Vec<u128>,
    pub clients: Vec<u128>,
}

/// What the broker asks the network to do.
#[derive(Debug, Clone)]
pub enum BrokerAction {
    /// Send `message` to one connection.
    Send {
        interface: NetworkInterface,
        connection: u128,
        stream: StreamInfo,
        message: BrokerMessage,
    },
    /// Send a notice to the listeners of a topic.
    Route(Route),
    /// Close a connection.
    Disconnect { interface: NetworkInterface, connection: u128 },
}

/// The action the broker owes, in terms of the tables after the event.
pub ghost enum Expected {
    Nothing,
    Welcome { interface: NetworkInterface, connection: u128, node: NodeId },
    Route { notice: NoticeView, topic: Topic, stream: StreamInfo },
    Disconnect { interface: NetworkInterface, connection: u128 },
}

/// `a` is the action `e`, a route reaching the connected listeners of its
/// topic in the tables `v`.
pub open spec fn performs(a: Option<BrokerAction>, e: Expected, v: BrokerView) -> bool {
    match e {
        Expected::Nothing => a is None,
        Expected::Welcome { interface, connection, node } => a == Some(
            BrokerAction::Send {
                interface,
                connection,
                stream: reliable_stream(),
                message: BrokerMessage::Welcome { node_id: node },
            },
        ),
        Expected::Route { notice, topic, stream } => match a {
            Some(BrokerAction::Route(r)) => {
                &&& r.notice@ == notice
                &&& r.stream == stream
                &&& r.servers@ == route_targets(v, topic, true)
                &&& r.clients@ == route_targets(v, topic, false)
            },
            _ => false,
        },
        Expected::Disconnect { interface, connection } => a == Some(
            BrokerAction::Disconnect { interface, connection },
        ),
    }
}

/// The node a server acts for: itself when it names the sender reference 0.
pub open spec fn target_of(sender: NodeId, client_id: NodeId) -> NodeId {
    if client_id == 0 {
        sender
    } else {
        client_id
    }
}

/// The topics of a pattern, in unpacking order.
pub open spec fn pattern_topic_list(pattern: Seq<LayerView>) -> Seq<Topic> {
    pattern_topics(pattern).map_values(|b: Seq<u8>| topic_from(b))
}

/// Whether a client may read `topic`: only world state is public.
pub open spec fn client_may_read(topic: Seq<u8>) -> bool {
    head_domain(topic[0]) == Some(SecurityDomain::PublicReadPrivateWrite)
}

/// Whether client `node` may publish on `topic`: only on topics clients
/// write, and before authorization only in the authentication namespace.
pub open spec fn client_may_publish(v: BrokerView, node: NodeId, topic: Seq<u8>) -> bool {
    &&& head_domain(topic[0]) == Some(SecurityDomain::PrivateReadPublicWrite)
    &&& (!v.unauthenticated.contains(node) || head_namespace(topic[0]) == Some(
        Namespace::ClientAuth,
    ))
}

/// The tables after a client's request.
pub open spec fn public_request_tables(v: BrokerView, node: NodeId, req: RequestView) -> BrokerView {
    match req {
        RequestView::Message(MessageView::Subscribe { topic, .. }) => if client_may_read(topic) {
            spec_subscribe(v, node, topic_from(topic))
        } else {
            v
        },
        RequestView::Message(MessageView::Unsubscribe { topic, .. }) => spec_unsubscribe(
            v,
            node,
            topic_from(topic),
        ),
        _ => v,
    }
}

/// The action owed on a client's request.
pub open spec fn public_request_action(
    v: BrokerView,
    node: NodeId,
    stream: StreamInfo,
    req: RequestView,
) -> Expected {
    match req {
        RequestView::Message(MessageView::Publish { topic, payload }) => if client_may_publish(
            v,
            node,
            topic,
        ) {
            Expected::Route {
                notice: NoticeView::Message(MessageView::BroadCastFrom { client_id: node, payload }),
                topic: topic_from(topic),
                stream,
            }
        } else {
            Expected::Nothing
        },
        _ => Expected::Nothing,
    }
}

/// The tables after a server's request.
pub open spec fn private_request_tables(v: BrokerView, node: NodeId, req: RequestView) -> BrokerView {
    match req {
        RequestView::Message(MessageView::Subscribe { client_id, topic }) => spec_subscribe(
            v,
            target_of(node, client_id),
            topic_from(topic),
        ),
        RequestView::Message(MessageView::Unsubscribe { client_id, topic }) => spec_unsubscribe(
            v,
            target_of(node, client_id),
            topic_from(topic),
        ),
        RequestView::BatchSubscribe { client_id, pattern } => subscribe_all(
            v,
            target_of(node, client_id),
            pattern_topic_list(pattern),
        ),
        RequestView::BatchUnsubscribe { client_id, pattern } => crate::broker::broker_state::unsubscribe_all(
            v,
            target_of(node, client_id),
            pattern_topic_list(pattern),
        ),
        RequestView::Message(MessageView::AuthorizeClient { client_id }) => BrokerView {
            unauthenticated: v.unauthenticated.remove(client_id),
            ..v
        },
        _ => v,
    }
}

/// The connection of `node` in the table of its kind, if any.
pub open spec fn connection_of(v: BrokerView, node: NodeId) -> Option<u128> {
    let table = if spec_is_server(node) {
        v.servers
    } else {
        v.clients
    };
    if table.contains_key(node) {
        Some(table[node])
    } else {
        None
    }
}

/// The interface a node is reached on.
pub open spec fn interface_of(node: NodeId) -> NetworkInterface {
    if spec_is_server(node) {
        NetworkInterface::Private
    } else {
        NetworkInterface::Public
    }
}

/// The action owed on a server's request.
pub open spec fn private_request_action(
    v: BrokerView,
    node: NodeId,
    stream: StreamInfo,
    req: RequestView,
) -> Expected {
    match req {
        RequestView::Message(MessageView::Publish { topic, payload }) => Expected::Route {
            notice: NoticeView::Message(MessageView::Broadcast { payload }),
            topic: topic_from(topic),
            stream,
        },
        RequestView::Message(MessageView::KickNode { client_id }) => match connection_of(
            v,
            client_id,
        ) {
            Some(c) => Expected::Disconnect { interface: interface_of(client_id), connection: c },
            None => Expected::Nothing,
        },
        _ => Expected::Nothing,
    }
}

/// The tables and the action after a connection goes away.
pub open spec fn disconnect_step(v: BrokerView, connection: u128) -> (BrokerView, Expected) {
    (
        spec_disconnect(v, connection),
        if v.nodes.contains_key(connection) {
            let n = v.nodes[connection];
            Expected::Route {
                notice: NoticeView::NodeDisconnected(n),
                topic: topic_from(
                    system_topic(
                        if spec_is_server(n) {
                            Namespace::ServerConnection
                        } else {
                            Namespace::ClientAuth
                        },
                    ),
                ),
                stream: reliable_stream(),
            }
        } else {
            Expected::Nothing
        },
    )
}

/// The welcome owed when a node opens a stream: only on the reliable
/// broker stream of a known connection.
pub open spec fn stream_created_action(
    v: BrokerView,
    interface: NetworkInterface,
    connection: u128,
    stream: StreamInfo,
) -> Expected {
    if v.nodes.contains_key(connection) && stream.reliable && stream.stream_id == RELIABLE_STREAM_ID {
        Expected::Welcome { interface, connection, node: v.nodes[connection] }
    } else {
        Expected::Nothing
    }
}

/// The tables and the action after an event on the public interface.
pub open spec fn public_step(v: BrokerView, e: EventView) -> (BrokerView, Expected) {
    match e {
        EventView::Connected { connection } => (spec_connect_client(v, connection), Expected::Nothing),
        EventView::Disconnected { connection } => disconnect_step(v, connection),
        EventView::StreamCreated { connection, stream } => (
            v,
            stream_created_action(v, NetworkInterface::Public, connection, stream),
        ),
        EventView::Message { connection, stream, data } => if v.nodes.contains_key(connection) {
            match message_read(data) {
                Ok(m) => (
                    public_request_tables(v, v.nodes[connection], RequestView::Message(m)),
                    public_request_action(v, v.nodes[connection], stream, RequestView::Message(m)),
                ),
                Err(_) => (v, Expected::Nothing),
            }
        } else {
            (v, Expected::Nothing)
        },
        EventView::Other => (v, Expected::Nothing),
    }
}

/// The tables and the action after an event on the private interface.
pub open spec fn private_step(v: BrokerView, e: EventView) -> (BrokerView, Expected) {
    match e {
        EventView::Connected { connection } => (spec_connect_server(v, connection), Expected::Nothing),
        EventView::Disconnected { connection } => disconnect_step(v, connection),
        EventView::StreamCreated { connection, stream } => (
            v,
            stream_created_action(v, NetworkInterface::Private, connection, stream),
        ),
        EventView::Message { connection, stream, data } => if v.nodes.contains_key(connection) {
            match request_read(data) {
                Ok(req) => (
                    private_request_tables(v, v.nodes[connection], req),
                    private_request_action(v, v.nodes[connection], stream, req),
                ),
                Err(_) => (v, Expected::Nothing),
            }
        } else {
            (v, Expected::Nothing)
        },
        EventView::Other => (v, Expected::Nothing),
    }
}

/// The route of `notice` on `topic`: the connected servers and clients that
/// listen to it.
pub fn route_message(
    state: &SharedBrokerState,
    notice: Notice,
    topic: Topic,
    stream: StreamInfo,
) -> (r: Route)
    requires
        state.wf(),
    ensures
        r.notice == notice,
        r.stream == stream,
        r.servers@ == route_targets(state.view(), topic, true),
        r.clients@ == route_targets(state.view(), topic, false),
{
    let servers = state.subscriber_connections(&topic, true);
    let clients = state.subscriber_connections(&topic, false);
    Route { notice, stream, servers, clients }
}

/// A connection goes away: its node is forgotten, and the servers that
/// listen to the system topic of its kind are told.
pub fn handle_disconnect(state: &mut SharedBrokerState, connection: u128) -> (r:
    Option<BrokerAction>)
    requires
        old(state).wf(),
    ensures
        final(state).wf(),
        final(state).view() == disconnect_step(old(state).view(), connection).0,
        performs(r, disconnect_step(old(state).view(), connection).1, final(state).view()),
{
    match state.disconnect(connection) {
        Some(node_id) => {
            let namespace = if node_id.is_server() {
                Namespace::ServerConnection
            } else {
                Namespace::ClientAuth
            };
            let system = TopicBuilder::new(SecurityDomain::PrivateRW, namespace).build();
            proof {
                assert(system@ =~= system_topic(namespace));
                lemma_topic_from(system);
            }
            let stream = StreamInfo { stream_id: RELIABLE_STREAM_ID, reliable: true };
            let route = route_message(state, Notice::NodeDisconnected(node_id), system, stream);
            Some(BrokerAction::Route(route))
        },
        None => None,
    }
}

/// The welcome a node gets when it opens the reliable broker stream.
fn welcome(
    state: &SharedBrokerState,
    interface: NetworkInterface,
    connection: u128,
    stream: StreamInfo,
) -> (r: Option<BrokerAction>)
    requires
        state.wf(),
    ensures
        performs(r, stream_created_action(state.view(), interface, connection, stream), state.view()),
{
    match state.node_of(connection) {
        Some(node_id) => {
            if stream.reliable && stream.stream_id == RELIABLE_STREAM_ID {
                Some(
                    BrokerAction::Send {
                        interface,
                        connection,
                        stream,
                        message: BrokerMessage::Welcome { node_id },
                    },
                )
            } else {
                None
            }
        },
        None => None,
    }
}

/// A client's request: it may read only public topics, may write only on
/// topics clients write, and must be authorized unless it writes in the
/// authentication namespace.  Batches are refused.
pub fn handle_public_request(
    state: &mut SharedBrokerState,
    node_id: NodeId,
    stream: StreamInfo,
    request: NodeRequest,
) -> (r: Option<BrokerAction>)
    requires
        old(state).wf(),
    ensures
        final(state).wf(),
        final(state).view() == public_request_tables(old(state).view(), node_id, request@),
        performs(
            r,
            public_request_action(old(state).view(), node_id, stream, request@),
            final(state).view(),
        ),
{
    match request {
        NodeRequest::Message(BrokerMessage::Subscribe { topic, .. }) => {
            proof {
                lemma_topic_from(topic);
            }
            if topic.security_domain() == Some(SecurityDomain::PublicReadPrivateWrite) {
                state.node_subscribe(node_id, topic);
            }
            None
        },
        NodeRequest::Message(BrokerMessage::Unsubscribe { topic, .. }) => {
            proof {
                lemma_topic_from(topic);
            }
            state.node_unsubscribe(node_id, topic);
            None
        },
        NodeRequest::Message(BrokerMessage::Publish { topic, payload }) => {
            proof {
                lemma_topic_from(topic);
            }
            if topic.security_domain() != Some(SecurityDomain::PrivateReadPublicWrite) {
                return None;
            }
            if !state.is_unauthenticated(node_id) || topic.namespace() == Some(
                Namespace::ClientAuth,
            ) {
                let route = route_message(
                    state,
                    Notice::Message(BrokerMessage::BroadCastFrom { client_id: node_id, payload }),
                    topic,
                    stream,
                );
                Some(BrokerAction::Route(route))
            } else {
                None
            }
        },
        _ => None,
    }
}

/// Subscribes (or unsubscribes) `target` to each topic of `pattern` in turn.
fn batch(state: &mut SharedBrokerState, target: NodeId, pattern: &TopicPattern, subscribe: bool)
    requires
        old(state).wf(),
    ensures
        final(state).wf(),
        final(state).view() == (if subscribe {
            subscribe_all(old(state).view(), target, pattern_topic_list(pattern@))
        } else {
            crate::broker::broker_state::unsubscribe_all(
                old(state).view(),
                target,
                pattern_topic_list(pattern@),
            )
        }),
{
    let mut topics: Vec<Topic> = Vec::new();
    pattern.unpack_into(&mut topics);
    let ghost list = pattern_topic_list(pattern@);
    proof {
        assert(topics_view(topics@) =~= pattern_topics(pattern@));
        assert forall|i: int| 0 <= i < topics@.len() implies #[trigger] topics@[i] == list[i] by {
            assert(topics_view(topics@)[i] == topics@[i]@);
            lemma_topic_from(topics@[i]);
        }
        assert(topics@ =~= list);
    }
    let ghost v = state.view();
    let n = topics.len();
    let mut i: usize = 0;
    while i < n
        invariant
            state.wf(),
            n == topics@.len(),
            topics@ == list,
            0 <= i <= n,
            state.view() == (if subscribe {
                subscribe_all(v, target, list.take(i as int))
            } else {
                crate::broker::broker_state::unsubscribe_all(v, target, list.take(i as int))
            }),
        decreases n - i,
    {
        let t = topics[i];
        if subscribe {
            state.node_subscribe(target, t);
        } else {
            state.node_unsubscribe(target, t);
        }
        proof {
            assert(list.take(i + 1).drop_last() =~= list.take(i as int));
        }
        i = i + 1;
    }
    assert(list.take(n as int) =~= list);
}

/// A server's request: servers are trusted.  They subscribe and unsubscribe
/// themselves or, naming it, any node; publish to a topic's listeners;
/// authorize clients; and have nodes disconnected.
pub fn handle_private_request(
    state: &mut SharedBrokerState,
    node_id: NodeId,
    stream: StreamInfo,
    request: NodeRequest,
) -> (r: Option<BrokerAction>)
    requires
        old(state).wf(),
    ensures
        final(state).wf(),
        final(state).view() == private_request_tables(old(state).view(), node_id, request@),
        performs(
            r,
            private_request_action(old(state).view(), node_id, stream, request@),
            final(state).view(),
        ),
{
    match request {
        NodeRequest::Message(BrokerMessage::Subscribe { client_id, topic }) => {
            let target_id = if client_id == 0 {
                node_id
            } else {
                client_id
            };
            proof {
                lemma_topic_from(topic);
            }
            state.node_subscribe(target_id, topic);
            None
        },
        NodeRequest::Message(BrokerMessage::Unsubscribe { client_id, topic }) => {
            let target_id = if client_id == 0 {
                node_id
            } else {
                client_id
            };
            proof {
                lemma_topic_from(topic);
            }
            state.node_unsubscribe(target_id, topic);
            None
        },
        NodeRequest::BatchSubscribe { client_id, pattern } => {
            let target_id = if client_id == 0 {
                node_id
            } else {
                client_id
            };
            batch(state, target_id, &pattern, true);
            None
        },
        NodeRequest::BatchUnsubscribe { client_id, pattern } => {
            let target_id = if client_id == 0 {
                node_id
            } else {
                client_id
            };
            batch(state, target_id, &pattern, false);
            None
        },
        NodeRequest::Message(BrokerMessage::Publish { topic, payload }) => {
            proof {
                lemma_topic_from(topic);
            }
            let route = route_message(
                state,
                Notice::Message(BrokerMessage::Broadcast { payload }),
                topic,
                stream,
            );
            Some(BrokerAction::Route(route))
        },
        NodeRequest::Message(BrokerMessage::AuthorizeClient { client_id }) => {
            state.authorize_client(client_id);
            None
        },
        NodeRequest::Message(BrokerMessage::KickNode { client_id }) => {
            match state.connection_of(client_id) {
                Some(connection) => {
                    let interface = if client_id.is_server() {
                        NetworkInterface::Private
                    } else {
                        NetworkInterface::Public
                    };
                    Some(BrokerAction::Disconnect { interface, connection })
                },
                None => None,
            }
        },
        _ => None,
    }
}

/// An event on the public interface, where clients connect.
pub fn handle_public_event(state: &mut SharedBrokerState, event: NetEvent) -> (r:
    Option<BrokerAction>)
    requires
        old(state).wf(),
    ensures
        final(state).wf(),
        final(state).view() == public_step(old(state).view(), event@).0,
        performs(r, public_step(old(state).view(), event@).1, final(state).view()),
{
    match event {
        NetEvent::Connected { connection } => {
            state.connect_client(connection);
            None
        },
        NetEvent::Disconnected { connection } => handle_disconnect(state, connection),
        NetEvent::StreamCreated { connection, stream } => welcome(
            state,
            NetworkInterface::Public,
            connection,
            stream,
        ),
        NetEvent::Message { connection, stream, data } => {
            let node_id = match state.node_of(connection) {
                Some(id) => id,
                None => {
                    return None;
                },
            };
            match BrokerMessage::deserialize(data) {
                Ok(message) => handle_public_request(
                    state,
                    node_id,
                    stream,
                    NodeRequest::Message(message),
                ),
                Err(_) => None,
            }
        },
        NetEvent::Other => None,
    }
}

/// An event on the private interface, where game servers connect.  Their
/// messages are requests: protocol messages or batch (un)subscriptions.
pub fn handle_private_event(state: &mut SharedBrokerState, event: NetEvent) -> (r:
    Option<BrokerAction>)
    requires
        old(state).wf(),
    ensures
        final(state).wf(),
        final(state).view() == private_step(old(state).view(), event@).0,
        performs(r, private_step(old(state).view(), event@).1, final(state).view()),
{
    match event {
        NetEvent::Connected { connection } => {
            state.connect_server(connection);
            None
        },
        NetEvent::Disconnected { connection } => handle_disconnect(state, connection),
        NetEvent::StreamCreated { connection, stream } => welcome(
            state,
            NetworkInterface::Private,
            connection,
            stream,
        ),
        NetEvent::Message { connection, stream, data } => {
            let node_id = match state.node_of(connection) {
                Some(id) => id,
                None => {
                    return None;
                },
            };
            match NodeRequest::deserialize(data) {
                Ok(request) => handle_private_request(state, node_id, stream, request),
                Err(_) => None,
            }
        },
        NetEvent::Other => None,
    }
}

/// On the public interface a client never gains a subscription to a
/// topic that is not world state: neither by subscribing, nor on connecting,
/// where it listens to its own direct line.
pub proof fn lemma_clients_read_only_public_topics(v: BrokerView, e: EventView, n: NodeId, t: Topic)
    requires
        routing_consistent(v),
        is_subscribed(public_step(v, e).0, n, t),
        !is_subscribed(v, n, t),
    ensures
        head_domain(t@[0]) == Some(SecurityDomain::PublicReadPrivateWrite),
{
    match e {
        EventView::Connected { connection } => {
            let id = v.next_client_id;
            let line = node_line_topic(SecurityDomain::PublicReadPrivateWrite, id);
            let v1 = BrokerView {
                nodes: v.nodes.insert(connection, id),
                clients: v.clients.insert(id, connection),
                unauthenticated: v.unauthenticated.insert(id),
                next_client_id: id.wrapping_add(1),
                ..v
            };
            assert(routing_consistent(v1));
            lemma_subscribe_effect(v1, id, topic_from(line));
            assert(is_subscribed(v1, n, t) == is_subscribed(v, n, t));
            vstd::bytes::lemma_auto_spec_u32_to_from_le_bytes();
            lemma_topic_from_bytes(line);
            lemma_head_byte_round_trip(SecurityDomain::PublicReadPrivateWrite, Namespace::NodeLine);
        },
        EventView::Disconnected { connection } => {
            if v.nodes.contains_key(connection) {
                lemma_disconnect(v, connection);
            }
        },
        EventView::Message { connection, stream, data } => {
            if v.nodes.contains_key(connection) {
                let node = v.nodes[connection];
                match message_read(data) {
                    Ok(MessageView::Subscribe { client_id, topic }) => {
                        if client_may_read(topic) {
                            lemma_subscribe_effect(v, node, topic_from(topic));
                            lemma_topic_from_bytes(topic);
                        }
                    },
                    Ok(MessageView::Unsubscribe { client_id, topic }) => {
                        lemma_subscribe_effect(v, node, topic_from(topic));
                    },
                    _ => {},
                }
            }
        },
        _ => {},
    }
}

/// On the public interface a message is routed for a client only when
/// it publishes on a topic clients write and, while it waits for
/// authorization, in the authentication namespace; it goes out stamped with
/// the id of the client that sent it.
pub proof fn lemma_client_publish_guarded(
    v: BrokerView,
    e: EventView,
    client: NodeId,
    payload: Seq<u8>,
    topic: Topic,
    stream: StreamInfo,
)
    requires
        public_step(v, e).1 == (Expected::Route {
            notice: NoticeView::Message(MessageView::BroadCastFrom { client_id: client, payload }),
            topic,
            stream,
        }),
    ensures
        e matches EventView::Message { connection, .. } && v.nodes.contains_key(connection)
            && client == v.nodes[connection],
        head_domain(topic@[0]) == Some(SecurityDomain::PrivateReadPublicWrite),
        v.unauthenticated.contains(client) ==> head_namespace(topic@[0]) == Some(
            Namespace::ClientAuth,
        ),
{
    match e {
        EventView::Message { connection, stream, data } => {
            match message_read(data) {
                Ok(MessageView::Publish { topic: tb, payload }) => {
                    lemma_topic_from_bytes(tb);
                },
                _ => {},
            }
        },
        _ => {},
    }
}
/// A server's batch subscription on behalf of a client (a non-zero client
/// id) subscribes that client to every topic of the pattern and no one to
/// anything else: the server itself gains nothing.  With client id 0 the
/// server subscribes itself.
pub proof fn lemma_batch_subscribe_target(
    v: BrokerView,
    node: NodeId,
    client_id: NodeId,
    pattern: Seq<LayerView>,
)
    ensures
        client_id != 0 ==> forall|n: NodeId, t: Topic|
            #[trigger] is_subscribed(
                private_request_tables(
                    v,
                    node,
                    RequestView::BatchSubscribe { client_id, pattern },
                ),
                n,
                t,
            ) <==> (is_subscribed(v, n, t) || (n == client_id && pattern_topic_list(
                pattern,
            ).contains(t))),
        client_id == 0 ==> forall|n: NodeId, t: Topic|
            #[trigger] is_subscribed(
                private_request_tables(
                    v,
                    node,
                    RequestView::BatchSubscribe { client_id, pattern },
                ),
                n,
                t,
            ) <==> (is_subscribed(v, n, t) || (n == node && pattern_topic_list(pattern).contains(
                t,
            ))),
{
    lemma_subscribe_all_adds(v, target_of(node, client_id), pattern_topic_list(pattern));
}

/// When a connected node goes away, the broker routes the news of its
/// departure, stamped with its id, on the reliable stream: for a game
/// server to the listeners of the server-connection system topic, for a
/// client to the listeners of the client-authentication system topic.
pub proof fn lemma_departure_notice(
    v: BrokerView,
    connection: u128,
    a: Option<BrokerAction>,
    w: BrokerView,
)
    requires
        v.nodes.contains_key(connection),
        performs(a, disconnect_step(v, connection).1, w),
    ensures
        a matches Some(BrokerAction::Route(r)) && r.notice@ == NoticeView::NodeDisconnected(
            v.nodes[connection],
        ) && r.stream == reliable_stream(),
        spec_is_server(v.nodes[connection]) ==> (a matches Some(BrokerAction::Route(r))
            && r.servers@ == route_targets(
            w,
            topic_from(system_topic(Namespace::ServerConnection)),
            true,
        ) && r.clients@ == route_targets(
            w,
            topic_from(system_topic(Namespace::ServerConnection)),
            false,
        )),
        !spec_is_server(v.nodes[connection]) ==> (a matches Some(BrokerAction::Route(r))
            && r.servers@ == route_targets(w, topic_from(system_topic(Namespace::ClientAuth)), true)
            && r.clients@ == route_targets(
            w,
            topic_from(system_topic(Namespace::ClientAuth)),
            false,
        )),
{
}


/// The single-threaded broker: it owns its tables, and its id counters do
/// not wrap around.
pub struct Broker {
    pub state: SharedBrokerState,
}

/// The tables of a broker that has seen no event.
pub open spec fn initial_view() -> BrokerView {
    BrokerView {
        nodes: Map::empty(),
        clients: Map::empty(),
        servers: Map::empty(),
        unauthenticated: Set::empty(),
        client_subscribers: Map::empty(),
        server_subscribers: Map::empty(),
        topics_of: Map::empty(),
        next_client_id: crate::shared_replication::broker_message::FIRST_CLIENT_ID,
        next_server_id: crate::shared_replication::broker_message::FIRST_SERVER_ID,
    }
}

impl Default for Broker {
    fn default() -> (r: Self)
        ensures
            r.state.wf(),
            r.state.view() == initial_view(),
    {
        Self::new()
    }
}

impl Broker {
    /// A broker with empty tables.
    pub fn new() -> (r: Self)
        ensures
            r.state.wf(),
            r.state.view() == initial_view(),
    {
        Broker { state: SharedBrokerState::new() }
    }

    /// An event on the public interface.  Client ids are counted up without
    /// wrapping around.
    pub fn handle_public_event(&mut self, event: NetEvent) -> (r: Option<BrokerAction>)
        requires
            old(self).state.wf(),
            event is Connected ==> old(self).state.view().next_client_id < u32::MAX,
        ensures
            final(self).state.wf(),
            final(self).state.view() == public_step(old(self).state.view(), event@).0,
            performs(
                r,
                public_step(old(self).state.view(), event@).1,
                final(self).state.view(),
            ),
    {
        handle_public_event(&mut self.state, event)
    }

    /// An event on the private interface.  Server ids are counted up without
    /// wrapping around.
    pub fn handle_private_event(&mut self, event: NetEvent) -> (r: Option<BrokerAction>)
        requires
            old(self).state.wf(),
            event is Connected ==> old(self).state.view().next_server_id < u32::MAX,
        ensures
            final(self).state.wf(),
            final(self).state.view() == private_step(old(self).state.view(), event@).0,
            performs(
                r,
                private_step(old(self).state.view(), event@).1,
                final(self).state.view(),
            ),
    {
        handle_private_event(&mut self.state, event)
    }
}

/// The worker-pool broker: workers share the tables, and its id counters
/// wrap around.
pub struct Broker2;

impl Broker2 {
    /// An event on the public interface; ids wrap around.
    pub fn handle_public_event(event: NetEvent, state: &mut SharedBrokerState) -> (r: Option<
        BrokerAction,
    >)
        requires
            old(state).wf(),
        ensures
            final(state).wf(),
            final(state).view() == public_step(old(state).view(), event@).0,
            performs(
                r,
                public_step(old(state).view(), event@).1,
                final(state).view(),
            ),
    {
        handle_public_event(state, event)
    }

    /// An event on the private interface; ids wrap around.
    pub fn handle_private_event(event: NetEvent, state: &mut SharedBrokerState) -> (r: Option<
        BrokerAction,
    >)
        requires
            old(state).wf(),
        ensures
            final(state).wf(),
            final(state).view() == private_step(old(state).view(), event@).0,
            performs(
                r,
                private_step(old(state).view(), event@).1,
                final(state).view(),
            ),
    {
        handle_private_event(state, event)
    }
}

} // verus!
