use bytes::Bytes;
use mmo_replication::broker::broker_core::{
    handle_private_request, route_message, Broker, Broker2, BrokerAction, NetEvent, NodeRequest,
    Notice, StreamInfo,
};
use mmo_replication::broker::broker_state::{NetworkInterface, SharedBrokerState};
use mmo_replication::broker_protocol::topic_patterns::TopicPattern;
use mmo_replication::broker_protocol::topics::{Namespace, SecurityDomain, TopicBuilder};
use mmo_replication::shared_replication::broker_message::{BrokerMessage, NodeIdMetaData};

const CLIENT_CONN: u128 = 0xc1;
const SERVER_CONN: u128 = 0x51;

fn reliable() -> StreamInfo {
    StreamInfo { stream_id: 0, reliable: true }
}

fn msg(connection: u128, m: BrokerMessage) -> NetEvent {
    NetEvent::Message { connection, stream: reliable(), data: m.serialize() }
}

fn world_topic() -> [u8; 16] {
    TopicBuilder::new(SecurityDomain::PublicReadPrivateWrite, Namespace::Chunk).append_id(9).build()
}

fn input_topic() -> [u8; 16] {
    TopicBuilder::new(SecurityDomain::PrivateReadPublicWrite, Namespace::SpatialInput).build()
}

fn auth_topic() -> [u8; 16] {
    TopicBuilder::new(SecurityDomain::PrivateReadPublicWrite, Namespace::ClientAuth).build()
}

fn route(action: Option<BrokerAction>) -> (Vec<u128>, Vec<u128>, Notice) {
    match action {
        Some(BrokerAction::Route(r)) => (r.servers, r.clients, r.notice),
        other => panic!("expected a route, got {:?}", other),
    }
}

#[test]
fn connection_ids_and_welcome() {
    let mut state = SharedBrokerState::new();
    assert_eq!(state.generate_client_id(), 1);
    assert_eq!(state.generate_server_id(), 0x8000_0000);
    let mut state = SharedBrokerState::new();
    assert_eq!(Broker2::handle_public_event(NetEvent::Connected { connection: CLIENT_CONN }, &mut state).is_none(), true);
    assert_eq!(state.node_of(CLIENT_CONN), Some(1));
    assert!(state.is_unauthenticated(1));
    let welcome = Broker2::handle_public_event(
        NetEvent::StreamCreated { connection: CLIENT_CONN, stream: reliable() },
        &mut state,
    );
    match welcome {
        Some(BrokerAction::Send { interface, connection, message: BrokerMessage::Welcome { node_id }, .. }) => {
            assert_eq!(interface, NetworkInterface::Public);
            assert_eq!(connection, CLIENT_CONN);
            assert_eq!(node_id, 1);
        }
        other => panic!("unexpected {:?}", other),
    }
    let unreliable = StreamInfo { stream_id: 0, reliable: false };
    assert!(Broker2::handle_public_event(
        NetEvent::StreamCreated { connection: CLIENT_CONN, stream: unreliable },
        &mut state
    )
    .is_none());
    assert!(Broker2::handle_public_event(
        NetEvent::StreamCreated { connection: 0xdead, stream: reliable() },
        &mut state
    )
    .is_none());
}

#[test]
fn clients_only_subscribe_to_world_topics() {
    let mut state = SharedBrokerState::new();
    Broker2::handle_public_event(NetEvent::Connected { connection: CLIENT_CONN }, &mut state);
    Broker2::handle_public_event(msg(CLIENT_CONN, BrokerMessage::Subscribe { client_id: 0, topic: input_topic() }), &mut state);
    assert!(state.subscriber_connections(&input_topic(), false).is_empty());
    Broker2::handle_public_event(msg(CLIENT_CONN, BrokerMessage::Subscribe { client_id: 0, topic: world_topic() }), &mut state);
    assert_eq!(state.subscriber_connections(&world_topic(), false), vec![CLIENT_CONN]);
    Broker2::handle_public_event(msg(CLIENT_CONN, BrokerMessage::Unsubscribe { client_id: 0, topic: world_topic() }), &mut state);
    assert!(!state.has_subscribers(&world_topic(), false));
}

#[test]
fn unauthorized_clients_publish_only_to_authentication() {
    let mut state = SharedBrokerState::new();
    Broker2::handle_private_event(NetEvent::Connected { connection: SERVER_CONN }, &mut state);
    Broker2::handle_public_event(NetEvent::Connected { connection: CLIENT_CONN }, &mut state);
    let server = state.node_of(SERVER_CONN).unwrap();
    state.node_subscribe(server, input_topic());
    state.node_subscribe(server, auth_topic());

    let refused = Broker2::handle_public_event(
        msg(CLIENT_CONN, BrokerMessage::Publish { topic: input_topic(), payload: Bytes::from_static(b"move") }),
        &mut state,
    );
    assert!(refused.is_none());

    let (servers, clients, notice) = route(Broker2::handle_public_event(
        msg(CLIENT_CONN, BrokerMessage::Publish { topic: auth_topic(), payload: Bytes::from_static(b"hello") }),
        &mut state,
    ));
    assert_eq!(servers, vec![SERVER_CONN]);
    assert!(clients.is_empty());
    match notice {
        Notice::Message(BrokerMessage::BroadCastFrom { client_id, payload }) => {
            assert_eq!(client_id, 1);
            assert_eq!(&payload[..], b"hello");
        }
        other => panic!("unexpected {:?}", other),
    }

    Broker2::handle_private_event(msg(SERVER_CONN, BrokerMessage::AuthorizeClient { client_id: 1 }), &mut state);
    assert!(!state.is_unauthenticated(1));
    let (servers, _, _) = route(Broker2::handle_public_event(
        msg(CLIENT_CONN, BrokerMessage::Publish { topic: input_topic(), payload: Bytes::from_static(b"move") }),
        &mut state,
    ));
    assert_eq!(servers, vec![SERVER_CONN]);

    let world = Broker2::handle_public_event(
        msg(CLIENT_CONN, BrokerMessage::Publish { topic: world_topic(), payload: Bytes::from_static(b"x") }),
        &mut state,
    );
    assert!(world.is_none());
}

#[test]
fn servers_subscribe_others_and_broadcast() {
    let mut state = SharedBrokerState::new();
    Broker2::handle_private_event(NetEvent::Connected { connection: SERVER_CONN }, &mut state);
    Broker2::handle_public_event(NetEvent::Connected { connection: CLIENT_CONN }, &mut state);
    Broker2::handle_private_event(msg(SERVER_CONN, BrokerMessage::Subscribe { client_id: 1, topic: world_topic() }), &mut state);
    Broker2::handle_private_event(msg(SERVER_CONN, BrokerMessage::Subscribe { client_id: 0, topic: world_topic() }), &mut state);
    let (servers, clients, notice) = route(Broker2::handle_private_event(
        msg(SERVER_CONN, BrokerMessage::Publish { topic: world_topic(), payload: Bytes::from_static(b"state") }),
        &mut state,
    ));
    assert_eq!(servers, vec![SERVER_CONN]);
    assert_eq!(clients, vec![CLIENT_CONN]);
    assert!(matches!(notice, Notice::Message(BrokerMessage::Broadcast { .. })));
}

#[test]
fn single_threaded_broker_routes_to_each_audience() {
    let mut broker = Broker::new();
    broker.handle_private_event(NetEvent::Connected { connection: SERVER_CONN });
    broker.handle_private_event(msg(SERVER_CONN, BrokerMessage::Subscribe { client_id: 0, topic: world_topic() }));
    let (servers, clients, _) = route(broker.handle_private_event(
        msg(SERVER_CONN, BrokerMessage::Publish { topic: world_topic(), payload: Bytes::from_static(b"s") }),
    ));
    assert_eq!(servers, vec![SERVER_CONN]);
    assert!(clients.is_empty());

    let mut state = SharedBrokerState::new();
    Broker2::handle_private_event(NetEvent::Connected { connection: SERVER_CONN }, &mut state);
    Broker2::handle_private_event(msg(SERVER_CONN, BrokerMessage::Subscribe { client_id: 0, topic: world_topic() }), &mut state);
    let r = route_message(&state, Notice::NodeDisconnected(3), world_topic(), reliable());
    assert_eq!(r.servers, vec![SERVER_CONN]);
    assert!(r.clients.is_empty());
}

#[test]
fn kick_disconnects_known_nodes_only() {
    let mut state = SharedBrokerState::new();
    Broker2::handle_private_event(NetEvent::Connected { connection: SERVER_CONN }, &mut state);
    Broker2::handle_public_event(NetEvent::Connected { connection: CLIENT_CONN }, &mut state);
    match Broker2::handle_private_event(msg(SERVER_CONN, BrokerMessage::KickNode { client_id: 1 }), &mut state) {
        Some(BrokerAction::Disconnect { interface, connection }) => {
            assert_eq!(interface, NetworkInterface::Public);
            assert_eq!(connection, CLIENT_CONN);
        }
        other => panic!("unexpected {:?}", other),
    }
    match Broker2::handle_private_event(msg(SERVER_CONN, BrokerMessage::KickNode { client_id: 0x8000_0000 }), &mut state) {
        Some(BrokerAction::Disconnect { interface, connection }) => {
            assert_eq!(interface, NetworkInterface::Private);
            assert_eq!(connection, SERVER_CONN);
        }
        other => panic!("unexpected {:?}", other),
    }
    assert!(Broker2::handle_private_event(msg(SERVER_CONN, BrokerMessage::KickNode { client_id: 99 }), &mut state).is_none());
}

#[test]
fn disconnect_drops_subscriptions_and_tells_servers() {
    let mut state = SharedBrokerState::new();
    Broker2::handle_private_event(NetEvent::Connected { connection: SERVER_CONN }, &mut state);
    Broker2::handle_public_event(NetEvent::Connected { connection: CLIENT_CONN }, &mut state);
    let server = state.node_of(SERVER_CONN).unwrap();
    let client_auth = TopicBuilder::new(SecurityDomain::PrivateRW, Namespace::ClientAuth).build();
    state.node_subscribe(server, client_auth);
    Broker2::handle_public_event(msg(CLIENT_CONN, BrokerMessage::Subscribe { client_id: 0, topic: world_topic() }), &mut state);

    let (servers, clients, notice) = route(Broker2::handle_public_event(
        NetEvent::Disconnected { connection: CLIENT_CONN },
        &mut state,
    ));
    assert_eq!(servers, vec![SERVER_CONN]);
    assert!(clients.is_empty());
    assert!(matches!(notice, Notice::NodeDisconnected(1)));
    assert_eq!(state.node_of(CLIENT_CONN), None);
    assert!(!state.has_subscribers(&world_topic(), false));
    assert_eq!(state.connection_of(1), None);
    assert!(!state.is_unauthenticated(1));
    assert!(Broker2::handle_public_event(NetEvent::Disconnected { connection: CLIENT_CONN }, &mut state).is_none());
}

#[test]
fn subscribing_twice_then_unsubscribing_leaves_nothing() {
    let mut state = SharedBrokerState::new();
    state.node_subscribe(5, world_topic());
    state.node_subscribe(5, world_topic());
    assert_eq!(state.subscriber_connections(&world_topic(), false).len(), 0);
    assert!(state.has_subscribers(&world_topic(), false));
    state.node_unsubscribe(5, world_topic());
    assert!(!state.has_subscribers(&world_topic(), false));
}

#[test]
fn batch_subscription_follows_the_pattern() {
    let mut state = SharedBrokerState::new();
    Broker2::handle_private_event(NetEvent::Connected { connection: SERVER_CONN }, &mut state);
    let server = state.node_of(SERVER_CONN).unwrap();
    let pattern = TopicPattern::new()
        .with_head(Namespace::Chunk, SecurityDomain::PublicReadPrivateWrite)
        .with_range(0u8..=2u8);
    let r = handle_private_request(
        &mut state,
        server,
        reliable(),
        NodeRequest::BatchSubscribe { client_id: 0, pattern: pattern.clone() },
    );
    assert!(r.is_none());
    let mut topics = Vec::new();
    pattern.unpack_into(&mut topics);
    for t in &topics {
        assert_eq!(state.subscriber_connections(t, true), vec![SERVER_CONN]);
    }
    handle_private_request(
        &mut state,
        server,
        reliable(),
        NodeRequest::BatchUnsubscribe { client_id: 0, pattern },
    );
    for t in &topics {
        assert!(!state.has_subscribers(t, true));
    }
}

#[test]
fn malformed_and_unknown_messages_change_nothing() {
    let mut state = SharedBrokerState::new();
    Broker2::handle_public_event(NetEvent::Connected { connection: CLIENT_CONN }, &mut state);
    let r = Broker2::handle_public_event(
        NetEvent::Message { connection: CLIENT_CONN, stream: reliable(), data: Bytes::from_static(&[0x77]) },
        &mut state,
    );
    assert!(r.is_none());
    let r = Broker2::handle_public_event(
        NetEvent::Message { connection: 0xabc, stream: reliable(), data: BrokerMessage::Welcome { node_id: 1 }.serialize() },
        &mut state,
    );
    assert!(r.is_none());
    assert!(Broker2::handle_public_event(NetEvent::Other, &mut state).is_none());
}

#[test]
fn batch_requests_arrive_over_the_wire() {
    let mut state = SharedBrokerState::new();
    Broker2::handle_private_event(NetEvent::Connected { connection: SERVER_CONN }, &mut state);
    let pattern = TopicPattern::new()
        .with_head(Namespace::Chunk, SecurityDomain::PublicReadPrivateWrite)
        .with_range(0u8..=2u8);
    let data = NodeRequest::BatchSubscribe { client_id: 0, pattern: pattern.clone() }.serialize();
    assert_eq!(data[0], 0x09);
    assert_eq!(&data[1..5], &[0, 0, 0, 0]);
    let r = Broker2::handle_private_event(
        NetEvent::Message { connection: SERVER_CONN, stream: reliable(), data },
        &mut state,
    );
    assert!(r.is_none());
    let mut topics = Vec::new();
    pattern.unpack_into(&mut topics);
    assert_eq!(topics.len(), 3);
    for t in &topics {
        assert_eq!(state.subscriber_connections(t, true), vec![SERVER_CONN]);
    }
    let data = NodeRequest::BatchUnsubscribe { client_id: 0, pattern }.serialize();
    assert_eq!(data[0], 0x0A);
    Broker2::handle_private_event(NetEvent::Message { connection: SERVER_CONN, stream: reliable(), data }, &mut state);
    for t in &topics {
        assert!(!state.has_subscribers(t, true));
    }
}

#[test]
fn truncated_batch_requests_are_refused() {
    let pattern = TopicPattern::new().with_range(0u8..=2u8);
    let full = NodeRequest::BatchSubscribe { client_id: 7, pattern }.serialize();
    assert!(NodeRequest::deserialize(Bytes::copy_from_slice(&full[..3])).is_err());
    // The layer count says one layer, but no layer follows.
    assert!(NodeRequest::deserialize(Bytes::copy_from_slice(&full[..6])).is_err());
    match NodeRequest::deserialize(full) {
        Ok(NodeRequest::BatchSubscribe { client_id, pattern }) => {
            assert_eq!(client_id, 7);
            assert_eq!(pattern.0.len(), 1);
        }
        other => panic!("unexpected {:?}", other),
    }
    let mut empty = Bytes::from_static(&[1]);
    assert!(TopicPattern::try_deserialize(&mut empty).is_none());
    assert_eq!(empty.len(), 1);
}

#[test]
fn server_ids_count_up_from_the_first_server_id() {
    let mut state = SharedBrokerState::new();
    let ids: Vec<u32> = (0..3).map(|_| state.generate_server_id()).collect();
    assert_eq!(ids, vec![0x8000_0000, 0x8000_0001, 0x8000_0002]);
    assert!(ids.iter().all(|id| id.is_server() && !id.is_client()));
}
