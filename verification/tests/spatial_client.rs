use bytes::Bytes;
use mmo_replication::broker::broker_core::StreamInfo;
use mmo_replication::broker_protocol::topics::{Namespace, SecurityDomain, TopicBuilder};
use mmo_replication::core_types::chunks::GameChunk;
use mmo_replication::shared_replication::broker_client::{
    ClientNetworkEvent, MmoNetworkClient, Outgoing, PeerEvent, PollStep,
};
use mmo_replication::shared_replication::broker_message::BrokerMessage;
use mmo_replication::shared_replication::msg_client_server::{ClientHelloMsg, ClientWelcomeMsg};
use mmo_replication::shared_replication::msg_dgs::{SpawnClientMsg, TakeChunkMessage};
use mmo_replication::shared_replication::msg_game_payload::{
    GameMessage, GameMessageHeaders, GamePayload,
};
use mmo_replication::shared_replication::msg_servers::{ServerHelloMSG, ServerType};
use mmo_replication::spatial_auth::SpatialAuthServer;

const CONN: u128 = 0xabcdef;

fn reliable() -> StreamInfo {
    StreamInfo { stream_id: 0, reliable: true }
}

fn connected_client() -> MmoNetworkClient {
    let mut client = MmoNetworkClient::new();
    let step = client.on_peer_event(PeerEvent::Connected { connection: CONN });
    assert!(matches!(step, PollStep::Report(ClientNetworkEvent::Connected)));
    client
}

fn message_event(m: BrokerMessage) -> PeerEvent {
    PeerEvent::Message { stream: reliable(), data: m.serialize() }
}

/// A publication of `payload` (header byte and message) on `topic`.
fn publication(topic: [u8; 16], header: u8, body: &[u8]) -> Vec<u8> {
    let mut payload = vec![header];
    payload.extend_from_slice(body);
    BrokerMessage::Publish { topic, payload: Bytes::from(payload) }.serialize().to_vec()
}

fn data_event(client_id: u32, header: GameMessageHeaders, body: Bytes) -> ClientNetworkEvent {
    ClientNetworkEvent::DataReceived {
        client_id,
        stream: reliable(),
        payload: GamePayload { header, data: body },
    }
}

fn sent(o: &Outgoing) -> Vec<u8> {
    assert_eq!(o.connection, CONN);
    assert_eq!(o.stream.stream_id, 0);
    assert!(o.stream.reliable);
    o.data.to_vec()
}

#[test]
fn new_client_has_no_connection() {
    let client = MmoNetworkClient::new();
    assert!(!client.is_connected());
    assert_eq!(client.node_id, None);
    assert!(client.authorize_client(3).is_none());
    assert!(client.subscribe([0u8; 16], 0).is_none());
}

#[test]
fn welcome_makes_the_client_ready_once() {
    let mut client = connected_client();
    assert!(client.is_connected());
    let step = client.on_peer_event(message_event(BrokerMessage::Welcome { node_id: 42 }));
    assert!(matches!(step, PollStep::Report(ClientNetworkEvent::Ready)));
    assert_eq!(client.node_id, Some(42));
    let again = client.on_peer_event(message_event(BrokerMessage::Welcome { node_id: 7 }));
    assert!(matches!(again, PollStep::Skip));
    assert_eq!(client.node_id, Some(42));
}

#[test]
fn broadcast_becomes_a_game_message() {
    let mut client = connected_client();
    let payload = Bytes::from(vec![0x0F, 0x02, 5, 0, 0, 0]);
    let step = client.on_peer_event(message_event(BrokerMessage::Broadcast { payload }));
    match step {
        PollStep::Report(ClientNetworkEvent::DataReceived { client_id, payload, .. }) => {
            assert_eq!(client_id, 0);
            assert_eq!(payload.header, GameMessageHeaders::FriendHello);
            assert_eq!(payload.data.to_vec(), vec![0x02, 5, 0, 0, 0]);
        },
        other => panic!("unexpected {:?}", other),
    }
}

#[test]
fn broadcast_from_keeps_the_sender_and_empty_is_skipped() {
    let mut client = connected_client();
    let from = BrokerMessage::BroadCastFrom { client_id: 9, payload: Bytes::from(vec![0x05, 1, 2]) };
    match client.on_peer_event(message_event(from)) {
        PollStep::Report(ClientNetworkEvent::DataReceived { client_id, payload, .. }) => {
            assert_eq!(client_id, 9);
            assert_eq!(payload.header, GameMessageHeaders::ClientInput);
            assert_eq!(payload.data.to_vec(), vec![1, 2]);
        },
        other => panic!("unexpected {:?}", other),
    }
    let empty = BrokerMessage::Broadcast { payload: Bytes::new() };
    assert!(matches!(client.on_peer_event(message_event(empty)), PollStep::Skip));
    let garbage = PeerEvent::Message { stream: reliable(), data: Bytes::from(vec![0xEE]) };
    assert!(matches!(client.on_peer_event(garbage), PollStep::Skip));
    assert!(matches!(client.on_peer_event(PeerEvent::StreamCreated), PollStep::Skip));
}

#[test]
fn losing_the_connection_forgets_the_id() {
    let mut client = connected_client();
    client.on_peer_event(message_event(BrokerMessage::Welcome { node_id: 5 }));
    let step = client.on_peer_event(PeerEvent::ConnectionError);
    assert!(matches!(step, PollStep::Report(ClientNetworkEvent::Disconnected)));
    assert!(!client.is_connected());
    assert_eq!(client.node_id, None);
}

#[test]
fn requests_carry_the_broker_messages() {
    let client = connected_client();
    let topic = TopicBuilder::new(SecurityDomain::PrivateRW, Namespace::Chunk).append_id(3).build();
    let sub = client.subscribe(topic, 11).unwrap();
    assert_eq!(sent(&sub), BrokerMessage::Subscribe { client_id: 11, topic }.serialize().to_vec());
    let kick = client.kick_client(4).unwrap();
    assert_eq!(sent(&kick), vec![0x07, 4, 0, 0, 0]);
    let auth = client.authorize_client(4).unwrap();
    assert_eq!(sent(&auth), vec![0x06, 4, 0, 0, 0]);
    let unsub = client.unsubscribe(topic, 11).unwrap();
    assert_eq!(sent(&unsub), BrokerMessage::Unsubscribe { client_id: 11, topic }.serialize().to_vec());
}

#[test]
fn publications_frame_the_game_message() {
    let client = connected_client();
    let topic = [9u8; 16];
    let msg = TakeChunkMessage { chunk_x: 1, chunk_y: 2 };
    let o = client.publish_reliable(topic, &msg).unwrap();
    let bytes = sent(&o);
    let mut expected = vec![0x03];
    expected.extend_from_slice(&topic);
    expected.extend_from_slice(&[9, 0, 0x10, 1, 0, 0, 0, 2, 0, 0, 0]);
    assert_eq!(bytes, expected);
    let u = client.publish_unreliable(topic, &msg).unwrap();
    assert!(!u.stream.reliable);
    assert_eq!(u.data.to_vec(), expected);
}

fn ready_server() -> (SpatialAuthServer, MmoNetworkClient) {
    let mut client = connected_client();
    client.on_peer_event(message_event(BrokerMessage::Welcome { node_id: 1 }));
    (SpatialAuthServer::new(), client)
}

fn server_hello(kind: ServerType, id: u32) -> ClientNetworkEvent {
    let body = ServerHelloMSG { server_type: kind, id }.serialize();
    data_event(0, GameMessageHeaders::FriendHello, body)
}

fn client_hello(client_id: u32, pseudo: &str) -> ClientNetworkEvent {
    let body = ClientHelloMsg { pseudo: pseudo.to_string() }.serialize();
    data_event(client_id, GameMessageHeaders::ClientHello, body)
}

#[test]
fn spatial_subscribes_when_ready() {
    let (mut server, client) = ready_server();
    let r = server.handle_event(&client, ClientNetworkEvent::Ready);
    assert!(!r.reconnect);
    assert_eq!(r.sends.len(), 2);
    let private = TopicBuilder::new(SecurityDomain::PrivateRW, Namespace::ServerConnection).build();
    let public = TopicBuilder::new(SecurityDomain::PrivateReadPublicWrite, Namespace::ClientAuth).build();
    assert_eq!(sent(&r.sends[0]), BrokerMessage::Subscribe { client_id: 0, topic: private }.serialize().to_vec());
    assert_eq!(sent(&r.sends[1]), BrokerMessage::Subscribe { client_id: 0, topic: public }.serialize().to_vec());
}

#[test]
fn spatial_reconnects_on_disconnect() {
    let (mut server, client) = ready_server();
    let r = server.handle_event(&client, ClientNetworkEvent::Disconnected);
    assert!(r.reconnect);
    assert!(r.sends.is_empty());
    let c = server.handle_event(&client, ClientNetworkEvent::Connected);
    assert!(!c.reconnect);
    assert!(c.sends.is_empty());
}

#[test]
fn first_game_server_takes_chunk_zero() {
    let (mut server, client) = ready_server();
    let r = server.handle_event(&client, server_hello(ServerType::Server, 77));
    assert_eq!(r.sends.len(), 1);
    let topic = TopicBuilder::new(SecurityDomain::PrivateRW, Namespace::NodeLine).append_id(77).build();
    let take = TakeChunkMessage { chunk_x: 0, chunk_y: 0 }.serialize().to_vec();
    assert_eq!(sent(&r.sends[0]), publication(topic, 0x10, &take));
    let second = server.handle_event(&client, server_hello(ServerType::Server, 78));
    assert!(second.sends.is_empty());
    let other = server.handle_event(&client, server_hello(ServerType::Orchestrator, 79));
    assert!(other.sends.is_empty());
}

#[test]
fn player_is_admitted_and_spawned_on_the_first_server() {
    let (mut server, client) = ready_server();
    server.handle_event(&client, server_hello(ServerType::Server, 77));
    let r = server.handle_event(&client, client_hello(12, "bob"));
    assert!(!r.reconnect);
    assert_eq!(r.sends.len(), 4);
    assert_eq!(sent(&r.sends[0]), BrokerMessage::AuthorizeClient { client_id: 12 }.serialize().to_vec());
    let chunk = TopicBuilder::new(SecurityDomain::PublicReadPrivateWrite, Namespace::Chunk)
        .append_chunk(&GameChunk { x: 0, y: 0 })
        .build();
    assert_eq!(sent(&r.sends[1]), BrokerMessage::Subscribe { client_id: 12, topic: chunk }.serialize().to_vec());
    let server_topic = TopicBuilder::new(SecurityDomain::PrivateRW, Namespace::NodeLine).append_id(77).build();
    let spawn = SpawnClientMsg { client_id: 12, pseudo: "bob".to_string(), chunk_x: 0, chunk_y: 0 };
    assert_eq!(sent(&r.sends[2]), publication(server_topic, 0x07, &spawn.serialize().to_vec()));
    let client_topic = TopicBuilder::new(SecurityDomain::PublicReadPrivateWrite, Namespace::NodeLine)
        .append_id(12)
        .build();
    let welcome = ClientWelcomeMsg { client_id: 12, chunk_x: 0, chunk_y: 0 };
    assert_eq!(sent(&r.sends[3]), publication(client_topic, 0x08, &welcome.serialize().to_vec()));
}

#[test]
fn player_without_game_server_is_only_authorized() {
    let (mut server, client) = ready_server();
    let r = server.handle_event(&client, client_hello(12, "amy"));
    assert_eq!(r.sends.len(), 2);
    assert_eq!(sent(&r.sends[0]), vec![0x06, 12, 0, 0, 0]);
}

#[test]
fn malformed_hello_is_ignored() {
    let (mut server, client) = ready_server();
    let bad = data_event(12, GameMessageHeaders::ClientHello, Bytes::from(vec![9, 0, b'x']));
    let r = server.handle_event(&client, bad);
    assert!(r.sends.is_empty());
    let other = data_event(12, GameMessageHeaders::Snapshot, Bytes::from(vec![1, 2, 3]));
    assert!(server.handle_event(&client, other).sends.is_empty());
}
