//! The broker scenarios played in memory: nodes are broker clients whose
//! requests go to the broker as network events, and whose inboxes receive
//! what the broker sends.

use bytes::{BufMut, Bytes, BytesMut};
use mmo_replication::broker::broker_core::{
    Broker, Broker2, BrokerAction, NetEvent, Notice, StreamInfo,
};
use mmo_replication::broker::broker_state::{NetworkInterface, SharedBrokerState};
use mmo_replication::broker_protocol::topic_patterns::TopicPattern;
use mmo_replication::broker_protocol::topics::{Namespace, SecurityDomain, TopicBuilder};
use mmo_replication::shared_replication::broker_client::{
    ClientNetworkEvent, MmoNetworkClient, Outgoing, PeerEvent, PollStep,
};
use mmo_replication::shared_replication::broker_message::{BrokerMessage, NodeId, NodeIdMetaData};
use std::collections::VecDeque;

/// The bytes of the scenarios' test message: a catch-all header byte and a
/// big-endian number.
fn dummy_payload(payload: u32) -> Bytes {
    let mut buf = BytesMut::new();
    buf.put_u8(0x11);
    buf.put_u32(payload);
    buf.freeze()
}

/// A broker under test: the single-threaded one or the worker-pool one.
trait BrokerUnderTest {
    fn public(&mut self, event: NetEvent) -> Option<BrokerAction>;
    fn private(&mut self, event: NetEvent) -> Option<BrokerAction>;
}

impl BrokerUnderTest for Broker {
    fn public(&mut self, event: NetEvent) -> Option<BrokerAction> {
        self.handle_public_event(event)
    }
    fn private(&mut self, event: NetEvent) -> Option<BrokerAction> {
        self.handle_private_event(event)
    }
}

struct Pool {
    state: SharedBrokerState,
}

impl BrokerUnderTest for Pool {
    fn public(&mut self, event: NetEvent) -> Option<BrokerAction> {
        Broker2::handle_public_event(event, &mut self.state)
    }
    fn private(&mut self, event: NetEvent) -> Option<BrokerAction> {
        Broker2::handle_private_event(event, &mut self.state)
    }
}

struct Node {
    client: MmoNetworkClient,
    interface: NetworkInterface,
    connection: u128,
    inbox: VecDeque<PeerEvent>,
}

struct Net<B: BrokerUnderTest> {
    broker: B,
    nodes: Vec<Node>,
}

impl<B: BrokerUnderTest> Net<B> {
    fn new(broker: B) -> Self {
        Net { broker, nodes: Vec::new() }
    }

    fn event(&mut self, interface: NetworkInterface, event: NetEvent) {
        let action = match interface {
            NetworkInterface::Public => self.broker.public(event),
            NetworkInterface::Private => self.broker.private(event),
        };
        self.perform(action);
    }

    fn deliver(&mut self, interface: NetworkInterface, connection: u128, event: PeerEvent) {
        for node in &mut self.nodes {
            if node.interface == interface && node.connection == connection {
                node.inbox.push_back(event);
                return;
            }
        }
    }

    fn perform(&mut self, action: Option<BrokerAction>) {
        match action {
            None => {}
            Some(BrokerAction::Send { interface, connection, stream, message }) => {
                self.deliver(interface, connection, PeerEvent::Message { stream, data: message.serialize() });
            }
            Some(BrokerAction::Disconnect { interface, connection }) => {
                self.deliver(interface, connection, PeerEvent::Disconnected);
            }
            Some(BrokerAction::Route(route)) => {
                let data = match route.notice {
                    Notice::Message(m) => m.serialize(),
                    Notice::NodeDisconnected(_) => return,
                };
                for connection in route.servers {
                    self.deliver(NetworkInterface::Private, connection, PeerEvent::Message { stream: route.stream, data: data.clone() });
                }
                for connection in route.clients {
                    self.deliver(NetworkInterface::Public, connection, PeerEvent::Message { stream: route.stream, data: data.clone() });
                }
            }
        }
    }

    /// A node connects and opens the reliable broker stream.
    fn connect(&mut self, interface: NetworkInterface) -> usize {
        let connection = 0x1000 + self.nodes.len() as u128;
        let mut client = MmoNetworkClient::new();
        client.on_peer_event(PeerEvent::Connected { connection });
        self.nodes.push(Node { client, interface, connection, inbox: VecDeque::new() });
        self.event(interface, NetEvent::Connected { connection });
        self.event(
            interface,
            NetEvent::StreamCreated { connection, stream: StreamInfo { stream_id: 0, reliable: true } },
        );
        self.nodes.len() - 1
    }

    fn send(&mut self, node: usize, out: Option<Outgoing>) {
        let out = out.expect("the node is connected");
        let interface = self.nodes[node].interface;
        self.event(interface, NetEvent::Message { connection: out.connection, stream: out.stream, data: out.data });
    }

    fn poll(&mut self, node: usize) -> Option<ClientNetworkEvent> {
        let n = &mut self.nodes[node];
        while let Some(event) = n.inbox.pop_front() {
            if let PollStep::Report(e) = n.client.on_peer_event(event) {
                return Some(e);
            }
        }
        None
    }

    fn node_id(&self, node: usize) -> NodeId {
        self.nodes[node].client.node_id.unwrap()
    }

    /// The node publishes the test message on `topic`.
    fn publish_dummy(&mut self, node: usize, topic: [u8; 16], payload: u32, reliable: bool) {
        let n = &self.nodes[node];
        let data = BrokerMessage::Publish { topic, payload: dummy_payload(payload) }.serialize();
        let stream = StreamInfo { stream_id: 0, reliable };
        let out = Outgoing { connection: n.connection, stream, data };
        self.send(node, Some(out));
    }

    fn batch(&mut self, node: usize, pattern: TopicPattern, subscribe: bool) {
        let client = &self.nodes[node].client;
        let out = if subscribe { client.batch_subscribe(pattern, 0) } else { client.batch_unsubscribe(pattern, 0) };
        self.send(node, out);
    }
}

fn validation_suite<B: BrokerUnderTest>(broker: B) {
    let mut net = Net::new(broker);
    let joueur = net.connect(NetworkInterface::Public);
    let shard = net.connect(NetworkInterface::Private);

    assert!(matches!(net.poll(joueur), Some(ClientNetworkEvent::Ready)), "Le broker n'a pas envoyé le Welcome au Joueur");
    assert!(net.nodes[joueur].client.node_id.is_some(), "Le joueur doit avoir un NodeId");
    assert!(matches!(net.poll(shard), Some(ClientNetworkEvent::Ready)), "Le broker n'a pas envoyé le Welcome au Shard");
    assert!(net.node_id(shard).is_server(), "Le Shard doit avoir un ID Serveur");

    let joueur_id = net.node_id(joueur);
    let test_topic = TopicBuilder::new(SecurityDomain::PrivateReadPublicWrite, Namespace::SpatialInput)
        .append_id(joueur_id)
        .build();
    let sub = net.nodes[shard].client.subscribe(test_topic, 0);
    net.send(shard, sub);
    let auth = net.nodes[shard].client.authorize_client(joueur_id);
    net.send(shard, auth);
    net.publish_dummy(joueur, test_topic, 42, false);

    match net.poll(shard) {
        Some(ClientNetworkEvent::DataReceived { client_id, .. }) => {
            assert_eq!(client_id, joueur_id, "L'identité de l'expéditeur a été perdue en route");
        }
        other => panic!("Le routage du message a échoué: {:?}", other),
    }
}

fn chunk_topic(x: i16, y: i16) -> [u8; 16] {
    TopicBuilder::new(SecurityDomain::PrivateReadPublicWrite, Namespace::Chunk)
        .append(&x.to_le_bytes())
        .append(&y.to_le_bytes())
        .build()
}

fn batch_suite<B: BrokerUnderTest>(broker: B) {
    let mut net = Net::new(broker);
    let joueur = net.connect(NetworkInterface::Public);
    let shard = net.connect(NetworkInterface::Private);
    assert!(matches!(net.poll(joueur), Some(ClientNetworkEvent::Ready)));
    assert!(matches!(net.poll(shard), Some(ClientNetworkEvent::Ready)));

    let joueur_id = net.node_id(joueur);
    let auth = net.nodes[shard].client.authorize_client(joueur_id);
    net.send(shard, auth);

    let pattern = TopicPattern::new()
        .with_head(Namespace::Chunk, SecurityDomain::PrivateReadPublicWrite)
        .with_range(0i16..=1i16)
        .with_range(0i16..=1i16);
    net.batch(shard, pattern.clone(), true);

    net.publish_dummy(joueur, chunk_topic(1, 0), 1, true);
    assert!(
        matches!(net.poll(shard), Some(ClientNetworkEvent::DataReceived { .. })),
        "Le Shard aurait dû recevoir le message du Chunk (1,0)"
    );

    net.publish_dummy(joueur, chunk_topic(2, 0), 2, true);
    assert!(
        net.poll(shard).is_none(),
        "SÉCURITÉ: Le Shard a reçu un message du Chunk (2,0) auquel il n'est pas abonné"
    );

    net.batch(shard, pattern, false);
    net.publish_dummy(joueur, chunk_topic(1, 0), 3, true);
    assert!(net.poll(shard).is_none(), "FUITE: Le Shard a encore reçu le message après le BatchUnsubscribe");
}

#[test]
fn test_legacy_broker_parity() {
    validation_suite(Broker::new());
}

#[test]
fn test_async_broker2_parity() {
    validation_suite(Pool { state: SharedBrokerState::new() });
}

#[test]
fn test_broker_batch() {
    batch_suite(Broker::new());
}

#[test]
fn test_broker2_batch() {
    batch_suite(Pool { state: SharedBrokerState::new() });
}

