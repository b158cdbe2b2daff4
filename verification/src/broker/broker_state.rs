//! The broker's routing tables: which connection belongs to which node, which
//! nodes listen to which topic, and which clients are not yet authorized.
use crate::broker_protocol::topics::{head_byte, Namespace, SecurityDomain, Topic, TopicBuilder};
use crate::collections::{
    lemma_swap_remove_no_duplicates, seq_insert, seq_swap_remove, FastIterableSet, FastMap,
    KeyEq,
};
use crate::shared_replication::broker_message::{
    spec_is_client, spec_is_server, NodeId, NodeIdMetaData, FIRST_CLIENT_ID, FIRST_SERVER_ID,
};
use vstd::bytes::spec_u32_to_le_bytes;
use vstd::prelude::*;

verus! {

/// The side of the broker an event came in on: clients connect to the public
/// interface, game servers to the private one.
#[derive(Debug, Clone, Copy, PartialEq, Eq, Structural)]
pub enum NetworkInterface {
    Public,
    Private,
}

/// The routing tables seen as mathematical maps.  A connection is known by
/// its uuid.
pub ghost struct BrokerView {
    pub nodes: Map<u128, NodeId>,
    pub clients: Map<NodeId, u128>,
    pub servers: Map<NodeId, u128>,
    pub unauthenticated: Set<NodeId>,
    pub client_subscribers: Map<Topic, Seq<NodeId>>,
    pub server_subscribers: Map<Topic, Seq<NodeId>>,
    pub topics_of: Map<NodeId, Seq<Topic>>,
    pub next_client_id: NodeId,
    pub next_server_id: NodeId,
}

/// The members of the set stored under `k`, or none.
pub open spec fn members<K, X>(m: Map<K, Seq<X>>, k: K) -> Seq<X> {
    if m.contains_key(k) {
        m[k]
    } else {
        Seq::empty()
    }
}

/// `m` after adding `x` to the set under `k`, the set being made if absent.
pub open spec fn add_member<K, X>(m: Map<K, Seq<X>>, k: K, x: X) -> Map<K, Seq<X>> {
    m.insert(k, seq_insert(members(m, k), x))
}

/// `m` after removing `x` from the set under `k`; a set left empty is dropped.
pub open spec fn drop_member<K, X>(m: Map<K, Seq<X>>, k: K, x: X) -> Map<K, Seq<X>> {
    if m.contains_key(k) {
        let s = seq_swap_remove(m[k], x);
        if s.len() == 0 {
            m.remove(k)
        } else {
            m.insert(k, s)
        }
    } else {
        m
    }
}

/// Every set of `m` is non-empty and holds no item twice.
pub open spec fn sets_wf<K, X>(m: Map<K, Seq<X>>) -> bool {
    forall|k: K| #[trigger] m.contains_key(k) ==> m[k].no_duplicates() && m[k].len() > 0
}

/// The subscriber table that a node belongs to: servers and clients are kept
/// apart.
pub open spec fn subscribers_of(v: BrokerView, node: NodeId) -> Map<Topic, Seq<NodeId>> {
    if spec_is_server(node) {
        v.server_subscribers
    } else {
        v.client_subscribers
    }
}

/// Whether `node` listens to `topic`.
pub open spec fn is_subscribed(v: BrokerView, node: NodeId, topic: Topic) -> bool {
    members(subscribers_of(v, node), topic).contains(node)
}

/// The tables agree: every subscription is recorded both under the topic and
/// under the node, each node in the table of its kind, and no set is empty or
/// holds an item twice.
pub open spec fn routing_consistent(v: BrokerView) -> bool {
    &&& sets_wf(v.client_subscribers)
    &&& sets_wf(v.server_subscribers)
    &&& sets_wf(v.topics_of)
    &&& forall|t: Topic, n: NodeId|
        #[trigger] members(v.client_subscribers, t).contains(n) ==> !spec_is_server(n)
            && members(v.topics_of, n).contains(t)
    &&& forall|t: Topic, n: NodeId|
        #[trigger] members(v.server_subscribers, t).contains(n) ==> spec_is_server(n)
            && members(v.topics_of, n).contains(t)
    &&& forall|n: NodeId, t: Topic|
        #[trigger] members(v.topics_of, n).contains(t) ==> is_subscribed(v, n, t)
}

/// The tables after `node` subscribes to `topic`.
pub open spec fn spec_subscribe(v: BrokerView, node: NodeId, topic: Topic) -> BrokerView {
    if spec_is_server(node) {
        BrokerView {
            server_subscribers: add_member(v.server_subscribers, topic, node),
            topics_of: add_member(v.topics_of, node, topic),
            ..v
        }
    } else {
        BrokerView {
            client_subscribers: add_member(v.client_subscribers, topic, node),
            topics_of: add_member(v.topics_of, node, topic),
            ..v
        }
    }
}

/// The tables after `node` unsubscribes from `topic`.
pub open spec fn spec_unsubscribe(v: BrokerView, node: NodeId, topic: Topic) -> BrokerView {
    if spec_is_server(node) {
        BrokerView {
            server_subscribers: drop_member(v.server_subscribers, topic, node),
            topics_of: drop_member(v.topics_of, node, topic),
            ..v
        }
    } else {
        BrokerView {
            client_subscribers: drop_member(v.client_subscribers, topic, node),
            topics_of: drop_member(v.topics_of, node, topic),
            ..v
        }
    }
}

/// The tables after `node` subscribes to each of `topics` in turn.
pub open spec fn subscribe_all(v: BrokerView, node: NodeId, topics: Seq<Topic>) -> BrokerView
    decreases topics.len(),
{
    if topics.len() == 0 {
        v
    } else {
        spec_subscribe(subscribe_all(v, node, topics.drop_last()), node, topics.last())
    }
}

/// The tables after `node` unsubscribes from each of `topics` in turn.
pub open spec fn unsubscribe_all(v: BrokerView, node: NodeId, topics: Seq<Topic>) -> BrokerView
    decreases topics.len(),
{
    if topics.len() == 0 {
        v
    } else {
        spec_unsubscribe(unsubscribe_all(v, node, topics.drop_last()), node, topics.last())
    }
}

/// The topic whose bytes are `bytes`.
pub open spec fn topic_from(bytes: Seq<u8>) -> Topic {
    choose|t: Topic| t@ == bytes
}

/// The direct line of node `id` in `domain`: head byte, then the id on four
/// little-endian bytes, then zeros.
pub open spec fn node_line_topic(domain: SecurityDomain, id: NodeId) -> Seq<u8> {
    seq![head_byte(domain, Namespace::NodeLine)] + spec_u32_to_le_bytes(id) + Seq::new(
        11,
        |i: int| 0u8,
    )
}

/// The topic on which the broker tells servers that a node of `namespace`'s
/// kind went away: only the head byte is set.
pub open spec fn system_topic(namespace: Namespace) -> Seq<u8> {
    seq![head_byte(SecurityDomain::PrivateRW, namespace)] + Seq::new(15, |i: int| 0u8)
}

/// The tables after a client connects on `connection`: it gets the next
/// client id, is not yet authorized, and listens to its direct line.
pub open spec fn spec_connect_client(v: BrokerView, connection: u128) -> BrokerView {
    let id = v.next_client_id;
    let v1 = BrokerView {
        nodes: v.nodes.insert(connection, id),
        clients: v.clients.insert(id, connection),
        unauthenticated: v.unauthenticated.insert(id),
        next_client_id: id.wrapping_add(1),
        ..v
    };
    spec_subscribe(
        v1,
        id,
        topic_from(node_line_topic(SecurityDomain::PublicReadPrivateWrite, id)),
    )
}

/// The tables after a server connects on `connection`: it gets the next
/// server id and listens to its direct lines for clients and for servers.
pub open spec fn spec_connect_server(v: BrokerView, connection: u128) -> BrokerView {
    let id = v.next_server_id;
    let v1 = BrokerView {
        nodes: v.nodes.insert(connection, id),
        servers: v.servers.insert(id, connection),
        next_server_id: id.wrapping_add(1),
        ..v
    };
    spec_subscribe(
        spec_subscribe(
            v1,
            id,
            topic_from(node_line_topic(SecurityDomain::PrivateReadPublicWrite, id)),
        ),
        id,
        topic_from(node_line_topic(SecurityDomain::PrivateRW, id)),
    )
}

/// The tables after the connection `connection` goes away: its node loses
/// its id, its subscriptions, its connection and its pending authorization.
pub open spec fn spec_disconnect(v: BrokerView, connection: u128) -> BrokerView {
    if v.nodes.contains_key(connection) {
        let n = v.nodes[connection];
        let v1 = BrokerView {
            nodes: v.nodes.remove(connection),
            topics_of: v.topics_of.remove(n),
            ..v
        };
        let v2 = unsubscribe_all(v1, n, members(v.topics_of, n));
        if spec_is_server(n) {
            BrokerView { servers: v2.servers.remove(n), ..v2 }
        } else {
            BrokerView {
                clients: v2.clients.remove(n),
                unauthenticated: v2.unauthenticated.remove(n),
                ..v2
            }
        }
    } else {
        v
    }
}

/// The connections of the nodes of `subs` that still have one, in the order
/// of `subs`.
pub open spec fn connected_targets(subs: Seq<NodeId>, connections: Map<NodeId, u128>) -> Seq<u128>
    decreases subs.len(),
{
    if subs.len() == 0 {
        Seq::empty()
    } else {
        let rest = connected_targets(subs.drop_last(), connections);
        if connections.contains_key(subs.last()) {
            rest.push(connections[subs.last()])
        } else {
            rest
        }
    }
}

/// The connections that a message on `topic` reaches among servers (or
/// among clients): the connected subscribers of that kind.
pub open spec fn route_targets(v: BrokerView, topic: Topic, servers: bool) -> Seq<u128> {
    if servers {
        connected_targets(members(v.server_subscribers, topic), v.servers)
    } else {
        connected_targets(members(v.client_subscribers, topic), v.clients)
    }
}

/// The state shared by the broker's workers: connections, authorization and
/// subscriptions.
pub struct SharedBrokerState {
    pub log_enabled: bool,
    uuid_to_node_id: FastMap<u128, NodeId>,
    client_connections: FastMap<NodeId, u128>,
    server_connections: FastMap<NodeId, u128>,
    not_authenticated_clients: FastIterableSet<NodeId>,
    client_subscribers: FastMap<Topic, FastIterableSet<NodeId>>,
    server_subscribers: FastMap<Topic, FastIterableSet<NodeId>>,
    node_id_to_topics: FastMap<NodeId, FastIterableSet<Topic>>,
    next_client_id: NodeId,
    next_server_id: NodeId,
}

/// The sets of a table of sets, as sequences.
pub open spec fn set_table_view<K, X>(m: FastMap<K, FastIterableSet<X>>) -> Map<K, Seq<X>> {
    m@.map_values(|s: FastIterableSet<X>| s@)
}

/// A table of sets whose map and sets are well formed.
pub open spec fn set_table_wf<K: KeyEq, X: KeyEq>(m: FastMap<K, FastIterableSet<X>>) -> bool {
    &&& m.wf()
    &&& forall|k: K| #[trigger] m@.contains_key(k) ==> m@[k].wf()
}

/// Adds `x` to the set under `k`, making the set if absent.
fn table_add<K: KeyEq, X: KeyEq>(m: &mut FastMap<K, FastIterableSet<X>>, k: K, x: X)
    requires
        set_table_wf(*old(m)),
    ensures
        set_table_wf(*final(m)),
        set_table_view(*final(m)) == add_member(set_table_view(*old(m)), k, x),
{
    let ghost before = set_table_view(*m);
    let mut set = match m.remove(&k) {
        Some(s) => s,
        None => FastIterableSet::new(),
    };
    assert(set@ == members(before, k));
    set.insert(x);
    m.insert(k, set);
    assert(set_table_view(*m) =~= add_member(before, k, x));
}

/// Removes `x` from the set under `k`; a set left empty is dropped.
fn table_remove<K: KeyEq, X: KeyEq>(m: &mut FastMap<K, FastIterableSet<X>>, k: K, x: X)
    requires
        set_table_wf(*old(m)),
    ensures
        set_table_wf(*final(m)),
        set_table_view(*final(m)) == drop_member(set_table_view(*old(m)), k, x),
{
    let ghost before = set_table_view(*m);
    match m.remove(&k) {
        Some(mut set) => {
            set.swap_remove(&x);
            if set.is_empty() {
                assert(set_table_view(*m) =~= drop_member(before, k, x));
            } else {
                m.insert(k, set);
                assert(set_table_view(*m) =~= drop_member(before, k, x));
            }
        },
        None => {
            assert(set_table_view(*m) =~= drop_member(before, k, x));
        },
    }
}

impl SharedBrokerState {
    /// The tables as maps.
    pub closed spec fn view(&self) -> BrokerView {
        BrokerView {
            nodes: self.uuid_to_node_id@,
            clients: self.client_connections@,
            servers: self.server_connections@,
            unauthenticated: self.not_authenticated_clients@.to_set(),
            client_subscribers: set_table_view(self.client_subscribers),
            server_subscribers: set_table_view(self.server_subscribers),
            topics_of: set_table_view(self.node_id_to_topics),
            next_client_id: self.next_client_id,
            next_server_id: self.next_server_id,
        }
    }

    /// Each table is well formed on its own.
    pub closed spec fn tables_wf(&self) -> bool {
        &&& self.uuid_to_node_id.wf()
        &&& self.client_connections.wf()
        &&& self.server_connections.wf()
        &&& self.not_authenticated_clients.wf()
        &&& set_table_wf(self.client_subscribers)
        &&& set_table_wf(self.server_subscribers)
        &&& set_table_wf(self.node_id_to_topics)
    }

    /// The tables are well formed and agree with each other.
    pub open spec fn wf(&self) -> bool {
        &&& self.tables_wf()
        &&& routing_consistent(self.view())
    }

    /// Empty tables; client ids start at 1 and server ids at 0x8000_0000.
    pub fn new() -> (r: Self)
        ensures
            r.wf(),
            r.view() == (BrokerView {
                nodes: Map::empty(),
                clients: Map::empty(),
                servers: Map::empty(),
                unauthenticated: Set::empty(),
                client_subscribers: Map::empty(),
                server_subscribers: Map::empty(),
                topics_of: Map::empty(),
                next_client_id: FIRST_CLIENT_ID,
                next_server_id: FIRST_SERVER_ID,
            }),
    {
        let r = SharedBrokerState {
            log_enabled: true,
            uuid_to_node_id: FastMap::new(),
            client_connections: FastMap::new(),
            server_connections: FastMap::new(),
            not_authenticated_clients: FastIterableSet::new(),
            client_subscribers: FastMap::new(),
            server_subscribers: FastMap::new(),
            node_id_to_topics: FastMap::new(),
            next_client_id: FIRST_CLIENT_ID,
            next_server_id: FIRST_SERVER_ID,
        };
        assert(r.not_authenticated_clients@.to_set() =~= Set::empty());
        assert(set_table_view(r.client_subscribers) =~= Map::empty());
        assert(set_table_view(r.server_subscribers) =~= Map::empty());
        assert(set_table_view(r.node_id_to_topics) =~= Map::empty());
        r
    }

    /// Whether client ids are left before the counter would wrap around.
    pub fn client_ids_left(&self) -> (r: bool)
        ensures
            r == (self.view().next_client_id < u32::MAX),
    {
        self.next_client_id < u32::MAX
    }

    /// Whether server ids are left before the counter would wrap around.
    pub fn server_ids_left(&self) -> (r: bool)
        ensures
            r == (self.view().next_server_id < u32::MAX),
    {
        self.next_server_id < u32::MAX
    }

    /// Hands out the next client id; the counter wraps around.
    pub fn generate_client_id(&mut self) -> (r: NodeId)
        requires
            old(self).wf(),
        ensures
            final(self).wf(),
            r == old(self).view().next_client_id,
            final(self).view() == (BrokerView {
                next_client_id: old(self).view().next_client_id.wrapping_add(1),
                ..old(self).view()
            }),
    {
        let id = self.next_client_id;
        self.next_client_id = id.wrapping_add(1);
        id
    }

    /// Hands out the next server id; the counter wraps around.
    pub fn generate_server_id(&mut self) -> (r: NodeId)
        requires
            old(self).wf(),
        ensures
            final(self).wf(),
            r == old(self).view().next_server_id,
            final(self).view() == (BrokerView {
                next_server_id: old(self).view().next_server_id.wrapping_add(1),
                ..old(self).view()
            }),
    {
        let id = self.next_server_id;
        self.next_server_id = id.wrapping_add(1);
        id
    }

    /// Records that `node_id` listens to `topic`.
    pub fn node_subscribe(&mut self, node_id: NodeId, topic: Topic)
        requires
            old(self).tables_wf(),
        ensures
            final(self).tables_wf(),
            final(self).view() == spec_subscribe(old(self).view(), node_id, topic),
            old(self).wf() ==> final(self).wf(),
    {
        let ghost v = self.view();
        if node_id.is_server() {
            table_add(&mut self.server_subscribers, topic, node_id);
        } else {
            table_add(&mut self.client_subscribers, topic, node_id);
        }
        table_add(&mut self.node_id_to_topics, node_id, topic);
        proof {
            if routing_consistent(v) {
                lemma_subscribe_consistent(v, node_id, topic);
            }
        }
    }

    /// Records that `node_id` no longer listens to `topic`.
    pub fn node_unsubscribe(&mut self, node_id: NodeId, topic: Topic)
        requires
            old(self).tables_wf(),
        ensures
            final(self).tables_wf(),
            final(self).view() == spec_unsubscribe(old(self).view(), node_id, topic),
            old(self).wf() ==> final(self).wf(),
    {
        let ghost v = self.view();
        if node_id.is_server() {
            table_remove(&mut self.server_subscribers, topic, node_id);
        } else {
            table_remove(&mut self.client_subscribers, topic, node_id);
        }
        table_remove(&mut self.node_id_to_topics, node_id, topic);
        proof {
            if routing_consistent(v) {
                lemma_unsubscribe_consistent(v, node_id, topic);
            }
        }
    }

    /// The node on `connection`, if any.
    pub fn node_of(&self, connection: u128) -> (r: Option<NodeId>)
        requires
            self.wf(),
        ensures
            r == (if self.view().nodes.contains_key(connection) {
                Some(self.view().nodes[connection])
            } else {
                None
            }),
    {
        match self.uuid_to_node_id.get(&connection) {
            Some(id) => Some(*id),
            None => None,
        }
    }

    /// The connection of `node`, looked up among servers or clients by the
    /// kind of its id.
    pub fn connection_of(&self, node: NodeId) -> (r: Option<u128>)
        requires
            self.wf(),
        ensures
            r == (if spec_is_server(node) {
                if self.view().servers.contains_key(node) {
                    Some(self.view().servers[node])
                } else {
                    None
                }
            } else {
                if self.view().clients.contains_key(node) {
                    Some(self.view().clients[node])
                } else {
                    None
                }
            }),
    {
        let found = if node.is_server() {
            self.server_connections.get(&node)
        } else {
            self.client_connections.get(&node)
        };
        match found {
            Some(c) => Some(*c),
            None => None,
        }
    }

    /// Whether some server (or some client) listens to `topic`.
    pub fn has_subscribers(&self, topic: &Topic, servers: bool) -> (r: bool)
        requires
            self.wf(),
        ensures
            r == (if servers {
                self.view().server_subscribers.contains_key(*topic)
            } else {
                self.view().client_subscribers.contains_key(*topic)
            }),
    {
        if servers {
            self.server_subscribers.contains_key(topic)
        } else {
            self.client_subscribers.contains_key(topic)
        }
    }

    /// The connections of the servers (or clients) that listen to `topic`
    /// and are still connected, in subscription order.
    pub fn subscriber_connections(&self, topic: &Topic, servers: bool) -> (r: Vec<u128>)
        requires
            self.wf(),
        ensures
            r@ == route_targets(self.view(), *topic, servers),
    {
        let table = if servers {
            &self.server_subscribers
        } else {
            &self.client_subscribers
        };
        let connections = if servers {
            &self.server_connections
        } else {
            &self.client_connections
        };
        let ghost subs = members(set_table_view(*table), *topic);
        let mut out: Vec<u128> = Vec::new();
        match table.get(topic) {
            Some(set) => {
                let n = set.len();
                let mut i: usize = 0;
                while i < n
                    invariant
                        connections.wf(),
                        n == set@.len(),
                        set@ == subs,
                        0 <= i <= n,
                        out@ == connected_targets(subs.take(i as int), connections@),
                    decreases n - i,
                {
                    let node = set.get(i);
                    assert(subs.take(i + 1).drop_last() =~= subs.take(i as int));
                    match connections.get(&node) {
                        Some(c) => {
                            out.push(*c);
                        },
                        None => {},
                    }
                    i = i + 1;
                }
                assert(subs.take(n as int) =~= subs);
            },
            None => {
                assert(subs =~= Seq::<NodeId>::empty());
            },
        }
        out
    }

    /// Whether `node` still waits for authorization.
    pub fn is_unauthenticated(&self, node: NodeId) -> (r: bool)
        requires
            self.wf(),
        ensures
            r == self.view().unauthenticated.contains(node),
    {
        self.not_authenticated_clients.contains(&node)
    }

    /// Lifts the authorization wait of `node`; true when it was waiting.
    pub fn authorize_client(&mut self, node: NodeId) -> (r: bool)
        requires
            old(self).wf(),
        ensures
            final(self).wf(),
            r == old(self).view().unauthenticated.contains(node),
            final(self).view() == (BrokerView {
                unauthenticated: old(self).view().unauthenticated.remove(node),
                ..old(self).view()
            }),
    {
        let ghost s = self.not_authenticated_clients@;
        let r = self.not_authenticated_clients.swap_remove(&node);
        proof {
            lemma_seq_swap_remove_wf(s, node);
            assert(self.not_authenticated_clients@.to_set() =~= s.to_set().remove(node));
        }
        r
    }

    /// Registers a client connecting on `connection`: it gets the next client
    /// id, waits for authorization, and listens to its direct line.
    pub fn connect_client(&mut self, connection: u128) -> (id: NodeId)
        requires
            old(self).wf(),
        ensures
            final(self).wf(),
            id == old(self).view().next_client_id,
            final(self).view() == spec_connect_client(old(self).view(), connection),
    {
        let id = self.generate_client_id();
        self.uuid_to_node_id.insert(connection, id);
        self.client_connections.insert(id, connection);
        let ghost s = self.not_authenticated_clients@;
        self.not_authenticated_clients.insert(id);
        proof {
            lemma_seq_insert_wf(s, id);
            assert(self.not_authenticated_clients@.to_set() =~= s.to_set().insert(id));
        }
        let direct_line_topic = TopicBuilder::new(
            SecurityDomain::PublicReadPrivateWrite,
            Namespace::NodeLine,
        ).append_id(id).build();
        proof {
            vstd::bytes::lemma_auto_spec_u32_to_from_le_bytes();
            assert(direct_line_topic@ =~= node_line_topic(SecurityDomain::PublicReadPrivateWrite, id));
            lemma_topic_from(direct_line_topic);
        }
        self.node_subscribe(id, direct_line_topic);
        id
    }

    /// Registers a server connecting on `connection`: it gets the next server
    /// id and listens to its direct lines, the one clients write to and the
    /// one servers write to.
    pub fn connect_server(&mut self, connection: u128) -> (id: NodeId)
        requires
            old(self).wf(),
        ensures
            final(self).wf(),
            id == old(self).view().next_server_id,
            final(self).view() == spec_connect_server(old(self).view(), connection),
    {
        let id = self.generate_server_id();
        self.uuid_to_node_id.insert(connection, id);
        self.server_connections.insert(id, connection);
        let topic_builder = TopicBuilder::new(
            SecurityDomain::PrivateReadPublicWrite,
            Namespace::NodeLine,
        ).append_id(id);
        let from_clients = topic_builder.build();
        let from_servers = topic_builder.change_security_domain(SecurityDomain::PrivateRW).build();
        proof {
            vstd::bytes::lemma_auto_spec_u32_to_from_le_bytes();
            assert(from_clients@ =~= node_line_topic(SecurityDomain::PrivateReadPublicWrite, id));
            assert(((2u8 << 6u8) | (0x32u8 & 0x3fu8)) as u8 == 0xb2u8) by (bit_vector);
            assert(((3u8 << 6u8) | (0x32u8 & 0x3fu8)) as u8 == 0xf2u8) by (bit_vector);
            assert(((0xb2u8 & 0x3fu8) | ((3u8 << 6u8) & 0xc0u8)) as u8 == 0xf2u8)
                by (bit_vector);
            assert(from_servers@ =~= node_line_topic(SecurityDomain::PrivateRW, id));
            lemma_topic_from(from_clients);
            lemma_topic_from(from_servers);
        }
        self.node_subscribe(id, from_clients);
        self.node_subscribe(id, from_servers);
        id
    }

    /// Forgets the connection `connection`: its node loses its subscriptions,
    /// its connection and its pending authorization.  Hands out the node, if
    /// the connection was known.
    pub fn disconnect(&mut self, connection: u128) -> (r: Option<NodeId>)
        requires
            old(self).wf(),
        ensures
            final(self).wf(),
            final(self).view() == spec_disconnect(old(self).view(), connection),
            r == (if old(self).view().nodes.contains_key(connection) {
                Some(old(self).view().nodes[connection])
            } else {
                None
            }),
    {
        let ghost v = self.view();
        match self.uuid_to_node_id.remove(&connection) {
            Some(node_id) => {
                let ghost all_topics = members(v.topics_of, node_id);
                let ghost v1 = BrokerView {
                    nodes: v.nodes.remove(connection),
                    topics_of: v.topics_of.remove(node_id),
                    ..v
                };
                let removed = self.node_id_to_topics.remove(&node_id);
                assert(set_table_view(self.node_id_to_topics) =~= v.topics_of.remove(node_id));
                assert(self.view() == v1);
                match removed {
                    Some(topics) => {
                        let n = topics.len();
                        let mut i: usize = 0;
                        while i < n
                            invariant
                                self.tables_wf(),
                                n == topics@.len(),
                                topics@ == all_topics,
                                0 <= i <= n,
                                self.view() == unsubscribe_all(v1, node_id, topics@.take(i as int)),
                            decreases n - i,
                        {
                            let t = topics.get(i);
                            self.node_unsubscribe(node_id, t);
                            proof {
                                assert(topics@.take(i + 1).drop_last() =~= topics@.take(i as int));
                            }
                            i = i + 1;
                        }
                        assert(topics@.take(n as int) =~= all_topics);
                    },
                    None => {
                        assert(all_topics =~= Seq::<Topic>::empty());
                    },
                }
                if node_id.is_server() {
                    self.server_connections.remove(&node_id);
                } else {
                    let ghost s = self.not_authenticated_clients@;
                    self.not_authenticated_clients.swap_remove(&node_id);
                    proof {
                        lemma_seq_swap_remove_wf(s, node_id);
                        assert(self.not_authenticated_clients@.to_set() =~= s.to_set().remove(
                            node_id,
                        ));
                    }
                    self.client_connections.remove(&node_id);
                }
                proof {
                    lemma_disconnect(v, connection);
                }
                Some(node_id)
            },
            None => {
                assert(self.uuid_to_node_id@ =~= v.nodes);
                None
            },
        }
    }
}



/// Adding an absent item to the set under `k` and removing it again gives
/// back the table.
proof fn lemma_add_then_drop<K, X>(m: Map<K, Seq<X>>, k: K, x: X)
    requires
        sets_wf(m),
        !members(m, k).contains(x),
    ensures
        drop_member(add_member(m, k, x), k, x) == m,
{
    let s = members(m, k);
    let s1 = s.push(x);
    assert(seq_insert(s, x) == s1);
    lemma_seq_insert_wf(s, x);
    let i = s1.index_of(x);
    assert(s1[s.len() as int] == x);
    assert(s1.contains(x));
    assert(i == s.len()) by {
        assert(0 <= i < s1.len() && s1[i] == x);
        if i != s.len() {
            assert(s1[i] == s1[s.len() as int]);
        }
    }
    assert(seq_swap_remove(s1, x) =~= s);
    if m.contains_key(k) {
        assert(drop_member(add_member(m, k, x), k, x) =~= m);
    } else {
        assert(drop_member(add_member(m, k, x), k, x) =~= m);
    }
}

/// Unsubscribing a node from a topic it did not listen to, right after
/// subscribing it there, gives back the tables as they were.
pub proof fn lemma_unsubscribe_undoes_subscribe(v: BrokerView, node: NodeId, topic: Topic)
    requires
        routing_consistent(v),
        !is_subscribed(v, node, topic),
    ensures
        spec_unsubscribe(spec_subscribe(v, node, topic), node, topic) == v,
{
    if members(v.topics_of, node).contains(topic) {
        assert(is_subscribed(v, node, topic));
    }
    lemma_add_then_drop(v.topics_of, node, topic);
    if spec_is_server(node) {
        lemma_add_then_drop(v.server_subscribers, topic, node);
    } else {
        lemma_add_then_drop(v.client_subscribers, topic, node);
    }
}

/// Subscribing twice is subscribing once.
pub proof fn lemma_subscribe_idempotent(v: BrokerView, node: NodeId, topic: Topic)
    ensures
        spec_subscribe(spec_subscribe(v, node, topic), node, topic) == spec_subscribe(
            v,
            node,
            topic,
        ),
{
    let a = seq_insert(members(v.topics_of, node), topic);
    assert(a.contains(topic)) by {
        if !members(v.topics_of, node).contains(topic) {
            assert(a[a.len() - 1] == topic);
        }
    }
    assert(add_member(add_member(v.topics_of, node, topic), node, topic) =~= add_member(
        v.topics_of,
        node,
        topic,
    ));
    let m = subscribers_of(v, node);
    let b = seq_insert(members(m, topic), node);
    assert(b.contains(node)) by {
        if !members(m, topic).contains(node) {
            assert(b[b.len() - 1] == node);
        }
    }
    assert(add_member(add_member(m, topic, node), topic, node) =~= add_member(m, topic, node));
}

/// A subscription is seen by `is_subscribed` until it is withdrawn, and
/// touches no other node's subscriptions.
pub proof fn lemma_subscribe_effect(v: BrokerView, node: NodeId, topic: Topic)
    requires
        routing_consistent(v),
    ensures
        is_subscribed(spec_subscribe(v, node, topic), node, topic),
        !is_subscribed(spec_unsubscribe(v, node, topic), node, topic),
        forall|n: NodeId, t: Topic|
            !(n == node && t == topic) ==> (is_subscribed(spec_subscribe(v, node, topic), n, t)
                == is_subscribed(v, n, t)) && (is_subscribed(spec_unsubscribe(v, node, topic), n, t)
                == is_subscribed(v, n, t)),
{
    if spec_is_server(node) {
        lemma_add_member(v.server_subscribers, topic, node);
        lemma_drop_member(v.server_subscribers, topic, node);
    } else {
        lemma_add_member(v.client_subscribers, topic, node);
        lemma_drop_member(v.client_subscribers, topic, node);
    }
    let s = spec_subscribe(v, node, topic);
    let u = spec_unsubscribe(v, node, topic);
    assert forall|n: NodeId, t: Topic| !(n == node && t == topic) implies (is_subscribed(s, n, t)
        == is_subscribed(v, n, t)) && (is_subscribed(u, n, t) == is_subscribed(v, n, t)) by {
        if spec_is_server(n) == spec_is_server(node) {
        } else {
            assert(subscribers_of(s, n) == subscribers_of(v, n));
            assert(subscribers_of(u, n) == subscribers_of(v, n));
        }
    }
}

/// Adding `x` to a sequence used as a set keeps what it held and adds `x`.
proof fn lemma_seq_insert_contains<X>(s: Seq<X>, x: X, y: X)
    ensures
        seq_insert(s, x).contains(y) <==> (s.contains(y) || y == x),
{
    if !s.contains(x) {
        let r = s.push(x);
        if r.contains(y) && y != x {
            let i = choose|i: int| 0 <= i < r.len() && r[i] == y;
            assert(s[i] == y);
        }
        if s.contains(y) {
            let i = choose|i: int| 0 <= i < s.len() && s[i] == y;
            assert(r[i] == y);
        }
        if y == x {
            assert(r[s.len() as int] == y);
        }
    }
}

/// After `node` subscribes to `topic`, the subscriptions are those before
/// plus that one, whatever state the tables are in.
pub proof fn lemma_subscribe_adds(v: BrokerView, node: NodeId, topic: Topic)
    ensures
        forall|n: NodeId, t: Topic|
            #[trigger] is_subscribed(spec_subscribe(v, node, topic), n, t) <==> (is_subscribed(
                v,
                n,
                t,
            ) || (n == node && t == topic)),
{
    let s = spec_subscribe(v, node, topic);
    assert forall|n: NodeId, t: Topic|
        #[trigger] is_subscribed(s, n, t) <==> (is_subscribed(v, n, t) || (n == node && t
            == topic)) by {
        if spec_is_server(n) == spec_is_server(node) {
            let m = subscribers_of(v, node);
            assert(subscribers_of(s, n) == add_member(m, topic, node));
            if t == topic {
                assert(members(add_member(m, topic, node), t) == seq_insert(members(m, topic), node));
                lemma_seq_insert_contains(members(m, topic), node, n);
            } else {
                assert(members(add_member(m, topic, node), t) == members(m, t));
            }
        } else {
            assert(subscribers_of(s, n) == subscribers_of(v, n));
        }
    }
}

/// After `node` subscribes to each of `topics`, the subscriptions are those
/// before plus `node` on every topic of the list, whatever state the tables
/// are in.
pub proof fn lemma_subscribe_all_adds(v: BrokerView, node: NodeId, topics: Seq<Topic>)
    ensures
        forall|n: NodeId, t: Topic|
            #[trigger] is_subscribed(subscribe_all(v, node, topics), n, t) <==> (is_subscribed(
                v,
                n,
                t,
            ) || (n == node && topics.contains(t))),
    decreases topics.len(),
{
    if topics.len() > 0 {
        let rest = topics.drop_last();
        lemma_subscribe_all_adds(v, node, rest);
        lemma_subscribe_adds(subscribe_all(v, node, rest), node, topics.last());
        assert forall|t: Topic| topics.contains(t) <==> (rest.contains(t) || t == topics.last()) by {
            if topics.contains(t) {
                let i = choose|i: int| 0 <= i < topics.len() && topics[i] == t;
                if i < topics.len() - 1 {
                    assert(rest[i] == t);
                }
            }
            if rest.contains(t) {
                let i = choose|i: int| 0 <= i < rest.len() && rest[i] == t;
                assert(topics[i] == t);
            }
            if t == topics.last() {
                assert(topics[topics.len() - 1] == t);
            }
        }
    } else {
        assert forall|t: Topic| !topics.contains(t) by {}
    }
}

/// A client that connects listens to its own direct line, the one servers
/// write to it on, and nothing else changes in its subscriptions nor in
/// anyone else's.
pub proof fn lemma_connect_client_listens(v: BrokerView, connection: u128)
    ensures
        is_subscribed(
            spec_connect_client(v, connection),
            v.next_client_id,
            topic_from(node_line_topic(SecurityDomain::PublicReadPrivateWrite, v.next_client_id)),
        ),
        forall|n: NodeId, t: Topic|
            is_subscribed(v, n, t) ==> #[trigger] is_subscribed(
                spec_connect_client(v, connection),
                n,
                t,
            ),
{
    let id = v.next_client_id;
    let v1 = BrokerView {
        nodes: v.nodes.insert(connection, id),
        clients: v.clients.insert(id, connection),
        unauthenticated: v.unauthenticated.insert(id),
        next_client_id: id.wrapping_add(1),
        ..v
    };
    let line = topic_from(node_line_topic(SecurityDomain::PublicReadPrivateWrite, id));
    lemma_subscribe_adds(v1, id, line);
    assert forall|n: NodeId, t: Topic| is_subscribed(v, n, t) implies #[trigger] is_subscribed(
        spec_connect_client(v, connection),
        n,
        t,
    ) by {
        assert(is_subscribed(v1, n, t));
    }
    assert(is_subscribed(spec_subscribe(v1, id, line), id, line));
}

/// A game server that connects listens to both its direct lines: the one
/// clients write to it on and the one servers write to it on.
pub proof fn lemma_connect_server_listens(v: BrokerView, connection: u128)
    ensures
        is_subscribed(
            spec_connect_server(v, connection),
            v.next_server_id,
            topic_from(node_line_topic(SecurityDomain::PrivateReadPublicWrite, v.next_server_id)),
        ),
        is_subscribed(
            spec_connect_server(v, connection),
            v.next_server_id,
            topic_from(node_line_topic(SecurityDomain::PrivateRW, v.next_server_id)),
        ),
        forall|n: NodeId, t: Topic|
            is_subscribed(v, n, t) ==> #[trigger] is_subscribed(
                spec_connect_server(v, connection),
                n,
                t,
            ),
{
    let id = v.next_server_id;
    let v1 = BrokerView {
        nodes: v.nodes.insert(connection, id),
        servers: v.servers.insert(id, connection),
        next_server_id: id.wrapping_add(1),
        ..v
    };
    let from_clients = topic_from(node_line_topic(SecurityDomain::PrivateReadPublicWrite, id));
    let from_servers = topic_from(node_line_topic(SecurityDomain::PrivateRW, id));
    let v2 = spec_subscribe(v1, id, from_clients);
    lemma_subscribe_adds(v1, id, from_clients);
    lemma_subscribe_adds(v2, id, from_servers);
    assert(is_subscribed(v2, id, from_clients));
    assert(is_subscribed(spec_subscribe(v2, id, from_servers), id, from_clients));
    assert(is_subscribed(spec_subscribe(v2, id, from_servers), id, from_servers));
    assert forall|n: NodeId, t: Topic| is_subscribed(v, n, t) implies #[trigger] is_subscribed(
        spec_connect_server(v, connection),
        n,
        t,
    ) by {
        assert(is_subscribed(v1, n, t));
        assert(is_subscribed(v2, n, t));
    }
}


/// The array holding the first `k` bytes of `b`, zeros after.
spec fn array_prefix<const N: usize>(b: Seq<u8>, k: nat) -> [u8; N]
    decreases k,
{
    if k == 0 {
        vstd::array::spec_array_fill_for_copy_type::<u8, N>(0u8)
    } else {
        vstd::array::spec_array_update(array_prefix::<N>(b, (k - 1) as nat), k - 1, b[k - 1])
    }
}

proof fn lemma_array_prefix<const N: usize>(b: Seq<u8>, k: nat)
    requires
        b.len() == N,
        k <= N,
    ensures
        array_prefix::<N>(b, k)@.len() == N,
        forall|i: int| 0 <= i < k ==> array_prefix::<N>(b, k)@[i] == b[i],
    decreases k,
{
    let t = array_prefix::<N>(b, k);
    vstd::array::array_len_matches_n(&t);
    if k > 0 {
        let p = array_prefix::<N>(b, (k - 1) as nat);
        lemma_array_prefix::<N>(b, (k - 1) as nat);
        vstd::array::axiom_spec_array_update(p, k - 1, b[k - 1]);
    }
}

/// The array whose bytes are `bytes`.
pub open spec fn array_from<const N: usize>(bytes: Seq<u8>) -> [u8; N] {
    choose|t: [u8; N]| t@ == bytes
}

/// `N` bytes are the bytes of an array, and an array is the array of its
/// bytes.
pub proof fn lemma_array_from<const N: usize>(b: Seq<u8>)
    requires
        b.len() == N,
    ensures
        array_from::<N>(b)@ == b,
        forall|t: [u8; N]| t@ == b ==> t == array_from::<N>(b),
{
    lemma_array_prefix::<N>(b, N as nat);
    let t = array_prefix::<N>(b, N as nat);
    assert(t@ =~= b);
    assert forall|t2: [u8; N]| t2@ == b implies t2 == array_from::<N>(b) by {
        let c = array_from::<N>(b);
        assert(c@ == t2@);
        vstd::array::axiom_array_ext_equal(c, t2);
    }
}

/// Sixteen bytes are the bytes of a topic.
pub proof fn lemma_topic_from_bytes(b: Seq<u8>)
    requires
        b.len() == 16,
    ensures
        topic_from(b)@ == b,
{
    lemma_array_from::<16>(b);
}

/// A topic is the topic of its bytes.
pub proof fn lemma_topic_from(t: Topic)
    ensures
        topic_from(t@) == t,
{
    let c = topic_from(t@);
    assert(c@ == t@);
    vstd::array::axiom_array_ext_equal(c, t);
}

/// The tables agree, except that `node` has no topic list and may still be
/// found under the topics of `pending`.
pub open spec fn consistent_except(v: BrokerView, node: NodeId, pending: Set<Topic>) -> bool {
    &&& sets_wf(v.client_subscribers)
    &&& sets_wf(v.server_subscribers)
    &&& sets_wf(v.topics_of)
    &&& !v.topics_of.contains_key(node)
    &&& forall|t: Topic, n: NodeId|
        #[trigger] members(v.client_subscribers, t).contains(n) ==> !spec_is_server(n) && (if n
            == node {
            pending.contains(t)
        } else {
            members(v.topics_of, n).contains(t)
        })
    &&& forall|t: Topic, n: NodeId|
        #[trigger] members(v.server_subscribers, t).contains(n) ==> spec_is_server(n) && (if n
            == node {
            pending.contains(t)
        } else {
            members(v.topics_of, n).contains(t)
        })
    &&& forall|n: NodeId, t: Topic|
        #[trigger] members(v.topics_of, n).contains(t) ==> is_subscribed(v, n, t)
}

/// Unsubscribing `node` from topics one after the other takes them off its
/// pending topics, leaves every other node's subscriptions and every other
/// table as they were.
proof fn lemma_unsubscribe_all_except(v: BrokerView, node: NodeId, pending: Set<Topic>, ts: Seq<Topic>)
    requires
        consistent_except(v, node, pending),
    ensures
        consistent_except(unsubscribe_all(v, node, ts), node, pending.difference(ts.to_set())),
        forall|n: NodeId, t: Topic|
            n != node ==> (is_subscribed(unsubscribe_all(v, node, ts), n, t) == is_subscribed(
                v,
                n,
                t,
            )),
        unsubscribe_all(v, node, ts) == (BrokerView {
            client_subscribers: unsubscribe_all(v, node, ts).client_subscribers,
            server_subscribers: unsubscribe_all(v, node, ts).server_subscribers,
            topics_of: unsubscribe_all(v, node, ts).topics_of,
            ..v
        }),
    decreases ts.len(),
{
    if ts.len() == 0 {
        assert(pending.difference(ts.to_set()) =~= pending);
    } else {
        let prefix = ts.drop_last();
        lemma_unsubscribe_all_except(v, node, pending, prefix);
        let w = unsubscribe_all(v, node, prefix);
        let t0 = ts.last();
        let p0 = pending.difference(prefix.to_set());
        let p1 = pending.difference(ts.to_set());
        assert(p1 =~= p0.remove(t0)) by {
            assert forall|t: Topic| ts.to_set().contains(t) <==> (prefix.to_set().contains(t)
                || t == t0) by {
                if ts.contains(t) && t != t0 {
                    let i = choose|i: int| 0 <= i < ts.len() && ts[i] == t;
                    assert(prefix[i] == t);
                }
                if prefix.contains(t) {
                    let i = choose|i: int| 0 <= i < prefix.len() && prefix[i] == t;
                    assert(ts[i] == t);
                }
                if t == t0 {
                    assert(ts[ts.len() - 1] == t);
                }
            }
        }
        let r = spec_unsubscribe(w, node, t0);
        assert(drop_member(w.topics_of, node, t0) == w.topics_of);
        if spec_is_server(node) {
            lemma_drop_member(w.server_subscribers, t0, node);
        } else {
            lemma_drop_member(w.client_subscribers, t0, node);
        }
        assert forall|n: NodeId, t: Topic| #[trigger] members(r.topics_of, n).contains(t) implies is_subscribed(
            r,
            n,
            t,
        ) by {
            assert(members(w.topics_of, n).contains(t));
            assert(is_subscribed(w, n, t));
        }
        assert forall|n: NodeId, t: Topic| n != node implies (is_subscribed(r, n, t)
            == is_subscribed(w, n, t)) by {
            assert(members(subscribers_of(r, n), t).contains(n) == members(
                subscribers_of(w, n),
                t,
            ).contains(n));
        }
    }
}

/// After a connection goes away, its node listens to nothing and has no
/// topic list, every other node keeps exactly its subscriptions, and the
/// tables still agree.
pub proof fn lemma_disconnect(v: BrokerView, connection: u128)
    requires
        routing_consistent(v),
        v.nodes.contains_key(connection),
    ensures
        routing_consistent(spec_disconnect(v, connection)),
        !spec_disconnect(v, connection).nodes.contains_key(connection),
        !spec_disconnect(v, connection).topics_of.contains_key(v.nodes[connection]),
        forall|t: Topic| !is_subscribed(spec_disconnect(v, connection), v.nodes[connection], t),
        forall|n: NodeId, t: Topic|
            n != v.nodes[connection] ==> (is_subscribed(spec_disconnect(v, connection), n, t)
                == is_subscribed(v, n, t)),
        spec_is_server(v.nodes[connection]) ==> !spec_disconnect(v, connection).servers.contains_key(
            v.nodes[connection],
        ),
        !spec_is_server(v.nodes[connection]) ==> !spec_disconnect(
            v,
            connection,
        ).clients.contains_key(v.nodes[connection]) && !spec_disconnect(
            v,
            connection,
        ).unauthenticated.contains(v.nodes[connection]),
{
    let n = v.nodes[connection];
    let ts = members(v.topics_of, n);
    let v1 = BrokerView { nodes: v.nodes.remove(connection), topics_of: v.topics_of.remove(n), ..v };
    assert forall|m: NodeId| m != n implies members(v1.topics_of, m) == members(v.topics_of, m) by {}
    assert forall|m: NodeId, t: Topic| m != n implies is_subscribed(v1, m, t) == is_subscribed(
        v,
        m,
        t,
    ) by {}
    assert(consistent_except(v1, n, ts.to_set()));
    lemma_unsubscribe_all_except(v1, n, ts.to_set(), ts);
    let v2 = unsubscribe_all(v1, n, ts);
    assert(ts.to_set().difference(ts.to_set()) =~= Set::<Topic>::empty());
    assert forall|t: Topic| !is_subscribed(v2, n, t) by {
        if is_subscribed(v2, n, t) {
            if spec_is_server(n) {
                assert(members(v2.server_subscribers, t).contains(n));
            } else {
                assert(members(v2.client_subscribers, t).contains(n));
            }
        }
    }
    assert(routing_consistent(v2));
}

/// Adding an item keeps a set free of duplicates and makes it non-empty.
proof fn lemma_seq_insert_wf<X>(s: Seq<X>, x: X)
    requires
        s.no_duplicates(),
    ensures
        seq_insert(s, x).no_duplicates(),
        seq_insert(s, x).len() > 0,
        forall|y: X| #[trigger] seq_insert(s, x).contains(y) <==> (s.contains(y) || y == x),
{
    if !s.contains(x) {
        let r = s.push(x);
        assert forall|y: X| #[trigger] r.contains(y) <==> (s.contains(y) || y == x) by {
            if r.contains(y) && y != x {
                let i = choose|i: int| 0 <= i < r.len() && r[i] == y;
                assert(s[i] == y);
            }
            if s.contains(y) {
                let i = choose|i: int| 0 <= i < s.len() && s[i] == y;
                assert(r[i] == y);
            }
            if y == x {
                assert(r[s.len() as int] == y);
            }
        }
    }
}

/// Removing an item keeps a set free of duplicates and removes exactly it.
proof fn lemma_seq_swap_remove_wf<X>(s: Seq<X>, x: X)
    requires
        s.no_duplicates(),
    ensures
        seq_swap_remove(s, x).no_duplicates(),
        forall|y: X| #[trigger] seq_swap_remove(s, x).contains(y) <==> (s.contains(y) && y != x),
        s.contains(x) ==> seq_swap_remove(s, x).len() == s.len() - 1,
        !s.contains(x) ==> seq_swap_remove(s, x) == s,
{
    if s.contains(x) {
        let i = s.index_of(x);
        s.index_of_first_ensures(x);
        lemma_swap_remove_no_duplicates(s, i);
    }
}

/// Membership in a table after adding `x` under `k`.
proof fn lemma_add_member<K, X>(m: Map<K, Seq<X>>, k: K, x: X)
    requires
        sets_wf(m),
    ensures
        sets_wf(add_member(m, k, x)),
        forall|k2: K, y: X|
            #[trigger] members(add_member(m, k, x), k2).contains(y) <==> (members(m, k2).contains(y)
                || (k2 == k && y == x)),
{
    lemma_seq_insert_wf(members(m, k), x);
    let r = add_member(m, k, x);
    assert forall|k2: K, y: X|
        #[trigger] members(r, k2).contains(y) <==> (members(m, k2).contains(y) || (k2 == k
            && y == x)) by {
        if k2 == k {
            assert(members(r, k2) == seq_insert(members(m, k), x));
        } else {
            assert(members(r, k2) == members(m, k2));
        }
    }
}

/// Membership in a table after removing `x` from under `k`.
proof fn lemma_drop_member<K, X>(m: Map<K, Seq<X>>, k: K, x: X)
    requires
        sets_wf(m),
    ensures
        sets_wf(drop_member(m, k, x)),
        forall|k2: K, y: X|
            #[trigger] members(drop_member(m, k, x), k2).contains(y) <==> (members(m, k2).contains(
                y,
            ) && !(k2 == k && y == x)),
{
    let r = drop_member(m, k, x);
    if m.contains_key(k) {
        lemma_seq_swap_remove_wf(m[k], x);
    }
    assert forall|k2: K, y: X|
        #[trigger] members(r, k2).contains(y) <==> (members(m, k2).contains(y) && !(k2 == k && y
            == x)) by {
        if k2 != k {
            assert(members(r, k2) == members(m, k2));
        } else if m.contains_key(k) {
            let s = seq_swap_remove(m[k], x);
            if s.len() == 0 {
                assert(members(r, k2) == Seq::<X>::empty());
                assert(!s.contains(y));
            } else {
                assert(members(r, k2) == s);
            }
        }
    }
}

/// Subscribing keeps the tables consistent.
proof fn lemma_subscribe_consistent(v: BrokerView, node: NodeId, topic: Topic)
    requires
        routing_consistent(v),
    ensures
        routing_consistent(spec_subscribe(v, node, topic)),
{
    let r = spec_subscribe(v, node, topic);
    lemma_add_member(v.topics_of, node, topic);
    if spec_is_server(node) {
        lemma_add_member(v.server_subscribers, topic, node);
    } else {
        lemma_add_member(v.client_subscribers, topic, node);
    }
    assert forall|n: NodeId, t: Topic| #[trigger] members(r.topics_of, n).contains(t) implies is_subscribed(
        r,
        n,
        t,
    ) by {
        if !(n == node && t == topic) {
            assert(members(v.topics_of, n).contains(t));
            assert(is_subscribed(v, n, t));
        }
    }
}

/// Unsubscribing keeps the tables consistent.
proof fn lemma_unsubscribe_consistent(v: BrokerView, node: NodeId, topic: Topic)
    requires
        routing_consistent(v),
    ensures
        routing_consistent(spec_unsubscribe(v, node, topic)),
{
    let r = spec_unsubscribe(v, node, topic);
    lemma_drop_member(v.topics_of, node, topic);
    if spec_is_server(node) {
        lemma_drop_member(v.server_subscribers, topic, node);
    } else {
        lemma_drop_member(v.client_subscribers, topic, node);
    }
    assert forall|n: NodeId, t: Topic| #[trigger] members(r.topics_of, n).contains(t) implies is_subscribed(
        r,
        n,
        t,
    ) by {
        assert(members(v.topics_of, n).contains(t));
        assert(is_subscribed(v, n, t));
    }
}

/// The counter after `k` ids were handed out from `start`, one by one,
/// wrapping around.
pub open spec fn counter_after(start: u32, k: nat) -> u32
    decreases k,
{
    if k == 0 {
        start
    } else {
        counter_after(start, (k - 1) as nat).wrapping_add(1)
    }
}

/// Without wrapping, the counter after `k` ids is `start + k`.
proof fn lemma_counter_after(start: u32, k: nat)
    requires
        start + k <= u32::MAX,
    ensures
        counter_after(start, k) == start + k,
    decreases k,
{
    if k > 0 {
        lemma_counter_after(start, (k - 1) as nat);
    }
}

/// Of a fresh broker, the server ids `generate_server_id` hands out (the
/// `i`-th one is the counter after `i` ids, from `FIRST_SERVER_ID`) are,
/// for the first 2^31 of them, pairwise distinct and all server ids, never
/// client ids.
pub proof fn lemma_server_ids_distinct(i: nat, j: nat)
    requires
        i < j < 0x8000_0000,
    ensures
        counter_after(FIRST_SERVER_ID, 0) == FIRST_SERVER_ID,
        counter_after(FIRST_SERVER_ID, i) != counter_after(FIRST_SERVER_ID, j),
        spec_is_server(counter_after(FIRST_SERVER_ID, i)),
        !spec_is_client(counter_after(FIRST_SERVER_ID, i)),
        spec_is_server(counter_after(FIRST_SERVER_ID, j)),
        !spec_is_client(counter_after(FIRST_SERVER_ID, j)),
{
    lemma_counter_after(FIRST_SERVER_ID, i);
    lemma_counter_after(FIRST_SERVER_ID, j);
    let a = counter_after(FIRST_SERVER_ID, i);
    let b = counter_after(FIRST_SERVER_ID, j);
    assert(a & 0x8000_0000u32 != 0) by (bit_vector)
        requires
            a >= 0x8000_0000u32,
    ;
    assert(b & 0x8000_0000u32 != 0) by (bit_vector)
        requires
            b >= 0x8000_0000u32,
    ;
}

} // verus!
