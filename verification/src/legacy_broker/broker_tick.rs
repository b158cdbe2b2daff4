//! What the first broker does on each network event.  A packet's first byte
//! names its kind: the broker's own kinds 0x01 to 0x04 (subscribe,
//! unsubscribe, publish, broadcast), then the game kinds (client input 0x05,
//! client hello 0x06, spawn client 0x07, client welcome 0x08, client
//! disconnect 0x09, heartbeat 0x0B, friend hello 0x0F).  A friend's hello
//! names its kind in its second byte: 0x01 client, 0x02 server, 0x03
//! spatial, 0x04 orchestrator, 0x05 authentication.
use crate::broker::broker_core::StreamInfo;
use crate::broker::broker_state::{array_from, lemma_array_from};
use crate::bytes_io::{bytes_as_slice, bytes_contents, bytes_from_vec, bytes_len};
use crate::legacy_broker::broker_state::{
    list_of, put_list, swap_remove_first, push_to_list, spec_remove_by_co, spec_unsubscribe_all, spec_unsubscribe_client, BrokerState,
    ClientId, ConnectionOwner, LegacyView,
};
use crate::shared_replication::broker_topics::Topic;
use crate::shared_replication::STREAM_HANDSHAKE;
use bytes::Bytes;
use vstd::bytes::{spec_u32_from_le_bytes, spec_u32_to_le_bytes, u32_from_le_bytes, u32_to_le_bytes};
use vstd::prelude::*;
use vstd::slice::slice_subrange;

verus! {

/// The kinds of packets of the first broker.
#[derive(Debug, Clone, Copy, PartialEq, Eq, Structural)]
pub enum BrokerMessageHeaders {
    Subscribe,
    Unsubscribe,
    Publish,
    Broadcast,
    ClientInput,
    ClientHello,
    SpawnClient,
    ClientWelcome,
    ClientDisconnect,
    Heartbeat,
    FriendHello,
    DiscardedMessageBecauseYouKnow,
}

impl BrokerMessageHeaders {
    /// The first byte of a packet of this kind; the catch-all kind is 0x11.
    pub open spec fn code(self) -> u8 {
        match self {
            BrokerMessageHeaders::Subscribe => 0x01,
            BrokerMessageHeaders::Unsubscribe => 0x02,
            BrokerMessageHeaders::Publish => 0x03,
            BrokerMessageHeaders::Broadcast => 0x04,
            BrokerMessageHeaders::ClientInput => 0x05,
            BrokerMessageHeaders::ClientHello => 0x06,
            BrokerMessageHeaders::SpawnClient => 0x07,
            BrokerMessageHeaders::ClientWelcome => 0x08,
            BrokerMessageHeaders::ClientDisconnect => 0x09,
            BrokerMessageHeaders::Heartbeat => 0x0B,
            BrokerMessageHeaders::FriendHello => 0x0F,
            BrokerMessageHeaders::DiscardedMessageBecauseYouKnow => 0x11,
        }
    }

    /// The kind a first byte names; unknown bytes name the catch-all.
    pub open spec fn from_code(b: u8) -> BrokerMessageHeaders {
        if b == 0x01 {
            BrokerMessageHeaders::Subscribe
        } else if b == 0x02 {
            BrokerMessageHeaders::Unsubscribe
        } else if b == 0x03 {
            BrokerMessageHeaders::Publish
        } else if b == 0x04 {
            BrokerMessageHeaders::Broadcast
        } else if b == 0x05 {
            BrokerMessageHeaders::ClientInput
        } else if b == 0x06 {
            BrokerMessageHeaders::ClientHello
        } else if b == 0x07 {
            BrokerMessageHeaders::SpawnClient
        } else if b == 0x08 {
            BrokerMessageHeaders::ClientWelcome
        } else if b == 0x09 {
            BrokerMessageHeaders::ClientDisconnect
        } else if b == 0x0B {
            BrokerMessageHeaders::Heartbeat
        } else if b == 0x0F {
            BrokerMessageHeaders::FriendHello
        } else {
            BrokerMessageHeaders::DiscardedMessageBecauseYouKnow
        }
    }

    /// Reads the kind of a packet from its first byte.
    pub fn from_u8(b: u8) -> (r: BrokerMessageHeaders)
        ensures
            r == Self::from_code(b),
    {
        if b == 0x01 {
            BrokerMessageHeaders::Subscribe
        } else if b == 0x02 {
            BrokerMessageHeaders::Unsubscribe
        } else if b == 0x03 {
            BrokerMessageHeaders::Publish
        } else if b == 0x04 {
            BrokerMessageHeaders::Broadcast
        } else if b == 0x05 {
            BrokerMessageHeaders::ClientInput
        } else if b == 0x06 {
            BrokerMessageHeaders::ClientHello
        } else if b == 0x07 {
            BrokerMessageHeaders::SpawnClient
        } else if b == 0x08 {
            BrokerMessageHeaders::ClientWelcome
        } else if b == 0x09 {
            BrokerMessageHeaders::ClientDisconnect
        } else if b == 0x0B {
            BrokerMessageHeaders::Heartbeat
        } else if b == 0x0F {
            BrokerMessageHeaders::FriendHello
        } else {
            BrokerMessageHeaders::DiscardedMessageBecauseYouKnow
        }
    }

    /// The first byte of a packet of this kind.
    pub fn as_u8(self) -> (r: u8)
        ensures
            r == self.code(),
    {
        match self {
            BrokerMessageHeaders::Subscribe => 0x01,
            BrokerMessageHeaders::Unsubscribe => 0x02,
            BrokerMessageHeaders::Publish => 0x03,
            BrokerMessageHeaders::Broadcast => 0x04,
            BrokerMessageHeaders::ClientInput => 0x05,
            BrokerMessageHeaders::ClientHello => 0x06,
            BrokerMessageHeaders::SpawnClient => 0x07,
            BrokerMessageHeaders::ClientWelcome => 0x08,
            BrokerMessageHeaders::ClientDisconnect => 0x09,
            BrokerMessageHeaders::Heartbeat => 0x0B,
            BrokerMessageHeaders::FriendHello => 0x0F,
            BrokerMessageHeaders::DiscardedMessageBecauseYouKnow => 0x11,
        }
    }
}

/// The kinds of friends of the broker.
#[derive(Debug, Clone, Copy, PartialEq, Eq, Structural)]
pub enum BrokerFriends {
    Client,
    Server,
    Spatial,
    Orchestrator,
    Authentification,
}

impl BrokerFriends {
    /// The kind a byte names, if any.
    pub open spec fn from_code(b: u8) -> Option<BrokerFriends> {
        if b == 0x01 {
            Some(BrokerFriends::Client)
        } else if b == 0x02 {
            Some(BrokerFriends::Server)
        } else if b == 0x03 {
            Some(BrokerFriends::Spatial)
        } else if b == 0x04 {
            Some(BrokerFriends::Orchestrator)
        } else if b == 0x05 {
            Some(BrokerFriends::Authentification)
        } else {
            None
        }
    }

    /// Reads a friend's kind.
    pub fn try_from(b: u8) -> (r: Option<BrokerFriends>)
        ensures
            r == Self::from_code(b),
    {
        if b == 0x01 {
            Some(BrokerFriends::Client)
        } else if b == 0x02 {
            Some(BrokerFriends::Server)
        } else if b == 0x03 {
            Some(BrokerFriends::Spatial)
        } else if b == 0x04 {
            Some(BrokerFriends::Orchestrator)
        } else if b == 0x05 {
            Some(BrokerFriends::Authentification)
        } else {
            None
        }
    }
}

/// What the network reports.
#[derive(Debug, Clone)]
pub enum LegacyEvent {
    Connected { connection: u128 },
    Disconnected { connection: u128 },
    Message { connection: u128, stream: StreamInfo, data: Bytes },
    Other,
}

/// What the broker asks of the network.
#[derive(Debug, Clone)]
pub enum LegacyAction {
    /// Open the reliable handshake stream on a new connection.
    CreateHandshakeStream { connection: u128 },
    /// Send bytes on a stream of a connection.
    Send { connection: u128, stream: StreamInfo, data: Bytes },
}

/// A client whose welcome is on its way: once it is delivered, the client
/// is handed to a shard.
#[derive(Debug, Clone)]
pub struct PendingSpawn {
    pub client_id: ClientId,
    pub stream: StreamInfo,
    /// The pseudonym bytes, with their length byte.
    pub pseudo_len: u8,
    pub pseudo: Vec<u8>,
}

/// What the broker does on one event.
#[derive(Debug, Clone)]
pub struct TickOutcome {
    pub actions: Vec<LegacyAction>,
    /// A client to hand to a shard once the welcome (the last action) is
    /// delivered.
    pub pending: Option<PendingSpawn>,
    /// The packet was too short, unauthorized, or otherwise refused.
    pub discarded: bool,
}

/// The stream on which the broker tells a shard that a client went away.
pub open spec fn handshake_unreliable() -> StreamInfo {
    StreamInfo { stream_id: STREAM_HANDSHAKE, reliable: false }
}

/// The bytes telling a shard that client `id` went away.
pub open spec fn disconnect_packet(id: ClientId) -> Seq<u8> {
    seq![BrokerMessageHeaders::ClientDisconnect.code()] + spec_u32_to_le_bytes(id)
}

/// The bytes welcoming client `id`.
pub open spec fn welcome_packet(id: ClientId) -> Seq<u8> {
    seq![BrokerMessageHeaders::ClientWelcome.code()] + spec_u32_to_le_bytes(id)
}

/// The bytes asking a shard to spawn client `id` with pseudonym `pseudo`.
pub open spec fn spawn_packet(id: ClientId, pseudo_len: u8, pseudo: Seq<u8>) -> Seq<u8> {
    seq![BrokerMessageHeaders::SpawnClient.code()] + spec_u32_to_le_bytes(id) + seq![pseudo_len]
        + pseudo
}

/// `a` is sending `data` on `stream` of `connection`.
pub open spec fn is_send(a: LegacyAction, connection: u128, stream: StreamInfo, data: Seq<u8>) -> bool {
    a matches LegacyAction::Send { connection: c, stream: s, data: d } && c == connection && s
        == stream && bytes_contents(d) == data
}

/// The client id in bytes 1 to 4 of a packet.
pub open spec fn packet_client(data: Seq<u8>) -> ClientId {
    spec_u32_from_le_bytes(data.subrange(1, 5))
}

/// The topic in bytes 5 to 36 of a packet.
pub open spec fn packet_topic(data: Seq<u8>) -> Seq<u8> {
    data.subrange(5, 37)
}

/// Whether a packet from `connection` may act for client `id`: trusted
/// connections may; others must be known, and a client may act only for
/// itself.
pub open spec fn may_act_for(v: LegacyView, connection: u128, id: ClientId, is_safe: bool) -> bool {
    is_safe || (v.owners.contains_key(connection) && (v.owners[connection] matches ConnectionOwner::Client(
        owner,
    ) ==> owner == id))
}

/// The tables after a disconnection and whether the broker stopped early:
/// a client with no known place, or whose place has no shard, keeps its
/// subscriptions.
pub open spec fn disconnect_tables(v: LegacyView, connection: u128) -> LegacyView {
    let (v1, owner) = spec_remove_by_co(v, connection);
    match owner {
        None => v1,
        Some(ConnectionOwner::Client(id)) => if v1.locations.contains_key(id)
            && v1.servers.contains_key(v1.locations[id]) {
            spec_unsubscribe_all(v1, connection).0
        } else {
            v1
        },
        Some(_) => spec_unsubscribe_all(v1, connection).0,
    }
}

/// Copies a slice into a topic of thirty-two bytes.
fn topic_from_slice(s: &[u8]) -> (r: Topic)
    requires
        s@.len() == 32,
    ensures
        r@ == s@,
{
    let mut topic = [0u8; 32];
    let mut i: usize = 0;
    while i < 32
        invariant
            s@.len() == 32,
            0 <= i <= 32,
            topic@.len() == 32,
            forall|j: int| 0 <= j < i ==> topic@[j] == s@[j],
        decreases 32 - i,
    {
        topic[i] = s[i];
        i = i + 1;
    }
    assert(topic@ =~= s@);
    topic
}

/// The tables after client `id` subscribes to `topic`, its connection
/// being known.
pub open spec fn subscribe_tables(v: LegacyView, id: ClientId, topic: Topic) -> LegacyView {
    if v.clients.contains_key(id) {
        LegacyView {
            subscriptions: push_to_list(v.subscriptions, v.clients[id], topic),
            subscribers: push_to_list(v.subscribers, topic, v.clients[id]),
            ..v
        }
    } else {
        v
    }
}

/// The kind of a packet; an empty packet counts as the catch-all.
pub open spec fn packet_kind(data: Seq<u8>) -> BrokerMessageHeaders {
    if data.len() == 0 {
        BrokerMessageHeaders::DiscardedMessageBecauseYouKnow
    } else {
        BrokerMessageHeaders::from_code(data[0])
    }
}

/// Whether a client-acting packet (subscribe, unsubscribe) is taken: long
/// enough for an id and a topic, and allowed to act for that id.
pub open spec fn acting_packet_ok(v: LegacyView, connection: u128, data: Seq<u8>, is_safe: bool) -> bool {
    data.len() >= 37 && may_act_for(v, connection, packet_client(data), is_safe)
}

/// Whether a hello carries a whole pseudonym: a length byte and that many
/// bytes.
pub open spec fn hello_ok(data: Seq<u8>) -> bool {
    data.len() >= 2 && data.len() - 2 >= data[1]
}

/// The tables after a packet.
pub open spec fn message_tables(v: LegacyView, connection: u128, data: Seq<u8>, is_safe: bool) -> LegacyView {
    match packet_kind(data) {
        BrokerMessageHeaders::Subscribe => if acting_packet_ok(v, connection, data, is_safe) {
            let id = packet_client(data);
            let t = array_from::<32>(packet_topic(data));
            let v1 = subscribe_tables(v, id, t);
            LegacyView { locations: v1.locations.insert(id, t), ..v1 }
        } else {
            v
        },
        BrokerMessageHeaders::Unsubscribe => if acting_packet_ok(v, connection, data, is_safe) {
            spec_unsubscribe_client(v, packet_client(data), array_from::<32>(packet_topic(data))).0
        } else {
            v
        },
        BrokerMessageHeaders::ClientHello => if hello_ok(data) {
            let id = (v.id_counter - 1) as ClientId;
            LegacyView {
                clients: v.clients.insert(id, connection),
                owners: v.owners.insert(connection, ConnectionOwner::Client(id)),
                id_counter: (v.id_counter + 1) as ClientId,
                ..v
            }
        } else {
            v
        },
        BrokerMessageHeaders::FriendHello => if is_safe && data.len() >= 2 {
            match BrokerFriends::from_code(data[1]) {
                Some(BrokerFriends::Server) => LegacyView {
                    owners: v.owners.insert(
                        connection,
                        ConnectionOwner::Shard(array_from::<32>(Seq::new(32, |i: int| 0u8))),
                    ),
                    servers: v.servers.insert(
                        array_from::<32>(Seq::new(32, |i: int| 0u8)),
                        connection,
                    ),
                    ..v
                },
                Some(BrokerFriends::Orchestrator) => if v.orchestrator is Some {
                    v
                } else {
                    LegacyView {
                        orchestrator: Some(connection),
                        owners: v.owners.insert(connection, ConnectionOwner::Orchestrator()),
                        ..v
                    }
                },
                Some(BrokerFriends::Spatial) => if v.spatial is Some {
                    v
                } else {
                    LegacyView {
                        spatial: Some(connection),
                        owners: v.owners.insert(connection, ConnectionOwner::Spatial()),
                        ..v
                    }
                },
                _ => v,
            }
        } else {
            v
        },
        _ => v,
    }
}

/// The shard a client input is forwarded to, if the input is taken: the
/// sender is the client it names, the client has a place, and a shard has
/// that place.
pub open spec fn input_target(v: LegacyView, connection: u128, data: Seq<u8>) -> Option<u128> {
    let id = packet_client(data);
    if data.len() >= 5 && v.owners.contains_key(connection) && v.owners[connection]
        == ConnectionOwner::Client(id) && v.locations.contains_key(id) && v.servers.contains_key(
        v.locations[id],
    ) {
        Some(v.servers[v.locations[id]])
    } else {
        None
    }
}

/// Whether the outcome of a packet is the one owed: the actions, the
/// pending spawn and whether the packet was refused.
pub open spec fn message_outcome(
    v: LegacyView,
    connection: u128,
    stream: StreamInfo,
    data: Seq<u8>,
    is_safe: bool,
    out: TickOutcome,
) -> bool {
    match packet_kind(data) {
        BrokerMessageHeaders::Subscribe | BrokerMessageHeaders::Unsubscribe => {
            &&& out.actions@.len() == 0
            &&& out.pending is None
            &&& out.discarded == !acting_packet_ok(v, connection, data, is_safe)
        },
        BrokerMessageHeaders::Publish => {
            &&& out.actions@.len() == 0
            &&& out.pending is None
            &&& out.discarded
        },
        BrokerMessageHeaders::ClientHello => if hello_ok(data) {
            let id = (v.id_counter - 1) as ClientId;
            &&& out.actions@.len() == 1
            &&& is_send(out.actions@[0], connection, stream, welcome_packet(id))
            &&& out.pending matches Some(p) && p.client_id == id && p.stream == stream
                && p.pseudo_len == data[1] && p.pseudo@ == data.subrange(2, 2 + data[1])
            &&& !out.discarded
        } else {
            &&& out.actions@.len() == 0
            &&& out.pending is None
            &&& out.discarded
        },
        BrokerMessageHeaders::ClientInput => {
            &&& out.pending is None
            &&& match input_target(v, connection, data) {
                Some(shard) => out.actions@.len() == 1 && is_send(
                    out.actions@[0],
                    shard,
                    stream,
                    data,
                ) && !out.discarded,
                None => out.actions@.len() == 0 && out.discarded == !(data.len() >= 5
                    && v.owners.contains_key(connection) && v.owners[connection]
                    == ConnectionOwner::Client(packet_client(data)) && v.locations.contains_key(
                    packet_client(data),
                )),
            }
        },
        BrokerMessageHeaders::Heartbeat => {
            &&& out.pending is None
            &&& if is_safe && v.orchestrator is Some {
                out.actions@.len() == 1 && is_send(
                    out.actions@[0],
                    v.orchestrator->0,
                    stream,
                    data,
                ) && !out.discarded
            } else {
                out.actions@.len() == 0 && out.discarded
            }
        },
        BrokerMessageHeaders::FriendHello => {
            &&& out.actions@.len() == 0
            &&& out.pending is None
            &&& out.discarded == !(is_safe && data.len() >= 2 && BrokerFriends::from_code(data[1]) is Some)
        },
        _ => {
            &&& out.actions@.len() == 0
            &&& out.pending is None
            &&& !out.discarded
        },
    }
}

/// The broker's tables and actions are well defined for the event: the
/// spatial server and the orchestrator never go away, and the client ids
/// neither run out nor wrap.
pub open spec fn tick_defined(v: LegacyView, event: LegacyEvent) -> bool {
    &&& 0 < v.id_counter < ClientId::MAX
    &&& (event matches LegacyEvent::Disconnected { connection } ==> !(v.owners.contains_key(connection)
        && (v.owners[connection] is Spatial || v.owners[connection] is Orchestrator)))
}

/// Appending an absent item to a list and removing its first occurrence
/// gives back the list.
proof fn lemma_push_then_remove<X>(s: Seq<X>, x: X)
    requires
        !s.contains(x),
    ensures
        swap_remove_first(s.push(x), x) == s,
        s.push(x).index_of_first(x) is Some,
{
    let p = s.push(x);
    p.index_of_first_ensures(x);
    assert(p[s.len() as int] == x);
    match p.index_of_first(x) {
        Some(i) => {
            if i < s.len() {
                assert(s[i] == x);
            }
            assert(i == s.len());
            assert(p.update(i, p.last()).drop_last() =~= s);
        },
        None => {},
    }
}

/// A client that did not listen to a topic, unsubscribed right after
/// subscribing to it, leaves the subscription tables as they were, the
/// unsubscription succeeding (when no empty list was kept for its connection
/// or for the topic).
pub proof fn lemma_unsubscribe_client_undoes_subscribe(v: LegacyView, id: ClientId, topic: Topic)
    requires
        v.clients.contains_key(id),
        !list_of(v.subscriptions, v.clients[id]).contains(topic),
        !list_of(v.subscribers, topic).contains(v.clients[id]),
        v.subscriptions.contains_key(v.clients[id]) ==> v.subscriptions[v.clients[id]].len() > 0,
        v.subscribers.contains_key(topic) ==> v.subscribers[topic].len() > 0,
    ensures
        spec_unsubscribe_client(subscribe_tables(v, id, topic), id, topic) == (v, true),
{
    let co = v.clients[id];
    lemma_push_then_remove(list_of(v.subscriptions, co), topic);
    lemma_push_then_remove(list_of(v.subscribers, topic), co);
    let w = subscribe_tables(v, id, topic);
    assert(put_list(w.subscriptions, co, swap_remove_first(w.subscriptions[co], topic))
        =~= v.subscriptions);
    assert(put_list(w.subscribers, topic, swap_remove_first(w.subscribers[topic], co))
        =~= v.subscribers);
}

/// A packet made of a kind byte, a client id, and more bytes.
fn packet(header: BrokerMessageHeaders, id: ClientId, tail: &[u8]) -> (r: Bytes)
    ensures
        bytes_contents(r) == seq![header.code()] + spec_u32_to_le_bytes(id) + tail@,
{
    let mut v: Vec<u8> = Vec::new();
    v.push(header.as_u8());
    let idb = u32_to_le_bytes(id);
    v.push(idb[0]);
    v.push(idb[1]);
    v.push(idb[2]);
    v.push(idb[3]);
    let n = tail.len();
    let mut i: usize = 0;
    while i < n
        invariant
            n == tail@.len(),
            0 <= i <= n,
            idb@ == spec_u32_to_le_bytes(id),
            idb@.len() == 4,
            v@ == seq![header.code()] + idb@ + tail@.take(i as int),
        decreases n - i,
    {
        v.push(tail[i]);
        i = i + 1;
        assert(v@ =~= seq![header.code()] + idb@ + tail@.take(i as int));
    }
    assert(tail@.take(n as int) =~= tail@);
    assert(v@ =~= seq![header.code()] + spec_u32_to_le_bytes(id) + tail@);
    bytes_from_vec(v)
}

impl BrokerState {
    /// A connection went away: its owner is forgotten; for a client, the
    /// shard simulating it is told (on the unreliable handshake stream);
    /// then the connection's subscriptions are dropped.  The broker stops
    /// early for a client with no known place or no shard there.
    fn on_disconnect(&mut self, connection: u128) -> (r: Vec<LegacyAction>)
        requires
            old(self).wf(),
            !(old(self).view().owners.contains_key(connection) && (old(self).view().owners[connection] is Spatial
                || old(self).view().owners[connection] is Orchestrator)),
        ensures
            final(self).wf(),
            final(self).view() == disconnect_tables(old(self).view(), connection),
            ({
                let (v1, owner) = spec_remove_by_co(old(self).view(), connection);
                match owner {
                    Some(ConnectionOwner::Client(id)) => if v1.locations.contains_key(id)
                        && v1.servers.contains_key(v1.locations[id]) {
                        r@.len() == 1 && is_send(
                            r@[0],
                            v1.servers[v1.locations[id]],
                            handshake_unreliable(),
                            disconnect_packet(id),
                        )
                    } else {
                        r@.len() == 0
                    },
                    _ => r@.len() == 0,
                }
            }),
    {
        let mut actions: Vec<LegacyAction> = Vec::new();
        match self.remove_by_co(&connection) {
            Some(ConnectionOwner::Client(client_id)) => {
                let location = match self.get_client_authoritative_location(client_id) {
                    Some(t) => *t,
                    None => {
                        return actions;
                    },
                };
                let shard = match self.get_by_server_id(&location) {
                    Some(c) => *c,
                    None => {
                        return actions;
                    },
                };
                let no_tail: [u8; 0] = [];
                let data = packet(BrokerMessageHeaders::ClientDisconnect, client_id, &no_tail);
                assert(no_tail@ =~= Seq::<u8>::empty());
                assert(bytes_contents(data) =~= disconnect_packet(client_id));
                actions.push(
                    LegacyAction::Send {
                        connection: shard,
                        stream: StreamInfo { stream_id: STREAM_HANDSHAKE, reliable: false },
                        data,
                    },
                );
                self.unsubscribe_connexion_all(connection);
                actions
            },
            Some(_) => {
                self.unsubscribe_connexion_all(connection);
                actions
            },
            None => actions,
        }
    }
    /// Subscribes or unsubscribes the client a packet names, when the
    /// sender may act for it.
    fn on_acting_packet(&mut self, connection: u128, data: &[u8], is_safe: bool, subscribe: bool) -> (r: bool)
        requires
            old(self).wf(),
            data@.len() > 0,
        ensures
            final(self).wf(),
            r == acting_packet_ok(old(self).view(), connection, data@, is_safe),
            final(self).view() == (if !r {
                old(self).view()
            } else if subscribe {
                LegacyView {
                    locations: subscribe_tables(
                        old(self).view(),
                        packet_client(data@),
                        array_from::<32>(packet_topic(data@)),
                    ).locations.insert(packet_client(data@), array_from::<32>(packet_topic(data@))),
                    ..subscribe_tables(
                        old(self).view(),
                        packet_client(data@),
                        array_from::<32>(packet_topic(data@)),
                    )
                }
            } else {
                spec_unsubscribe_client(
                    old(self).view(),
                    packet_client(data@),
                    array_from::<32>(packet_topic(data@)),
                ).0
            }),
    {
        if data.len() < 5 {
            return false;
        }
        let client_id = u32_from_le_bytes(slice_subrange(data, 1, 5));
        if !is_safe {
            match self.get_owner_by_co(&connection) {
                Some(ConnectionOwner::Client(owner)) => {
                    if *owner != client_id {
                        return false;
                    }
                },
                Some(_) => {},
                None => {
                    return false;
                },
            }
        }
        if data.len() < 37 {
            return false;
        }
        let topic = topic_from_slice(slice_subrange(data, 5, 37));
        proof {
            lemma_array_from::<32>(packet_topic(data@));
        }
        if subscribe {
            self.subscribe_client(client_id, topic);
            self.set_client_authoritative_location(client_id, topic);
        } else {
            self.unsubscribe_client(client_id, topic);
        }
        true
    }

    /// Hands a welcomed client to a shard: the client listens to the shard's
    /// topic, is placed there, and the shard is asked to spawn it.  Nothing
    /// happens when no shard is known.
    pub fn after_welcome(&mut self, pending: PendingSpawn) -> (r: Vec<LegacyAction>)
        requires
            old(self).wf(),
        ensures
            final(self).wf(),
            old(self).view().servers.dom() == Set::<Topic>::empty() ==> final(self).view()
                == old(self).view() && r@.len() == 0,
            old(self).view().servers.dom() != Set::<Topic>::empty() ==> exists|t: Topic|
                {
                    &&& #[trigger] old(self).view().servers.contains_key(t)
                    &&& final(self).view() == (LegacyView {
                        locations: subscribe_tables(
                            old(self).view(),
                            pending.client_id,
                            t,
                        ).locations.insert(pending.client_id, t),
                        ..subscribe_tables(old(self).view(), pending.client_id, t)
                    })
                    &&& r@.len() == 1
                    &&& is_send(
                        r@[0],
                        old(self).view().servers[t],
                        pending.stream,
                        spawn_packet(pending.client_id, pending.pseudo_len, pending.pseudo@),
                    )
                },
    {
        let mut actions: Vec<LegacyAction> = Vec::new();
        let topic_choosen = match self.get_random_server_id() {
            Some(t) => t,
            None => {
                return actions;
            },
        };
        let ghost v0 = self.view();
        let mut tail: Vec<u8> = Vec::new();
        tail.push(pending.pseudo_len);
        let n = pending.pseudo.len();
        let mut i: usize = 0;
        while i < n
            invariant
                n == pending.pseudo@.len(),
                0 <= i <= n,
                tail@ == seq![pending.pseudo_len] + pending.pseudo@.take(i as int),
            decreases n - i,
        {
            tail.push(pending.pseudo[i]);
            i = i + 1;
            assert(tail@ =~= seq![pending.pseudo_len] + pending.pseudo@.take(i as int));
        }
        assert(pending.pseudo@.take(n as int) =~= pending.pseudo@);
        let data = packet(BrokerMessageHeaders::SpawnClient, pending.client_id, tail.as_slice());
        assert(bytes_contents(data) =~= spawn_packet(
            pending.client_id,
            pending.pseudo_len,
            pending.pseudo@,
        ));
        self.subscribe_client(pending.client_id, topic_choosen);
        self.set_client_authoritative_location(pending.client_id, topic_choosen);
        let shard = match self.get_by_server_id(&topic_choosen) {
            Some(c) => *c,
            None => {
                return actions;
            },
        };
        actions.push(LegacyAction::Send { connection: shard, stream: pending.stream, data });
        assert(old(self).view().servers.contains_key(topic_choosen));
        actions
    }

    /// What the broker does with a packet from `connection` (trusted when
    /// `is_safe`): see `message_tables` and `message_outcome`.
    fn on_message(&mut self, connection: u128, stream: StreamInfo, data: Bytes, is_safe: bool) -> (r: TickOutcome)
        requires
            old(self).wf(),
            0 < old(self).view().id_counter < ClientId::MAX,
        ensures
            final(self).wf(),
            final(self).view() == message_tables(old(self).view(), connection, bytes_contents(data), is_safe),
            message_outcome(old(self).view(), connection, stream, bytes_contents(data), is_safe, r),
    {
        let bytes = bytes_as_slice(&data);
        let mut actions: Vec<LegacyAction> = Vec::new();
        let header = if bytes.len() == 0 {
            BrokerMessageHeaders::DiscardedMessageBecauseYouKnow
        } else {
            BrokerMessageHeaders::from_u8(bytes[0])
        };
        match header {
            BrokerMessageHeaders::Subscribe => {
                let ok = self.on_acting_packet(connection, bytes, is_safe, true);
                TickOutcome { actions, pending: None, discarded: !ok }
            },
            BrokerMessageHeaders::Unsubscribe => {
                let ok = self.on_acting_packet(connection, bytes, is_safe, false);
                TickOutcome { actions, pending: None, discarded: !ok }
            },
            BrokerMessageHeaders::Publish => {
                TickOutcome { actions, pending: None, discarded: true }
            },
            BrokerMessageHeaders::ClientHello => {
                if bytes.len() < 2 {
                    return TickOutcome { actions, pending: None, discarded: true };
                }
                let pseudo_len = bytes[1];
                if bytes.len() - 2 < pseudo_len as usize {
                    return TickOutcome { actions, pending: None, discarded: true };
                }
                let pseudo_slice = slice_subrange(bytes, 2, 2 + pseudo_len as usize);
                let mut pseudo: Vec<u8> = Vec::new();
                let n = pseudo_slice.len();
                let mut i: usize = 0;
                while i < n
                    invariant
                        n == pseudo_slice@.len(),
                        0 <= i <= n,
                        pseudo@ == pseudo_slice@.take(i as int),
                    decreases n - i,
                {
                    pseudo.push(pseudo_slice[i]);
                    i = i + 1;
                    assert(pseudo@ =~= pseudo_slice@.take(i as int));
                }
                assert(pseudo_slice@.take(n as int) =~= pseudo_slice@);
                let client_id = self.add_client(connection);
                let no_tail: [u8; 0] = [];
                let welcome = packet(BrokerMessageHeaders::ClientWelcome, client_id, &no_tail);
                assert(no_tail@ =~= Seq::<u8>::empty());
                assert(bytes_contents(welcome) =~= welcome_packet(client_id));
                actions.push(LegacyAction::Send { connection, stream, data: welcome });
                TickOutcome {
                    actions,
                    pending: Some(PendingSpawn { client_id, stream, pseudo_len, pseudo }),
                    discarded: false,
                }
            },
            BrokerMessageHeaders::ClientInput => {
                if bytes.len() < 5 {
                    return TickOutcome { actions, pending: None, discarded: true };
                }
                let client_id = u32_from_le_bytes(slice_subrange(bytes, 1, 5));
                match self.get_client_by_co(&connection) {
                    Some(owner) => {
                        if *owner != client_id {
                            return TickOutcome { actions, pending: None, discarded: true };
                        }
                    },
                    None => {
                        return TickOutcome { actions, pending: None, discarded: true };
                    },
                }
                let topic = match self.get_client_authoritative_location(client_id) {
                    Some(t) => *t,
                    None => {
                        return TickOutcome { actions, pending: None, discarded: true };
                    },
                };
                match self.get_by_server_id(&topic) {
                    Some(shard) => {
                        actions.push(
                            LegacyAction::Send { connection: *shard, stream, data: data.clone() },
                        );
                    },
                    None => {},
                }
                TickOutcome { actions, pending: None, discarded: false }
            },
            BrokerMessageHeaders::Heartbeat => {
                if !is_safe {
                    return TickOutcome { actions, pending: None, discarded: true };
                }
                match *self.get_orchestrator_co() {
                    Some(orchestrator) => {
                        actions.push(
                            LegacyAction::Send { connection: orchestrator, stream, data: data.clone() },
                        );
                        TickOutcome { actions, pending: None, discarded: false }
                    },
                    None => TickOutcome { actions, pending: None, discarded: true },
                }
            },
            BrokerMessageHeaders::FriendHello => {
                if !is_safe || bytes.len() < 2 {
                    return TickOutcome { actions, pending: None, discarded: true };
                }
                match BrokerFriends::try_from(bytes[1]) {
                    Some(BrokerFriends::Server) => {
                        let default_topic = [0u8; 32];
                        proof {
                            lemma_array_from::<32>(Seq::new(32, |i: int| 0u8));
                            assert(default_topic@ =~= Seq::new(32, |i: int| 0u8));
                        }
                        self.add_server(default_topic, connection);
                    },
                    Some(BrokerFriends::Orchestrator) => {
                        self.add_orchestrator(connection);
                    },
                    Some(BrokerFriends::Spatial) => {
                        self.add_spatial_server(connection);
                    },
                    Some(_) => {},
                    None => {
                        return TickOutcome { actions, pending: None, discarded: true };
                    },
                }
                TickOutcome { actions, pending: None, discarded: false }
            },
            _ => TickOutcome { actions, pending: None, discarded: false },
        }
    }

    /// What the first broker does on one event; `is_safe` tells whether the
    /// event came on the trusted side.  A new connection gets the reliable
    /// handshake stream; a lost one is handled by `on_disconnect`; a packet
    /// by `on_message`.
    pub fn broker_tick(&mut self, event: LegacyEvent, is_safe: bool) -> (r: TickOutcome)
        requires
            old(self).wf(),
            tick_defined(old(self).view(), event),
        ensures
            final(self).wf(),
            match event {
                LegacyEvent::Connected { connection } => {
                    &&& final(self).view() == old(self).view()
                    &&& r.actions@.len() == 1
                    &&& r.actions@[0] == LegacyAction::CreateHandshakeStream { connection }
                    &&& r.pending is None
                    &&& !r.discarded
                },
                LegacyEvent::Disconnected { connection } => {
                    &&& final(self).view() == disconnect_tables(old(self).view(), connection)
                    &&& r.pending is None
                    &&& !r.discarded
                    &&& ({
                        let (v1, owner) = spec_remove_by_co(old(self).view(), connection);
                        match owner {
                            Some(ConnectionOwner::Client(id)) => if v1.locations.contains_key(id)
                                && v1.servers.contains_key(v1.locations[id]) {
                                r.actions@.len() == 1 && is_send(
                                    r.actions@[0],
                                    v1.servers[v1.locations[id]],
                                    handshake_unreliable(),
                                    disconnect_packet(id),
                                )
                            } else {
                                r.actions@.len() == 0
                            },
                            _ => r.actions@.len() == 0,
                        }
                    })
                },
                LegacyEvent::Message { connection, stream, data } => {
                    &&& final(self).view() == message_tables(
                        old(self).view(),
                        connection,
                        bytes_contents(data),
                        is_safe,
                    )
                    &&& message_outcome(
                        old(self).view(),
                        connection,
                        stream,
                        bytes_contents(data),
                        is_safe,
                        r,
                    )
                },
                LegacyEvent::Other => {
                    &&& final(self).view() == old(self).view()
                    &&& r.actions@.len() == 0
                    &&& r.pending is None
                    &&& !r.discarded
                },
            },
    {
        match event {
            LegacyEvent::Disconnected { connection } => {
                let actions = self.on_disconnect(connection);
                TickOutcome { actions, pending: None, discarded: false }
            },
            LegacyEvent::Connected { connection } => {
                let mut actions: Vec<LegacyAction> = Vec::new();
                actions.push(LegacyAction::CreateHandshakeStream { connection });
                TickOutcome { actions, pending: None, discarded: false }
            },
            LegacyEvent::Message { connection, stream, data } => {
                self.on_message(connection, stream, data, is_safe)
            },
            LegacyEvent::Other => TickOutcome { actions: Vec::new(), pending: None, discarded: false },
        }
    }
}

} // verus!
