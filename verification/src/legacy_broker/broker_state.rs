//! The tables of the first broker: who owns each connection, which topics
//! each connection listens to, and where each client is simulated.
use crate::collections::FastMap;
use crate::shared_replication::broker_topics::Topic;
use vstd::prelude::*;

verus! {

/// The id of a client.
pub type ClientId = u32;

/// Who is at the other end of a connection.
#[derive(Debug, Clone, Copy, PartialEq, Eq, Hash)]
pub enum ConnectionOwner {
    Client(ClientId),
    /// A shard, known by its topic.
    Shard(Topic),
    Orchestrator(),
    Spatial(),
}

/// Hands out client ids.
#[derive(Debug, Clone, Copy)]
pub struct ClientIdGenerator {
    next_id: ClientId,
}

impl ClientIdGenerator {
    /// The counter behind the ids.
    pub closed spec fn counter(self) -> ClientId {
        self.next_id
    }

    /// A generator whose counter starts at 1, so that the first id is 0.
    pub fn new() -> (r: Self)
        ensures
            r.counter() == 1,
    {
        ClientIdGenerator { next_id: 1 }
    }

    /// Hands out the id one below the counter and moves the counter up; the
    /// counter neither wraps nor goes below 1.
    pub fn next(&mut self) -> (r: ClientId)
        requires
            0 < old(self).counter() < ClientId::MAX,
        ensures
            r == old(self).counter() - 1,
            final(self).counter() == old(self).counter() + 1,
    {
        let id = self.next_id;
        self.next_id = self.next_id + 1;
        id - 1
    }
}

/// The members of the list under `k`, or none.
pub open spec fn list_of<K, X>(m: Map<K, Seq<X>>, k: K) -> Seq<X> {
    if m.contains_key(k) {
        m[k]
    } else {
        Seq::empty()
    }
}

/// `s` after removing the first `x`, the last item taking its place.
pub open spec fn swap_remove_first<X>(s: Seq<X>, x: X) -> Seq<X> {
    match s.index_of_first(x) {
        Some(i) => s.update(i, s.last()).drop_last(),
        None => s,
    }
}

/// The tables as maps.
pub ghost struct LegacyView {
    /// The topics each connection listens to, in order, repeats possible.
    pub subscriptions: Map<u128, Seq<Topic>>,
    /// The connections listening to each topic.
    pub subscribers: Map<Topic, Seq<u128>>,
    /// Where each client is simulated.
    pub locations: Map<ClientId, Topic>,
    pub owners: Map<u128, ConnectionOwner>,
    pub clients: Map<ClientId, u128>,
    pub servers: Map<Topic, u128>,
    pub spatial: Option<u128>,
    pub orchestrator: Option<u128>,
    pub id_counter: ClientId,
}

/// `m` after appending `x` to the list under `k`, the list being made if
/// absent.
pub open spec fn push_to_list<K, X>(m: Map<K, Seq<X>>, k: K, x: X) -> Map<K, Seq<X>> {
    m.insert(k, list_of(m, k).push(x))
}

/// `m` with the list under `k` set to `s`, or dropped when `s` is empty.
pub open spec fn put_list<K, X>(m: Map<K, Seq<X>>, k: K, s: Seq<X>) -> Map<K, Seq<X>> {
    if s.len() == 0 {
        m.remove(k)
    } else {
        m.insert(k, s)
    }
}

/// Whether the list under `k` holds `x`.
pub open spec fn listed<K, X>(m: Map<K, Seq<X>>, k: K, x: X) -> bool {
    m.contains_key(k) && m[k].index_of_first(x) is Some
}

/// The subscribers after removing `connection` from the lists of `topics`,
/// one after the other, lists left empty being dropped; the walk stops, and
/// reports failure, at the first list that is missing or lacks it.
pub open spec fn drop_from_lists(m: Map<Topic, Seq<u128>>, connection: u128, topics: Seq<Topic>) -> (Map<Topic, Seq<u128>>, bool)
    decreases topics.len(),
{
    if topics.len() == 0 {
        (m, true)
    } else if !listed(m, topics[0], connection) {
        (m, false)
    } else {
        drop_from_lists(
            put_list(m, topics[0], swap_remove_first(m[topics[0]], connection)),
            connection,
            topics.drop_first(),
        )
    }
}

/// The tables and the outcome after client `id` unsubscribes from `topic`:
/// its connection's list loses the topic (the list dropped if left empty),
/// then the topic's list loses the connection (likewise); the walk stops at
/// the first missing piece, with what was done kept.
pub open spec fn spec_unsubscribe_client(v: LegacyView, id: ClientId, topic: Topic) -> (LegacyView, bool) {
    if !v.clients.contains_key(id) || !listed(v.subscriptions, v.clients[id], topic) {
        (v, false)
    } else {
        let co = v.clients[id];
        let v1 = LegacyView {
            subscriptions: put_list(
                v.subscriptions,
                co,
                swap_remove_first(v.subscriptions[co], topic),
            ),
            ..v
        };
        if !listed(v.subscribers, topic, co) {
            (v1, false)
        } else {
            (
                LegacyView {
                    subscribers: put_list(
                        v.subscribers,
                        topic,
                        swap_remove_first(v.subscribers[topic], co),
                    ),
                    ..v1
                },
                true,
            )
        }
    }
}

/// The tables and the outcome after `connection` stops listening to
/// `topic`: both lists lose one entry, and lists are kept even when empty;
/// the walk stops at the first missing piece, with what was done kept.
pub open spec fn spec_unsubscribe_connexion_from(v: LegacyView, connection: u128, topic: Topic) -> (LegacyView, bool) {
    if !listed(v.subscriptions, connection, topic) {
        (v, false)
    } else {
        let v1 = LegacyView {
            subscriptions: v.subscriptions.insert(
                connection,
                swap_remove_first(v.subscriptions[connection], topic),
            ),
            ..v
        };
        if !listed(v.subscribers, topic, connection) {
            (v1, false)
        } else {
            (
                LegacyView {
                    subscribers: v.subscribers.insert(
                        topic,
                        swap_remove_first(v.subscribers[topic], connection),
                    ),
                    ..v1
                },
                true,
            )
        }
    }
}

/// The tables and the outcome after `connection` stops listening to
/// everything: its list is dropped and it leaves the list of each of its
/// topics in turn (see `drop_from_lists`).
pub open spec fn spec_unsubscribe_all(v: LegacyView, connection: u128) -> (LegacyView, bool) {
    if !v.subscriptions.contains_key(connection) {
        (v, false)
    } else {
        let (subscribers, ok) = drop_from_lists(
            v.subscribers,
            connection,
            v.subscriptions[connection],
        );
        (
            LegacyView {
                subscriptions: v.subscriptions.remove(connection),
                subscribers,
                ..v
            },
            ok,
        )
    }
}

/// The tables after a connection goes away, and who owned it.
pub open spec fn spec_remove_by_co(v: LegacyView, connection: u128) -> (LegacyView, Option<ConnectionOwner>) {
    if !v.owners.contains_key(connection) {
        (v, None)
    } else {
        let owners = v.owners.remove(connection);
        let owner = v.owners[connection];
        (
            match owner {
                ConnectionOwner::Shard(t) => LegacyView {
                    owners,
                    servers: v.servers.remove(t),
                    ..v
                },
                ConnectionOwner::Client(id) => LegacyView {
                    owners,
                    clients: v.clients.remove(id),
                    ..v
                },
                ConnectionOwner::Spatial() => LegacyView { owners, spatial: None, ..v },
                ConnectionOwner::Orchestrator() => LegacyView { owners, ..v },
            },
            Some(owner),
        )
    }
}

/// How many times `x` is listed under `k`.
pub open spec fn occurrences<K, X>(m: Map<K, Seq<X>>, k: K, x: X) -> nat {
    list_of(m, k).to_multiset().count(x)
}

/// The two subscription tables mirror each other: a connection is listed
/// under a topic as many times as the topic is listed under the connection.
pub open spec fn tables_mirror(v: LegacyView) -> bool {
    forall|c: u128, t: Topic|
        #![trigger occurrences(v.subscriptions, c, t)]
        #![trigger occurrences(v.subscribers, t, c)]
        occurrences(v.subscriptions, c, t) == occurrences(v.subscribers, t, c)
}

/// A list holds `x` exactly when `x` occurs in it.
proof fn lemma_listed_occurs<K, X>(m: Map<K, Seq<X>>, k: K, x: X)
    ensures
        listed(m, k, x) <==> occurrences(m, k, x) > 0,
{
    vstd::seq_lib::to_multiset_contains(list_of(m, k), x);
    if m.contains_key(k) {
        m[k].index_of_first_ensures(x);
    } else {
        assert(!list_of(m, k).contains(x));
    }
}

/// Appending adds one occurrence of the item under its key.
proof fn lemma_push_occurs<K, X>(m: Map<K, Seq<X>>, k: K, x: X, k2: K, y: X)
    ensures
        occurrences(push_to_list(m, k, x), k2, y) == occurrences(m, k2, y) + (if k2 == k && y
            == x {
            1int
        } else {
            0int
        }),
{
    broadcast use vstd::multiset::group_multiset_axioms;

    vstd::seq_lib::to_multiset_build(list_of(m, k), x);
}

/// Removing the first `x` removes one occurrence of `x`.
proof fn lemma_swap_remove_occurs<X>(s: Seq<X>, x: X)
    requires
        s.index_of_first(x) is Some,
    ensures
        swap_remove_first(s, x).to_multiset() == s.to_multiset().remove(x),
{
    broadcast use vstd::multiset::group_multiset_axioms;

    s.index_of_first_ensures(x);
    let i = s.index_of_first(x).unwrap();
    let u = s.update(i, s.last());
    vstd::seq_lib::to_multiset_update(s, i, s.last());
    assert(u.drop_last() =~= u.remove(u.len() - 1));
    vstd::seq_lib::to_multiset_remove(u, u.len() - 1);
    assert(u[u.len() - 1] == s.last());
    assert(swap_remove_first(s, x) == u.drop_last());
    assert(u.drop_last().to_multiset() =~= s.to_multiset().remove(x));
}

/// Setting the list under `k` to `s` (dropped or kept when empty) gives
/// `k` the occurrences of `s`.
proof fn lemma_put_occurs<K, X>(m: Map<K, Seq<X>>, k: K, s: Seq<X>, k2: K, y: X)
    ensures
        occurrences(put_list(m, k, s), k2, y) == (if k2 == k {
            s.to_multiset().count(y)
        } else {
            occurrences(m, k2, y)
        }),
        occurrences(m.insert(k, s), k2, y) == (if k2 == k {
            s.to_multiset().count(y)
        } else {
            occurrences(m, k2, y)
        }),
{
    if s.len() == 0 {
        assert(s =~= Seq::<X>::empty());
    }
}

/// Removing a connection from the lists of `topics`, when each list holds it
/// at least as often as the topic occurs in `topics`, succeeds and takes
/// exactly those occurrences away.
proof fn lemma_drop_from_lists(m: Map<Topic, Seq<u128>>, c: u128, topics: Seq<Topic>)
    requires
        forall|t: Topic| #[trigger] occurrences(m, t, c) >= topics.to_multiset().count(t),
    ensures
        drop_from_lists(m, c, topics).1,
        forall|t: Topic|
            #[trigger] occurrences(drop_from_lists(m, c, topics).0, t, c) == occurrences(m, t, c)
                - topics.to_multiset().count(t),
        forall|t: Topic, c2: u128|
            c2 != c ==> #[trigger] occurrences(drop_from_lists(m, c, topics).0, t, c2)
                == occurrences(m, t, c2),
    decreases topics.len(),
{
    broadcast use vstd::multiset::group_multiset_axioms;

    if topics.len() == 0 {
        assert forall|t: Topic| topics.to_multiset().count(t) == 0 by {
            vstd::seq_lib::to_multiset_contains(topics, t);
        }
    } else {
        let t0 = topics[0];
        let rest = topics.drop_first();
        assert(topics.remove(0) =~= rest);
        vstd::seq_lib::to_multiset_remove(topics, 0);
        vstd::seq_lib::to_multiset_contains(topics, t0);
        assert(topics.contains(t0));
        assert(occurrences(m, t0, c) >= 1);
        lemma_listed_occurs(m, t0, c);
        let m1 = put_list(m, t0, swap_remove_first(m[t0], c));
        lemma_swap_remove_occurs(m[t0], c);
        assert forall|t: Topic| #[trigger] occurrences(m1, t, c) >= rest.to_multiset().count(t) by {
            lemma_put_occurs(m, t0, swap_remove_first(m[t0], c), t, c);
        }
        lemma_drop_from_lists(m1, c, rest);
        assert forall|t: Topic|
            #[trigger] occurrences(drop_from_lists(m, c, topics).0, t, c) == occurrences(m, t, c)
                - topics.to_multiset().count(t) by {
            lemma_put_occurs(m, t0, swap_remove_first(m[t0], c), t, c);
        }
        assert forall|t: Topic, c2: u128|
            c2 != c implies #[trigger] occurrences(drop_from_lists(m, c, topics).0, t, c2)
                == occurrences(m, t, c2) by {
            lemma_put_occurs(m, t0, swap_remove_first(m[t0], c), t, c2);
        }
    }
}

/// Listing a connection under a topic and the topic under the connection
/// keeps the tables mirrored.
proof fn lemma_mirror_push(v: LegacyView, c: u128, t: Topic)
    requires
        tables_mirror(v),
    ensures
        tables_mirror(
            LegacyView {
                subscriptions: push_to_list(v.subscriptions, c, t),
                subscribers: push_to_list(v.subscribers, t, c),
                ..v
            },
        ),
{
    assert forall|c2: u128, t2: Topic|
        occurrences(push_to_list(v.subscriptions, c, t), c2, t2) == occurrences(
            push_to_list(v.subscribers, t, c),
            t2,
            c2,
        ) by {
        lemma_push_occurs(v.subscriptions, c, t, c2, t2);
        lemma_push_occurs(v.subscribers, t, c, t2, c2);
        assert(occurrences(v.subscriptions, c2, t2) == occurrences(v.subscribers, t2, c2));
    }
}

/// In mirrored tables, a connection that lists a topic is listed under it,
/// and removing one occurrence from both lists keeps them mirrored, the
/// emptied lists being dropped or kept alike.
proof fn lemma_mirror_remove(v: LegacyView, c: u128, t: Topic, drop_empty: bool)
    requires
        tables_mirror(v),
        listed(v.subscriptions, c, t),
    ensures
        listed(v.subscribers, t, c),
        ({
            let subs = swap_remove_first(v.subscriptions[c], t);
            let lis = swap_remove_first(v.subscribers[t], c);
            tables_mirror(
                LegacyView {
                    subscriptions: if drop_empty {
                        put_list(v.subscriptions, c, subs)
                    } else {
                        v.subscriptions.insert(c, subs)
                    },
                    subscribers: if drop_empty {
                        put_list(v.subscribers, t, lis)
                    } else {
                        v.subscribers.insert(t, lis)
                    },
                    ..v
                },
            )
        }),
{
    broadcast use vstd::multiset::group_multiset_axioms;

    lemma_listed_occurs(v.subscriptions, c, t);
    assert(occurrences(v.subscriptions, c, t) == occurrences(v.subscribers, t, c));
    lemma_listed_occurs(v.subscribers, t, c);
    let subs = swap_remove_first(v.subscriptions[c], t);
    let lis = swap_remove_first(v.subscribers[t], c);
    lemma_swap_remove_occurs(v.subscriptions[c], t);
    lemma_swap_remove_occurs(v.subscribers[t], c);
    let s1 = if drop_empty {
        put_list(v.subscriptions, c, subs)
    } else {
        v.subscriptions.insert(c, subs)
    };
    let l1 = if drop_empty {
        put_list(v.subscribers, t, lis)
    } else {
        v.subscribers.insert(t, lis)
    };
    assert forall|c2: u128, t2: Topic| occurrences(s1, c2, t2) == occurrences(l1, t2, c2) by {
        lemma_put_occurs(v.subscriptions, c, subs, c2, t2);
        lemma_put_occurs(v.subscribers, t, lis, t2, c2);
        assert(occurrences(v.subscriptions, c2, t2) == occurrences(v.subscribers, t2, c2));
    }
    assert(tables_mirror(LegacyView { subscriptions: s1, subscribers: l1, ..v }));
}

/// In mirrored tables, a connection stops listening to everything at once:
/// the walk succeeds and the tables stay mirrored.
proof fn lemma_mirror_unsubscribe_all(v: LegacyView, c: u128)
    requires
        tables_mirror(v),
        v.subscriptions.contains_key(c),
    ensures
        spec_unsubscribe_all(v, c).1,
        tables_mirror(spec_unsubscribe_all(v, c).0),
{
    let ts = v.subscriptions[c];
    assert forall|t: Topic| #[trigger] occurrences(v.subscribers, t, c) >= ts.to_multiset().count(t) by {
        assert(occurrences(v.subscriptions, c, t) == occurrences(v.subscribers, t, c));
    }
    lemma_drop_from_lists(v.subscribers, c, ts);
    let w = spec_unsubscribe_all(v, c).0;
    assert forall|c2: u128, t2: Topic|
        occurrences(w.subscriptions, c2, t2) == occurrences(w.subscribers, t2, c2) by {
        assert(occurrences(v.subscriptions, c2, t2) == occurrences(v.subscribers, t2, c2));
        if c2 == c {
            assert(list_of(w.subscriptions, c2) =~= Seq::<Topic>::empty());
            vstd::seq_lib::to_multiset_contains(Seq::<Topic>::empty(), t2);
        }
    }
}

/// The tables after `connection` subscribes to `topic`: unchanged when it
/// already listens to it, else each list gains the other.
pub open spec fn spec_subscribe_connexion(v: LegacyView, connection: u128, topic: Topic) -> LegacyView {
    if list_of(v.subscriptions, connection).contains(topic) {
        v
    } else {
        LegacyView {
            subscriptions: push_to_list(v.subscriptions, connection, topic),
            subscribers: push_to_list(v.subscribers, topic, connection),
            ..v
        }
    }
}

/// After a connection subscribes to a topic, the connection lists the topic
/// and the topic lists the connection, the tables still mirror each other,
/// and subscribing again changes nothing.
pub proof fn lemma_subscribe_connexion_lists(v: LegacyView, connection: u128, topic: Topic)
    requires
        tables_mirror(v),
    ensures
        ({
            let w = spec_subscribe_connexion(v, connection, topic);
            &&& listed(w.subscriptions, connection, topic)
            &&& listed(w.subscribers, topic, connection)
            &&& tables_mirror(w)
            &&& spec_subscribe_connexion(w, connection, topic) == w
        }),
{
    let w = spec_subscribe_connexion(v, connection, topic);
    if !list_of(v.subscriptions, connection).contains(topic) {
        lemma_mirror_push(v, connection, topic);
        lemma_push_occurs(v.subscriptions, connection, topic, connection, topic);
        vstd::seq_lib::to_multiset_contains(list_of(v.subscriptions, connection), topic);
    }
    lemma_listed_occurs(w.subscriptions, connection, topic);
    lemma_listed_occurs(w.subscribers, topic, connection);
    vstd::seq_lib::to_multiset_contains(list_of(w.subscriptions, connection), topic);
    assert(occurrences(w.subscriptions, connection, topic) == occurrences(
        w.subscribers,
        topic,
        connection,
    ));
}

/// The tables of the first broker.
pub struct BrokerState {
    id_generator: ClientIdGenerator,
    connection_to_topic: FastMap<u128, Vec<Topic>>,
    topic_to_connection: FastMap<Topic, Vec<u128>>,
    client_authoritative_location: FastMap<ClientId, Topic>,
    all_co_to_id: FastMap<u128, ConnectionOwner>,
    client_id_to_co: FastMap<ClientId, u128>,
    server_id_to_co: FastMap<Topic, u128>,
    pub spatial_server_id: Option<u128>,
    pub orchestrator_server_id: Option<u128>,
}

/// The lists of a table of lists, as sequences.
pub open spec fn lists_view<K, X>(m: FastMap<K, Vec<X>>) -> Map<K, Seq<X>> {
    m@.map_values(|v: Vec<X>| v@)
}

/// The position of the first `x` in `v`, if any.
fn position<X: crate::collections::KeyEq>(v: &Vec<X>, x: &X) -> (r: Option<usize>)
    ensures
        match r {
            Some(i) => v@.index_of_first(*x) == Some(i as int),
            None => v@.index_of_first(*x) is None,
        },
{
    let n = v.len();
    let mut i: usize = 0;
    while i < n
        invariant
            n == v@.len(),
            0 <= i <= n,
            forall|j: int| 0 <= j < i ==> v@[j] != *x,
        decreases n - i,
    {
        if v[i].key_eq(x) {
            proof {
                v@.index_of_first_ensures(*x);
            }
            return Some(i);
        }
        i = i + 1;
    }
    proof {
        v@.index_of_first_ensures(*x);
    }
    None
}

/// Removes the first `x` from `v`, the last item taking its place; false
/// when `x` is absent.
fn remove_first<X: crate::collections::KeyEq>(v: &mut Vec<X>, x: &X) -> (r: bool)
    ensures
        final(v)@ == swap_remove_first(old(v)@, *x),
        r == old(v)@.index_of_first(*x) is Some,
{
    proof {
        v@.index_of_first_ensures(*x);
    }
    match position(v, x) {
        Some(i) => {
            let ghost s = v@;
            assert(s.index_of_first(*x) == Some(i as int));
            v.swap_remove(i);
            assert(v@ =~= s.update(i as int, s.last()).drop_last());
            true
        },
        None => false,
    }
}

/// Appends `x` to the list under `k`, making the list if absent.
fn list_push<K: crate::collections::KeyEq, X>(m: &mut FastMap<K, Vec<X>>, k: K, x: X)
    requires
        old(m).wf(),
    ensures
        final(m).wf(),
        lists_view(*final(m)) == push_to_list(lists_view(*old(m)), k, x),
{
    let ghost before = lists_view(*m);
    let mut list = match m.remove(&k) {
        Some(l) => l,
        None => Vec::new(),
    };
    assert(list@ == list_of(before, k));
    list.push(x);
    m.insert(k, list);
    assert(lists_view(*m) =~= push_to_list(before, k, x));
}

/// Removes the first `x` from the list under `k`; the list is dropped when
/// left empty if `drop_empty`.  False, with nothing changed, when the list
/// is missing or lacks `x`.
fn list_remove<K: crate::collections::KeyEq, X: crate::collections::KeyEq>(
    m: &mut FastMap<K, Vec<X>>,
    k: &K,
    x: &X,
    drop_empty: bool,
) -> (r: bool)
    requires
        old(m).wf(),
    ensures
        final(m).wf(),
        r == listed(lists_view(*old(m)), *k, *x),
        lists_view(*final(m)) == (if !r {
            lists_view(*old(m))
        } else if drop_empty {
            put_list(lists_view(*old(m)), *k, swap_remove_first(lists_view(*old(m))[*k], *x))
        } else {
            lists_view(*old(m)).insert(*k, swap_remove_first(lists_view(*old(m))[*k], *x))
        }),
{
    let ghost before = lists_view(*m);
    match m.remove(k) {
        Some(mut list) => {
            let found = remove_first(&mut list, x);
            if !found {
                m.insert(*k, list);
                assert(lists_view(*m) =~= before);
                return false;
            }
            if drop_empty && list.len() == 0 {
                assert(lists_view(*m) =~= put_list(before, *k, swap_remove_first(before[*k], *x)));
            } else {
                m.insert(*k, list);
                assert(lists_view(*m) =~= before.insert(*k, swap_remove_first(before[*k], *x)));
            }
            true
        },
        None => {
            assert(lists_view(*m) =~= before);
            false
        },
    }
}

impl BrokerState {
    /// The tables as maps.
    pub closed spec fn view(&self) -> LegacyView {
        LegacyView {
            subscriptions: lists_view(self.connection_to_topic),
            subscribers: lists_view(self.topic_to_connection),
            locations: self.client_authoritative_location@,
            owners: self.all_co_to_id@,
            clients: self.client_id_to_co@,
            servers: self.server_id_to_co@,
            spatial: self.spatial_server_id,
            orchestrator: self.orchestrator_server_id,
            id_counter: self.id_generator.counter(),
        }
    }

    /// Every table is well formed, and the two subscription tables mirror
    /// each other.
    pub closed spec fn wf(&self) -> bool {
        &&& self.tables_wf()
        &&& tables_mirror(self.view())
    }

    /// Every table is well formed on its own.
    closed spec fn tables_wf(&self) -> bool {
        &&& self.connection_to_topic.wf()
        &&& self.topic_to_connection.wf()
        &&& self.client_authoritative_location.wf()
        &&& self.all_co_to_id.wf()
        &&& self.client_id_to_co.wf()
        &&& self.server_id_to_co.wf()
    }

    /// Empty tables; the first client id is 0.
    pub fn new() -> (r: Self)
        ensures
            r.wf(),
            r.view() == (LegacyView {
                subscriptions: Map::empty(),
                subscribers: Map::empty(),
                locations: Map::empty(),
                owners: Map::empty(),
                clients: Map::empty(),
                servers: Map::empty(),
                spatial: None,
                orchestrator: None,
                id_counter: 1,
            }),
    {
        let r = BrokerState {
            id_generator: ClientIdGenerator::new(),
            connection_to_topic: FastMap::new(),
            topic_to_connection: FastMap::new(),
            client_authoritative_location: FastMap::new(),
            all_co_to_id: FastMap::new(),
            client_id_to_co: FastMap::new(),
            server_id_to_co: FastMap::new(),
            spatial_server_id: None,
            orchestrator_server_id: None,
        };
        assert(lists_view(r.connection_to_topic) =~= Map::empty());
        assert(lists_view(r.topic_to_connection) =~= Map::empty());
        assert forall|c: u128, t: Topic|
            occurrences(r.view().subscriptions, c, t) == occurrences(r.view().subscribers, t, c) by {
            vstd::seq_lib::to_multiset_contains(Seq::<Topic>::empty(), t);
            vstd::seq_lib::to_multiset_contains(Seq::<u128>::empty(), c);
        }
        r
    }

    /// In a well-formed state the two subscription tables mirror each other.
    pub proof fn lemma_tables_mirror(&self)
        requires
            self.wf(),
        ensures
            tables_mirror(self.view()),
    {
    }

    /// Whether client ids are left to hand out.
    pub fn ids_left(&self) -> (r: bool)
        ensures
            r == (0 < self.view().id_counter < ClientId::MAX),
    {
        self.id_generator.next_id > 0 && self.id_generator.next_id < ClientId::MAX
    }

    /// Whether a connection is trusted: shards and the spatial server are.
    pub fn is_trusted(&self, connection: &u128) -> (r: bool)
        requires
            self.wf(),
        ensures
            r == (self.view().owners.contains_key(*connection) && (self.view().owners[*connection] is Shard
                || self.view().owners[*connection] is Spatial)),
    {
        match self.all_co_to_id.get(connection) {
            None => false,
            Some(ConnectionOwner::Client(_)) => false,
            Some(ConnectionOwner::Shard(_)) => true,
            Some(ConnectionOwner::Spatial()) => true,
            _ => false,
        }
    }

    /// The topic of some shard, if there is one.
    pub fn get_random_server_id(&mut self) -> (r: Option<Topic>)
        requires
            old(self).wf(),
        ensures
            final(self).wf(),
            final(self).view() == old(self).view(),
            match r {
                Some(t) => old(self).view().servers.contains_key(t),
                None => old(self).view().servers.dom() == Set::<Topic>::empty(),
            },
    {
        match self.server_id_to_co.first_entry() {
            Some((t, _)) => Some(t),
            None => None,
        }
    }

    /// The connection of some shard, if there is one.
    pub fn get_random_server_connection(&mut self) -> (r: Option<u128>)
        requires
            old(self).wf(),
        ensures
            final(self).wf(),
            final(self).view() == old(self).view(),
            match r {
                Some(c) => exists|t: Topic|
                    old(self).view().servers.contains_key(t) && old(self).view().servers[t] == c,
                None => old(self).view().servers.dom() == Set::<Topic>::empty(),
            },
    {
        match self.server_id_to_co.first_entry() {
            Some((t, c)) => {
                assert(self.view().servers.contains_key(t) && self.view().servers[t] == c);
                Some(c)
            },
            None => None,
        }
    }

    /// The connections listening to `topic`, if any list is kept for it.
    pub fn get_subscribers(&self, topic: &Topic) -> (r: Option<&Vec<u128>>)
        requires
            self.wf(),
        ensures
            match r {
                Some(v) => self.view().subscribers.contains_key(*topic) && v@ == self.view().subscribers[*topic],
                None => !self.view().subscribers.contains_key(*topic),
            },
    {
        self.topic_to_connection.get(topic)
    }

    /// The topics `connection` listens to, if any list is kept for it.
    pub fn get_subscriptions(&self, connection: &u128) -> (r: Option<&Vec<Topic>>)
        requires
            self.wf(),
        ensures
            match r {
                Some(v) => self.view().subscriptions.contains_key(*connection) && v@
                    == self.view().subscriptions[*connection],
                None => !self.view().subscriptions.contains_key(*connection),
            },
    {
        self.connection_to_topic.get(connection)
    }
}

impl BrokerState {
    /// Subscribes client `id`'s connection to `topic`: the topic is appended
    /// to the connection's list and the connection to the topic's list,
    /// repeats included.  Nothing happens for an unknown client.
    pub fn subscribe_client(&mut self, id: ClientId, topic: Topic) -> (r: Option<()>)
        requires
            old(self).wf(),
        ensures
            final(self).wf(),
            r is Some == old(self).view().clients.contains_key(id),
            final(self).view() == (if old(self).view().clients.contains_key(id) {
                LegacyView {
                    subscriptions: push_to_list(
                        old(self).view().subscriptions,
                        old(self).view().clients[id],
                        topic,
                    ),
                    subscribers: push_to_list(
                        old(self).view().subscribers,
                        topic,
                        old(self).view().clients[id],
                    ),
                    ..old(self).view()
                }
            } else {
                old(self).view()
            }),
    {
        let co = match self.client_id_to_co.get(&id) {
            Some(c) => *c,
            None => {
                return None;
            },
        };
        proof {
            lemma_mirror_push(self.view(), co, topic);
        }
        list_push(&mut self.connection_to_topic, co, topic);
        list_push(&mut self.topic_to_connection, topic, co);
        Some(())
    }

    /// Records where client `id` is simulated; hands out the place it
    /// replaces, if any.
    pub fn set_client_authoritative_location(&mut self, id: ClientId, topic: Topic) -> (r: Option<Topic>)
        requires
            old(self).wf(),
        ensures
            final(self).wf(),
            final(self).view() == (LegacyView {
                locations: old(self).view().locations.insert(id, topic),
                ..old(self).view()
            }),
            r == (if old(self).view().locations.contains_key(id) {
                Some(old(self).view().locations[id])
            } else {
                None
            }),
    {
        self.client_authoritative_location.insert(id, topic)
    }

    /// Where client `id` is simulated, if known.
    pub fn get_client_authoritative_location(&self, id: ClientId) -> (r: Option<&Topic>)
        requires
            self.wf(),
        ensures
            match r {
                Some(t) => self.view().locations.contains_key(id) && *t == self.view().locations[id],
                None => !self.view().locations.contains_key(id),
            },
    {
        self.client_authoritative_location.get(&id)
    }

    /// Unsubscribes client `id` from `topic` (see `spec_unsubscribe_client`).
    pub fn unsubscribe_client(&mut self, id: ClientId, topic: Topic) -> (r: Option<()>)
        requires
            old(self).wf(),
        ensures
            final(self).wf(),
            final(self).view() == spec_unsubscribe_client(old(self).view(), id, topic).0,
            r is Some == spec_unsubscribe_client(old(self).view(), id, topic).1,
    {
        let co = match self.client_id_to_co.get(&id) {
            Some(c) => *c,
            None => {
                return None;
            },
        };
        let ghost v = self.view();
        if !list_remove(&mut self.connection_to_topic, &co, &topic, true) {
            return None;
        }
        proof {
            lemma_mirror_remove(v, co, topic, true);
        }
        if !list_remove(&mut self.topic_to_connection, &topic, &co, true) {
            return None;
        }
        Some(())
    }

    /// Subscribes `connection` to `topic`, unless it already listens to it.
    pub fn subscribe_connexion(&mut self, connection: u128, topic: Topic)
        requires
            old(self).wf(),
        ensures
            final(self).wf(),
            final(self).view() == spec_subscribe_connexion(old(self).view(), connection, topic),
    {
        match self.connection_to_topic.get(&connection) {
            Some(topics) => {
                match position(topics, &topic) {
                    Some(_) => {
                        proof {
                            topics@.index_of_first_ensures(topic);
                        }
                        return;
                    },
                    None => {
                        proof {
                            topics@.index_of_first_ensures(topic);
                        }
                    },
                }
            },
            None => {},
        }
        proof {
            lemma_mirror_push(self.view(), connection, topic);
        }
        list_push(&mut self.connection_to_topic, connection, topic);
        list_push(&mut self.topic_to_connection, topic, connection);
    }

    /// `connection` stops listening to `topic` (see
    /// `spec_unsubscribe_connexion_from`).
    pub fn unsubscribe_connexion_from(&mut self, connection: u128, topic: Topic) -> (r: Option<()>)
        requires
            old(self).wf(),
        ensures
            final(self).wf(),
            final(self).view() == spec_unsubscribe_connexion_from(old(self).view(), connection, topic).0,
            r is Some == spec_unsubscribe_connexion_from(old(self).view(), connection, topic).1,
    {
        let ghost v = self.view();
        if !list_remove(&mut self.connection_to_topic, &connection, &topic, false) {
            return None;
        }
        proof {
            lemma_mirror_remove(v, connection, topic, false);
        }
        if !list_remove(&mut self.topic_to_connection, &topic, &connection, false) {
            return None;
        }
        Some(())
    }

    /// `connection` stops listening to everything (see
    /// `spec_unsubscribe_all`).
    pub fn unsubscribe_connexion_all(&mut self, connection: u128) -> (r: Option<()>)
        requires
            old(self).wf(),
        ensures
            final(self).wf(),
            final(self).view() == spec_unsubscribe_all(old(self).view(), connection).0,
            r is Some == spec_unsubscribe_all(old(self).view(), connection).1,
    {
        let ghost v = self.view();
        let topics = match self.connection_to_topic.remove(&connection) {
            Some(t) => t,
            None => {
                assert(lists_view(self.connection_to_topic) =~= v.subscriptions);
                return None;
            },
        };
        assert(lists_view(self.connection_to_topic) =~= v.subscriptions.remove(connection));
        proof {
            lemma_mirror_unsubscribe_all(v, connection);
        }
        let ghost ts = topics@;
        assert(ts.skip(0) =~= ts);
        let n = topics.len();
        let mut i: usize = 0;
        while i < n
            invariant
                self.tables_wf(),
                tables_mirror(spec_unsubscribe_all(v, connection).0),
                spec_unsubscribe_all(v, connection).1,
                n == ts.len(),
                topics@ == ts,
                0 <= i <= n,
                ts == v.subscriptions[connection],
                v == old(self).view(),
                v.subscriptions.contains_key(connection),
                self.view() == (LegacyView {
                    subscriptions: v.subscriptions.remove(connection),
                    subscribers: self.view().subscribers,
                    ..v
                }),
                drop_from_lists(self.view().subscribers, connection, ts.skip(i as int))
                    == drop_from_lists(v.subscribers, connection, ts),
            decreases n - i,
        {
            let topic = topics[i];
            assert(ts.skip(i as int)[0] == topic);
            assert(ts.skip(i as int).drop_first() =~= ts.skip(i + 1));
            let ghost cur = self.view().subscribers;
            if !list_remove(&mut self.topic_to_connection, &topic, &connection, true) {
                assert(drop_from_lists(cur, connection, ts.skip(i as int)) == (cur, false));
                return None;
            }
            i = i + 1;
        }
        assert(ts.skip(n as int) =~= Seq::<Topic>::empty());
        assert(drop_from_lists(self.view().subscribers, connection, ts.skip(n as int)) == (
            self.view().subscribers,
            true,
        ));
        Some(())
    }

    /// Records a shard: its connection is owned by the shard of `topic`.
    pub fn add_server(&mut self, topic: Topic, connection: u128)
        requires
            old(self).wf(),
        ensures
            final(self).wf(),
            final(self).view() == (LegacyView {
                owners: old(self).view().owners.insert(connection, ConnectionOwner::Shard(topic)),
                servers: old(self).view().servers.insert(topic, connection),
                ..old(self).view()
            }),
    {
        self.all_co_to_id.insert(connection, ConnectionOwner::Shard(topic));
        self.server_id_to_co.insert(topic, connection);
    }

    /// The connection of the shard of `topic`, if known.
    pub fn get_by_server_id(&self, topic: &Topic) -> (r: Option<&u128>)
        requires
            self.wf(),
        ensures
            match r {
                Some(c) => self.view().servers.contains_key(*topic) && *c == self.view().servers[*topic],
                None => !self.view().servers.contains_key(*topic),
            },
    {
        self.server_id_to_co.get(topic)
    }

    /// Records a client on `connection`; hands out its new id.
    pub fn add_client(&mut self, connection: u128) -> (r: ClientId)
        requires
            old(self).wf(),
            0 < old(self).view().id_counter < ClientId::MAX,
        ensures
            final(self).wf(),
            r == old(self).view().id_counter - 1,
            final(self).view() == (LegacyView {
                clients: old(self).view().clients.insert(r, connection),
                owners: old(self).view().owners.insert(connection, ConnectionOwner::Client(r)),
                id_counter: (old(self).view().id_counter + 1) as ClientId,
                ..old(self).view()
            }),
    {
        let id = self.id_generator.next();
        self.client_id_to_co.insert(id, connection);
        self.all_co_to_id.insert(connection, ConnectionOwner::Client(id));
        id
    }

    /// The connection of client `id`, if known.
    pub fn get_by_client_id(&self, id: &ClientId) -> (r: Option<&u128>)
        requires
            self.wf(),
        ensures
            match r {
                Some(c) => self.view().clients.contains_key(*id) && *c == self.view().clients[*id],
                None => !self.view().clients.contains_key(*id),
            },
    {
        self.client_id_to_co.get(id)
    }

    /// Who owns `connection`, if known.
    pub fn get_owner_by_co(&self, connection: &u128) -> (r: Option<&ConnectionOwner>)
        requires
            self.wf(),
        ensures
            match r {
                Some(o) => self.view().owners.contains_key(*connection) && *o
                    == self.view().owners[*connection],
                None => !self.view().owners.contains_key(*connection),
            },
    {
        self.all_co_to_id.get(connection)
    }

    /// The topic of the shard on `connection`, if a shard owns it.
    pub fn get_server_by_co(&self, connection: &u128) -> (r: Option<&Topic>)
        requires
            self.wf(),
        ensures
            match r {
                Some(t) => self.view().owners.contains_key(*connection)
                    && self.view().owners[*connection] == ConnectionOwner::Shard(*t),
                None => !(self.view().owners.contains_key(*connection)
                    && self.view().owners[*connection] is Shard),
            },
    {
        match self.get_owner_by_co(connection) {
            Some(ConnectionOwner::Shard(topic)) => Some(topic),
            _ => None,
        }
    }

    /// The id of the client on `connection`, if a client owns it.
    pub fn get_client_by_co(&self, connection: &u128) -> (r: Option<&ClientId>)
        requires
            self.wf(),
        ensures
            match r {
                Some(id) => self.view().owners.contains_key(*connection)
                    && self.view().owners[*connection] == ConnectionOwner::Client(*id),
                None => !(self.view().owners.contains_key(*connection)
                    && self.view().owners[*connection] is Client),
            },
    {
        match self.get_owner_by_co(connection) {
            Some(ConnectionOwner::Client(id)) => Some(id),
            _ => None,
        }
    }

    /// The spatial server's connection, if known.
    pub fn get_spatial_server(&self) -> (r: &Option<u128>)
        ensures
            *r == self.view().spatial,
    {
        &self.spatial_server_id
    }

    /// Records the spatial server on `connection`, unless one is known.
    pub fn add_spatial_server(&mut self, connection: u128)
        requires
            old(self).wf(),
        ensures
            final(self).wf(),
            final(self).view() == (if old(self).view().spatial is Some {
                old(self).view()
            } else {
                LegacyView {
                    spatial: Some(connection),
                    owners: old(self).view().owners.insert(connection, ConnectionOwner::Spatial()),
                    ..old(self).view()
                }
            }),
    {
        if self.spatial_server_id.is_some() {
            return;
        }
        self.spatial_server_id = Some(connection);
        self.all_co_to_id.insert(connection, ConnectionOwner::Spatial());
    }

    /// The orchestrator's connection, if known.
    pub fn get_orchestrator_co(&self) -> (r: &Option<u128>)
        ensures
            *r == self.view().orchestrator,
    {
        &self.orchestrator_server_id
    }

    /// Records the orchestrator on `connection`, unless one is known.
    pub fn add_orchestrator(&mut self, connection: u128)
        requires
            old(self).wf(),
        ensures
            final(self).wf(),
            final(self).view() == (if old(self).view().orchestrator is Some {
                old(self).view()
            } else {
                LegacyView {
                    orchestrator: Some(connection),
                    owners: old(self).view().owners.insert(
                        connection,
                        ConnectionOwner::Orchestrator(),
                    ),
                    ..old(self).view()
                }
            }),
    {
        if self.orchestrator_server_id.is_some() {
            return;
        }
        self.orchestrator_server_id = Some(connection);
        self.all_co_to_id.insert(connection, ConnectionOwner::Orchestrator());
    }

    /// Forgets the owner of `connection` and its entry in the table of its
    /// kind (see `spec_remove_by_co`); hands out the owner.
    pub fn remove_by_co(&mut self, connection: &u128) -> (r: Option<ConnectionOwner>)
        requires
            old(self).wf(),
        ensures
            final(self).wf(),
            final(self).view() == spec_remove_by_co(old(self).view(), *connection).0,
            r == spec_remove_by_co(old(self).view(), *connection).1,
    {
        match self.all_co_to_id.remove(connection) {
            Some(ConnectionOwner::Shard(topic)) => {
                self.server_id_to_co.remove(&topic);
                Some(ConnectionOwner::Shard(topic))
            },
            Some(ConnectionOwner::Client(id)) => {
                self.client_id_to_co.remove(&id);
                Some(ConnectionOwner::Client(id))
            },
            Some(ConnectionOwner::Spatial()) => {
                self.spatial_server_id = None;
                Some(ConnectionOwner::Spatial())
            },
            Some(ConnectionOwner::Orchestrator()) => Some(ConnectionOwner::Orchestrator()),
            None => {
                assert(self.all_co_to_id@ =~= old(self).view().owners);
                None
            },
        }
    }

    /// Forgets client `id` and the owner of its connection; hands out the
    /// connection.
    pub fn remove_client(&mut self, id: ClientId) -> (r: Option<u128>)
        requires
            old(self).wf(),
        ensures
            final(self).wf(),
            r == (if old(self).view().clients.contains_key(id) {
                Some(old(self).view().clients[id])
            } else {
                None
            }),
            final(self).view() == (if old(self).view().clients.contains_key(id) {
                LegacyView {
                    clients: old(self).view().clients.remove(id),
                    owners: old(self).view().owners.remove(old(self).view().clients[id]),
                    ..old(self).view()
                }
            } else {
                old(self).view()
            }),
    {
        match self.client_id_to_co.remove(&id) {
            Some(co) => {
                self.all_co_to_id.remove(&co);
                Some(co)
            },
            None => {
                assert(self.client_id_to_co@ =~= old(self).view().clients);
                None
            },
        }
    }

    /// Forgets the shard of `topic` and the owner of its connection; hands
    /// out the connection.
    pub fn remove_server(&mut self, topic: Topic) -> (r: Option<u128>)
        requires
            old(self).wf(),
        ensures
            final(self).wf(),
            r == (if old(self).view().servers.contains_key(topic) {
                Some(old(self).view().servers[topic])
            } else {
                None
            }),
            final(self).view() == (if old(self).view().servers.contains_key(topic) {
                LegacyView {
                    servers: old(self).view().servers.remove(topic),
                    owners: old(self).view().owners.remove(old(self).view().servers[topic]),
                    ..old(self).view()
                }
            } else {
                old(self).view()
            }),
    {
        match self.server_id_to_co.remove(&topic) {
            Some(co) => {
                self.all_co_to_id.remove(&co);
                Some(co)
            },
            None => {
                assert(self.server_id_to_co@ =~= old(self).view().servers);
                None
            },
        }
    }
}

} // verus!
