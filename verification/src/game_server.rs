//! What a game server attaches to its entities, and the ids it hands out.
use crate::collections::FastMap;
use crate::game_message::msg_client_server::InputBuffer;
use crate::game_message::msg_entities::{EntityType, NetworkEntityId};
use crate::shared_replication::broker_message::NodeId;
use vstd::prelude::*;

pub mod chunk_directory;
pub mod handoff;

verus! {

/// The network id of an entity.
#[derive(Debug, Clone, Copy, PartialEq, Eq, Hash, Structural)]
pub struct NetworkIdComponent(pub NetworkEntityId);

/// The node that controls an entity.
#[derive(Debug, Clone, Copy, PartialEq, Eq, Structural)]
pub struct ControlledBy {
    pub client_id: NodeId,
}

/// The kind of an entity.
#[derive(Debug, Clone, Copy, PartialEq, Eq, Structural)]
pub struct EntityTypeComponent(pub EntityType);

/// Marks a player.
#[derive(Debug, Clone, Copy, PartialEq, Eq, Structural)]
pub struct Player;

/// Marks a wall.
#[derive(Debug, Clone, Copy, PartialEq, Eq, Structural)]
pub struct Wall;

/// Marks a projectile.
#[derive(Debug, Clone, Copy, PartialEq, Eq, Structural)]
pub struct Projectile;

/// Marks a zombie.
#[derive(Debug, Clone, Copy, PartialEq, Eq, Structural)]
pub struct Zombie;

/// Marks a turret.
#[derive(Debug, Clone, Copy, PartialEq, Eq, Structural)]
pub struct Turret;

/// Who simulates an entity: this server, this server for one last frame, or
/// another server (the entity is a ghost here).
#[derive(Debug, Clone, Copy, PartialEq, Eq, Structural)]
pub enum Authority {
    Authoritative,
    LastAuthFrame,
    GhostCopy,
}

impl Authority {
    /// The authority an entity has after an update that brings `received`:
    /// only a ghost takes it over; an entity already simulated here keeps its
    /// own.
    pub fn on_update(self, received: Authority) -> (r: Authority)
        ensures
            r == (if self == Authority::GhostCopy {
                received
            } else {
                self
            }),
    {
        if self == Authority::GhostCopy {
            received
        } else {
            self
        }
    }
}

/// The inputs of an entity.
#[derive(Debug, Clone)]
pub struct InputComponent {
    pub input_buffer: InputBuffer,
}

/// What a game server sends along with an entity it hands over.
#[derive(Debug, Clone)]
pub struct FullEntityMetaData {
    /// The kind of entity, by number.
    pub entity_type: u16,
    pub health: u16,
    /// Data of some kinds of entities.
    pub extra_data: Vec<u8>,
}

/// An id handed out by a game server.
#[derive(Debug, Clone, Copy, PartialEq, Eq, Hash, Structural)]
pub struct NetworkId(pub u32);

/// Hands out network ids in increasing order, from 0.
#[derive(Debug, Clone, Copy, Default)]
pub struct NetworkIdGenerator {
    next_id: u32,
}

impl NetworkIdGenerator {
    /// A generator whose first id is 0.
    pub fn new() -> (r: Self)
        ensures
            r.peek() == 0,
    {
        NetworkIdGenerator { next_id: 0 }
    }

    /// The id the next call hands out.
    pub closed spec fn peek(self) -> u32 {
        self.next_id
    }

    /// Hands out the next id; the ids never run out.
    pub fn next(&mut self) -> (r: NetworkId)
        requires
            old(self).peek() < u32::MAX,
        ensures
            r == NetworkId(old(self).peek()),
            final(self).peek() == old(self).peek() + 1,
    {
        let id = self.next_id;
        self.next_id = self.next_id + 1;
        NetworkId(id)
    }
}

/// The entities of each session, as sequences.
pub open spec fn sessions_view(m: Map<NodeId, Vec<NetworkEntityId>>) -> Map<NodeId, Seq<NetworkEntityId>> {
    Map::new(|k: NodeId| m.contains_key(k), |k: NodeId| m[k]@)
}

/// The entities of a session, none when there is no session.
pub open spec fn session_of(s: Map<NodeId, Seq<NetworkEntityId>>, client: NodeId) -> Seq<NetworkEntityId> {
    if s.contains_key(client) {
        s[client]
    } else {
        Seq::empty()
    }
}

/// Whether an entity id differs from `x`.
pub open spec fn other_than(x: NetworkEntityId) -> spec_fn(NetworkEntityId) -> bool {
    |e: NetworkEntityId| e != x
}

/// The entities each client owns on this server, by client.
#[derive(Debug, Clone)]
pub struct ClientDirectory {
    pub sessions: FastMap<NodeId, Vec<NetworkEntityId>>,
}

impl ClientDirectory {
    /// The sessions, as sequences.
    pub open spec fn view_sessions(&self) -> Map<NodeId, Seq<NetworkEntityId>> {
        sessions_view(self.sessions@)
    }

    /// The map is well formed.
    pub open spec fn wf(&self) -> bool {
        self.sessions.wf()
    }

    /// No session yet.
    pub fn new() -> (r: Self)
        ensures
            r.wf(),
            r.view_sessions() == Map::<NodeId, Seq<NetworkEntityId>>::empty(),
    {
        let r = ClientDirectory { sessions: FastMap::new() };
        assert(r.view_sessions() =~= Map::<NodeId, Seq<NetworkEntityId>>::empty());
        r
    }

    /// A spawned entity joins its owner's session, at the end; the session
    /// is opened when there is none.
    pub fn record_entity(&mut self, owner: NodeId, net_id: NetworkEntityId)
        requires
            old(self).wf(),
        ensures
            final(self).wf(),
            final(self).view_sessions() == old(self).view_sessions().insert(
                owner,
                session_of(old(self).view_sessions(), owner).push(net_id),
            ),
    {
        let mut entities = match self.sessions.remove(&owner) {
            Some(v) => v,
            None => Vec::new(),
        };
        entities.push(net_id);
        self.sessions.insert(owner, entities);
        assert(self.view_sessions() =~= old(self).view_sessions().insert(
            owner,
            session_of(old(self).view_sessions(), owner).push(net_id),
        ));
    }

    /// Whether `client` owns the entity `entity`.
    pub fn owns(&self, client: NodeId, entity: NetworkEntityId) -> (r: bool)
        requires
            self.wf(),
        ensures
            r == session_of(self.view_sessions(), client).contains(entity),
    {
        match self.sessions.get(&client) {
            Some(entities) => {
                let ghost session = session_of(self.view_sessions(), client);
                assert(session == entities@);
                let mut i: usize = 0;
                while i < entities.len()
                    invariant
                        session == entities@,
                        session == session_of(self.view_sessions(), client),
                        0 <= i <= entities@.len(),
                        forall|j: int| 0 <= j < i ==> entities@[j] != entity,
                    decreases entities@.len() - i,
                {
                    if entities[i] == entity {
                        assert(session[i as int] == entity);
                        assert(session.contains(entity));
                        return true;
                    }
                    i = i + 1;
                }
                false
            },
            None => false,
        }
    }

    /// A client went away: its session is closed, and its entities are
    /// returned, if it had a session.
    pub fn end_session(&mut self, client: NodeId) -> (r: Option<Vec<NetworkEntityId>>)
        requires
            old(self).wf(),
        ensures
            final(self).wf(),
            final(self).view_sessions() == old(self).view_sessions().remove(client),
            match r {
                Some(v) => old(self).view_sessions().contains_key(client) && v@ == old(
                    self,
                ).view_sessions()[client],
                None => !old(self).view_sessions().contains_key(client),
            },
    {
        let r = self.sessions.remove(&client);
        assert(self.view_sessions() =~= old(self).view_sessions().remove(client));
        r
    }

    /// The entity `entity` leaves the session of `owner`, if there is one;
    /// the session stays open.
    pub fn forget_entity(&mut self, owner: NodeId, entity: NetworkEntityId)
        requires
            old(self).wf(),
        ensures
            final(self).wf(),
            final(self).view_sessions() == if old(self).view_sessions().contains_key(owner) {
                old(self).view_sessions().insert(
                    owner,
                    old(self).view_sessions()[owner].filter(other_than(entity)),
                )
            } else {
                old(self).view_sessions()
            },
    {
        let entities = match self.sessions.remove(&owner) {
            Some(v) => v,
            None => {
                assert(self.view_sessions() =~= old(self).view_sessions());
                return;
            },
        };
        let ghost s = entities@;
        let mut kept: Vec<NetworkEntityId> = Vec::new();
        let mut i: usize = 0;
        while i < entities.len()
            invariant
                entities@ == s,
                0 <= i <= s.len(),
                kept@ == s.take(i as int).filter(other_than(entity)),
            decreases s.len() - i,
        {
            proof {
                assert(s.take(i + 1).drop_last() =~= s.take(i as int));
                reveal(Seq::filter);
            }
            if entities[i] != entity {
                kept.push(entities[i]);
            }
            i = i + 1;
        }
        assert(s.take(s.len() as int) =~= s);
        self.sessions.insert(owner, kept);
        assert(self.view_sessions() =~= old(self).view_sessions().insert(
            owner,
            old(self).view_sessions()[owner].filter(other_than(entity)),
        ));
    }
}

/// Forgetting an entity right after recording it, in a session that was open
/// and did not hold it, gives back the sessions as they were.
pub proof fn lemma_forget_undoes_record(
    sessions: Map<NodeId, Seq<NetworkEntityId>>,
    owner: NodeId,
    entity: NetworkEntityId,
)
    requires
        sessions.contains_key(owner),
        !sessions[owner].contains(entity),
    ensures
        ({
            let recorded = sessions.insert(owner, session_of(sessions, owner).push(entity));
            recorded.insert(owner, recorded[owner].filter(other_than(entity))) == sessions
        }),
{
    let s = sessions[owner];
    let p = other_than(entity);
    lemma_filter_keeps(s, entity, s.len() as int);
    assert(s.take(s.len() as int) =~= s);
    assert(s.push(entity).filter(p) == s.filter(p)) by {
        reveal(Seq::filter);
        assert(s.push(entity).drop_last() =~= s);
    }
    let recorded = sessions.insert(owner, session_of(sessions, owner).push(entity));
    assert(recorded[owner] == s.push(entity));
    assert(recorded.insert(owner, recorded[owner].filter(p)) =~= sessions);
}

/// Filtering out an entity that is absent keeps every prefix.
proof fn lemma_filter_keeps(s: Seq<NetworkEntityId>, entity: NetworkEntityId, k: int)
    requires
        !s.contains(entity),
        0 <= k <= s.len(),
    ensures
        s.take(k).filter(other_than(entity)) == s.take(k),
    decreases k,
{
    reveal(Seq::filter);
    if k > 0 {
        lemma_filter_keeps(s, entity, k - 1);
        assert(s.take(k).drop_last() =~= s.take(k - 1));
        assert(s.take(k).last() == s[k - 1]);
        assert(s.take(k - 1).push(s[k - 1]) =~= s.take(k));
    } else {
        assert(s.take(0) =~= Seq::<NetworkEntityId>::empty());
    }
}

} // verus!
