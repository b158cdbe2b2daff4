//! The client's own states and markers.
use crate::game_message::msg_client_server::InputBuffer;
use crate::broker_protocol::topics::{head_byte, Namespace, SecurityDomain, Topic, TopicBuilder};
use crate::core_types::chunks::{area_of_chunk, ring_chunks, ring_defined, GameChunk, GameChunkAera};
use crate::game_message::msg_entities::{EntityType, NetworkEntityId};
use crate::shared_replication::broker_message::NodeId;
use vstd::bytes::spec_u16_to_le_bytes;
use vstd::prelude::*;

verus! {

/// Where the client is: at the login menu first, then connecting, then in
/// the game.
#[derive(Debug, Clone, Copy, Default, PartialEq, Eq, Hash, Structural)]
pub enum ClientState {
    #[default]
    LoginMenu,
    Connecting,
    InGame,
}

/// Marks the entity the local player controls.
#[derive(Debug, Clone, Copy, PartialEq, Eq, Structural)]
pub struct LocalControlledComponent;

/// The kind of an entity the client shows.
#[derive(Debug, Clone, Copy, PartialEq, Eq, Structural)]
pub struct EntityTypeComponent(pub EntityType);

/// The inputs of an entity the client shows.
#[derive(Debug, Clone)]
pub struct InputComponent {
    pub input_buffer: InputBuffer,
}

/// The state topic of a chunk: the chunk's x and y, each on two
/// little-endian bytes, after the head byte.
pub open spec fn chunk_state_topic(c: GameChunk) -> Seq<u8> {
    seq![head_byte(SecurityDomain::PublicReadPrivateWrite, Namespace::Chunk)]
        + spec_u16_to_le_bytes(c.x as u16) + spec_u16_to_le_bytes(c.y as u16) + Seq::new(
        11,
        |i: int| 0u8,
    )
}

/// The chunks a player in chunk `c` watches: the ring around it, then `c`.
pub open spec fn watched_chunks(c: GameChunk) -> Seq<GameChunk> {
    ring_chunks(area_of_chunk(c)).push(c)
}

/// The local player: its node, its pseudonym, its entity, and the chunk it
/// stands in.
#[derive(Debug, Clone)]
pub struct LocalPlayer {
    pub net_id: NodeId,
    pub pseudo: Option<String>,
    pub entity_net_id: Option<NetworkEntityId>,
    pub chunk: GameChunk,
}

impl LocalPlayer {
    /// The player now stands in chunk `c`.  When that is a new chunk, the
    /// state topics of the chunks it must watch are returned, in order: the
    /// ring around `c`, then `c` itself; else none.
    pub fn enter_chunk(&mut self, c: GameChunk) -> (r: Vec<Topic>)
        requires
            ring_defined(area_of_chunk(c)),
        ensures
            final(self).chunk == c,
            final(self).net_id == old(self).net_id,
            final(self).pseudo == old(self).pseudo,
            final(self).entity_net_id == old(self).entity_net_id,
            c == old(self).chunk ==> r@.len() == 0,
            c != old(self).chunk ==> {
                &&& r@.len() == watched_chunks(c).len()
                &&& forall|i: int| 0 <= i < r@.len() ==> #[trigger] r@[i]@ == chunk_state_topic(
                    watched_chunks(c)[i],
                )
            },
    {
        if c == self.chunk {
            return Vec::new();
        }
        self.chunk = c;
        let mut borders = GameChunkAera::from(c).get_borders(1);
        borders.push(c);
        let ghost w = watched_chunks(c);
        assert(borders@ =~= w);
        let builder = TopicBuilder::new(SecurityDomain::PublicReadPrivateWrite, Namespace::Chunk);
        let mut topics: Vec<Topic> = Vec::new();
        let mut i: usize = 0;
        while i < borders.len()
            invariant
                borders@ == w,
                0 <= i <= w.len(),
                builder.bytes() == seq![head_byte(SecurityDomain::PublicReadPrivateWrite, Namespace::Chunk)]
                    + Seq::new(15, |i: int| 0u8),
                builder.position() == 1,
                topics@.len() == i,
                forall|j: int| 0 <= j < i ==> #[trigger] topics@[j]@ == chunk_state_topic(w[j]),
            decreases w.len() - i,
        {
            let chunk = borders[i];
            let topic = builder.append_chunk(&chunk).build();
            proof {
                vstd::bytes::lemma_auto_spec_u16_to_from_le_bytes();
                assert(topic@ =~= chunk_state_topic(chunk));
            }
            topics.push(topic);
            i = i + 1;
        }
        topics
    }
}

} // verus!
