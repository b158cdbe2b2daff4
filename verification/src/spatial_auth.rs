//! The spatial and authentication server: it learns of game servers as they
//! say hello, gives the first one the chunk 0:0, and admits players: each is
//! authorized, subscribed to the chunk 0:0, spawned on the first game server
//! and welcomed.  The network and the broker connection are driven from
//! outside; each event comes in and the requests to send come out.
use crate::broker::broker_state::{node_line_topic, system_topic};
use crate::broker_protocol::topics::{head_byte, Namespace, SecurityDomain, Topic, TopicBuilder};
use crate::bytes_io::bytes_contents;
use crate::core_types::chunks::GameChunk;
use crate::shared_replication::broker_client::{
    publish_bytes, reliable_stream, ClientNetworkEvent, MmoNetworkClient, Outgoing,
};
use crate::shared_replication::broker_message::{message_encoding, MessageView, NodeId};
use crate::shared_replication::msg_client_server::{string_bytes, ClientHelloMsg, ClientWelcomeMsg};
use crate::shared_replication::msg_dgs::{SpawnClientMsg, TakeChunkMessage};
use crate::shared_replication::msg_game_payload::{GameMessage, GameMessageHeaders};
use crate::shared_replication::msg_servers::{ServerHelloMSG, ServerType};
use vstd::bytes::{spec_u16_from_le_bytes, spec_u16_to_le_bytes, spec_u32_to_le_bytes};
use vstd::prelude::*;

verus! {

/// What the server asks of the network after an event.
#[derive(Debug, Clone)]
pub struct SpatialReaction {
    /// Requests to the broker, in order.
    pub sends: Vec<Outgoing>,
    /// Reconnect to the broker (after a pause).
    pub reconnect: bool,
}

/// The topic on which clients ask to be admitted.
pub open spec fn client_auth_topic() -> Seq<u8> {
    seq![head_byte(SecurityDomain::PrivateReadPublicWrite, Namespace::ClientAuth)] + Seq::new(
        15,
        |i: int| 0u8,
    )
}

/// The topic of the state of chunk 0:0: the chunk's x and y, each on two
/// little-endian bytes, after the head byte.
pub open spec fn chunk_zero_topic() -> Seq<u8> {
    seq![head_byte(SecurityDomain::PublicReadPrivateWrite, Namespace::Chunk)]
        + spec_u16_to_le_bytes(0u16) + spec_u16_to_le_bytes(0u16) + Seq::new(11, |i: int| 0u8)
}

/// The bytes of the order to take chunk 0:0.
pub open spec fn take_chunk_bytes() -> Seq<u8> {
    spec_u32_to_le_bytes(0) + spec_u32_to_le_bytes(0)
}

/// The bytes of the order to spawn `client_id` in chunk 0:0, with the
/// pseudonym's UTF-8 bytes `pseudo`.
pub open spec fn spawn_bytes(client_id: NodeId, pseudo: Seq<u8>) -> Seq<u8> {
    spec_u32_to_le_bytes(client_id) + spec_u32_to_le_bytes(0) + spec_u32_to_le_bytes(0) + seq![
        pseudo.len() as u8,
    ] + pseudo
}

/// The bytes of the welcome of `client_id` in chunk 0:0.
pub open spec fn welcome_bytes(client_id: NodeId) -> Seq<u8> {
    spec_u32_to_le_bytes(client_id) + spec_u32_to_le_bytes(0) + spec_u32_to_le_bytes(0)
}

/// The pseudonym bytes of a hello message.
pub open spec fn hello_pseudo(data: Seq<u8>) -> Seq<u8> {
    data.subrange(2, 2 + spec_u16_from_le_bytes(data.subrange(0, 2)))
}

/// A player's hello carries a pseudonym of at most 255 bytes: the spawn
/// order has one byte for its length.
pub open spec fn hello_fits(event: ClientNetworkEvent) -> bool {
    match event {
        ClientNetworkEvent::DataReceived { payload, .. } => payload.header
            == GameMessageHeaders::ClientHello && ClientHelloMsg::spec_readable(
            bytes_contents(payload.data),
        ) ==> hello_pseudo(bytes_contents(payload.data)).len() <= 255,
        _ => true,
    }
}

/// `sends` are the requests `expected`, on the reliable stream of the
/// client's connection; none without a connection.
pub open spec fn sends_are(sends: Seq<Outgoing>, connection: Option<u128>, expected: Seq<Seq<u8>>) -> bool {
    match connection {
        Some(c) => {
            &&& sends.len() == expected.len()
            &&& forall|i: int|
                0 <= i < sends.len() ==> #[trigger] sends[i].connection == c && sends[i].stream
                    == reliable_stream() && bytes_contents(sends[i].data) == expected[i]
        },
        None => sends.len() == 0,
    }
}

/// The requests owed when a player with pseudonym bytes `pseudo` is
/// admitted, game servers `active` being known.
pub open spec fn admission_requests(active: Seq<NodeId>, client_id: NodeId, pseudo: Seq<u8>) -> Seq<Seq<u8>> {
    let first = seq![
        message_encoding(MessageView::AuthorizeClient { client_id }),
        message_encoding(MessageView::Subscribe { client_id, topic: chunk_zero_topic() }),
    ];
    if active.len() == 0 {
        first
    } else {
        first + seq![
            publish_bytes(
                node_line_topic(SecurityDomain::PrivateRW, active[0]),
                GameMessageHeaders::SpawnClient.code(),
                spawn_bytes(client_id, pseudo),
            ),
            publish_bytes(
                node_line_topic(SecurityDomain::PublicReadPrivateWrite, client_id),
                GameMessageHeaders::ClientWelcome.code(),
                welcome_bytes(client_id),
            ),
        ]
    }
}
/// A player is spawned on the game server that was told to take chunk 0:0,
/// the first one that said hello, however many said hello after it; the
/// spawn order goes on the same direct line as that server's order to take
/// the chunk.
pub proof fn lemma_spawn_on_chunk_owner(
    owner: NodeId,
    active: Seq<NodeId>,
    client_id: NodeId,
    pseudo: Seq<u8>,
)
    requires
        seq![owner].is_prefix_of(active),
    ensures
        admission_requests(active, client_id, pseudo).len() == 4,
        admission_requests(active, client_id, pseudo)[2] == publish_bytes(
            node_line_topic(SecurityDomain::PrivateRW, owner),
            GameMessageHeaders::SpawnClient.code(),
            spawn_bytes(client_id, pseudo),
        ),
{
    assert(active[0] == seq![owner][0]);
}


/// The spatial and authentication server: the game servers it knows, in
/// the order they said hello.
pub struct SpatialAuthServer {
    active_dgs: Vec<NodeId>,
}

impl SpatialAuthServer {
    /// The game servers known.
    pub closed spec fn active(&self) -> Seq<NodeId> {
        self.active_dgs@
    }

    /// A server that knows no game server.
    pub fn new() -> (r: Self)
        ensures
            r.active() == Seq::<NodeId>::empty(),
    {
        SpatialAuthServer { active_dgs: Vec::new() }
    }

    /// The number of game servers known.
    pub fn game_servers(&self) -> (r: usize)
        ensures
            r == self.active().len(),
    {
        self.active_dgs.len()
    }

    /// Appends the request `o`, if any, to `sends`.
    fn push_request(sends: &mut Vec<Outgoing>, o: Option<Outgoing>)
        ensures
            final(sends)@ == match o {
                Some(x) => old(sends)@.push(x),
                None => old(sends)@,
            },
    {
        match o {
            Some(x) => sends.push(x),
            None => {},
        }
    }

    /// What the server does on an event of its broker connection.  Once
    /// ready it listens to the servers' hellos and the clients' admission
    /// requests; on losing the connection it reconnects.  A game server's
    /// hello adds it to the known ones, and the first one is told to take
    /// chunk 0:0.  A player's hello admits it.  Malformed hellos, hellos of
    /// other kinds of nodes and other messages are ignored.
    pub fn handle_event(&mut self, client: &MmoNetworkClient, event: ClientNetworkEvent) -> (r:
        SpatialReaction)
        requires
            client.wf(),
            old(self).active().len() > 0 ==> hello_fits(event),
        ensures
            old(self).active().is_prefix_of(final(self).active()),
            match event {
                ClientNetworkEvent::Ready => {
                    &&& final(self).active() == old(self).active()
                    &&& !r.reconnect
                    &&& sends_are(
                        r.sends@,
                        client.spec_connection(),
                        seq![
                            message_encoding(
                                MessageView::Subscribe {
                                    client_id: 0,
                                    topic: system_topic(Namespace::ServerConnection),
                                },
                            ),
                            message_encoding(
                                MessageView::Subscribe { client_id: 0, topic: client_auth_topic() },
                            ),
                        ],
                    )
                },
                ClientNetworkEvent::Disconnected => {
                    &&& final(self).active() == old(self).active()
                    &&& r.reconnect
                    &&& r.sends@.len() == 0
                },
                ClientNetworkEvent::DataReceived { client_id, payload, .. } => {
                    let data = bytes_contents(payload.data);
                    &&& !r.reconnect
                    &&& if payload.header == GameMessageHeaders::FriendHello
                        && ServerHelloMSG::spec_readable(data) && ServerType::from_code(data[0])
                        == ServerType::Server {
                        let id = vstd::bytes::spec_u32_from_le_bytes(data.subrange(1, 5));
                        &&& final(self).active() == old(self).active().push(id)
                        &&& sends_are(
                            r.sends@,
                            client.spec_connection(),
                            if old(self).active().len() == 0 {
                                seq![
                                    publish_bytes(
                                        node_line_topic(SecurityDomain::PrivateRW, id),
                                        GameMessageHeaders::TakeChunk.code(),
                                        take_chunk_bytes(),
                                    ),
                                ]
                            } else {
                                Seq::empty()
                            },
                        )
                    } else if payload.header == GameMessageHeaders::ClientHello
                        && ClientHelloMsg::spec_readable(data) {
                        &&& final(self).active() == old(self).active()
                        &&& sends_are(
                            r.sends@,
                            client.spec_connection(),
                            admission_requests(old(self).active(), client_id, hello_pseudo(data)),
                        )
                    } else {
                        &&& final(self).active() == old(self).active()
                        &&& r.sends@.len() == 0
                    }
                },
                ClientNetworkEvent::Connected => {
                    &&& final(self).active() == old(self).active()
                    &&& !r.reconnect
                    &&& r.sends@.len() == 0
                },
            },
    {
        let mut sends: Vec<Outgoing> = Vec::new();
        match event {
            ClientNetworkEvent::Ready => {
                let auth_private = TopicBuilder::new(
                    SecurityDomain::PrivateRW,
                    Namespace::ServerConnection,
                ).build();
                let auth_public_listen = TopicBuilder::new(
                    SecurityDomain::PrivateReadPublicWrite,
                    Namespace::ClientAuth,
                ).build();
                assert(auth_private@ =~= system_topic(Namespace::ServerConnection));
                assert(auth_public_listen@ =~= client_auth_topic());
                Self::push_request(&mut sends, client.subscribe(auth_private, 0));
                Self::push_request(&mut sends, client.subscribe(auth_public_listen, 0));
                SpatialReaction { sends, reconnect: false }
            },
            ClientNetworkEvent::Connected => SpatialReaction { sends, reconnect: false },
            ClientNetworkEvent::Disconnected => SpatialReaction { sends, reconnect: true },
            ClientNetworkEvent::DataReceived { client_id, stream: _, payload } => {
                let mut payload = payload;
                if payload.header == GameMessageHeaders::FriendHello {
                    let friend = match payload.extract::<ServerHelloMSG>() {
                        Ok(f) => f,
                        Err(_) => {
                            return SpatialReaction { sends, reconnect: false };
                        },
                    };
                    if friend.server_type == ServerType::Server {
                        let dgs_net_id = friend.id;
                        self.active_dgs.push(dgs_net_id);
                        let topic = TopicBuilder::new(
                            SecurityDomain::PrivateRW,
                            Namespace::NodeLine,
                        ).append_id(dgs_net_id).build();
                        proof {
                            vstd::bytes::lemma_auto_spec_u32_to_from_le_bytes();
                            assert(topic@ =~= node_line_topic(SecurityDomain::PrivateRW, dgs_net_id));
                        }
                        if self.active_dgs.len() == 1 {
                            let msg = TakeChunkMessage { chunk_x: 0, chunk_y: 0 };
                            Self::push_request(&mut sends, client.publish_reliable(topic, &msg));
                        }
                    }
                    SpatialReaction { sends, reconnect: false }
                } else if payload.header == GameMessageHeaders::ClientHello {
                    let ghost data = bytes_contents(payload.data);
                    let msg = match payload.extract::<ClientHelloMsg>() {
                        Ok(m) => m,
                        Err(_) => {
                            return SpatialReaction { sends, reconnect: false };
                        },
                    };
                    proof {
                        vstd::utf8::decode_utf8_encode_utf8(hello_pseudo(data));
                        assert(string_bytes(&msg.pseudo) == hello_pseudo(data));
                    }
                    Self::push_request(&mut sends, client.authorize_client(client_id));
                    let chunk = GameChunk { x: 0, y: 0 };
                    let chunk_0_0_state = TopicBuilder::new(
                        SecurityDomain::PublicReadPrivateWrite,
                        Namespace::Chunk,
                    ).append_chunk(&chunk).build();
                    proof {
                        vstd::bytes::lemma_auto_spec_u16_to_from_le_bytes();
                        assert(chunk_0_0_state@ =~= chunk_zero_topic());
                    }
                    Self::push_request(&mut sends, client.subscribe(chunk_0_0_state, client_id));
                    if self.active_dgs.len() < 1 {
                        return SpatialReaction { sends, reconnect: false };
                    }
                    let server_topic = TopicBuilder::new(
                        SecurityDomain::PrivateRW,
                        Namespace::NodeLine,
                    ).append_id(self.active_dgs[0]).build();
                    let spawn = SpawnClientMsg {
                        client_id,
                        pseudo: msg.pseudo,
                        chunk_x: chunk.x as i32,
                        chunk_y: chunk.y as i32,
                    };
                    Self::push_request(&mut sends, client.publish_reliable(server_topic, &spawn));
                    let welcome = ClientWelcomeMsg {
                        client_id,
                        chunk_x: chunk.x as i32,
                        chunk_y: chunk.y as i32,
                    };
                    let client_topic = TopicBuilder::new(
                        SecurityDomain::PublicReadPrivateWrite,
                        Namespace::NodeLine,
                    ).append_id(client_id).build();
                    proof {
                        vstd::bytes::lemma_auto_spec_u32_to_from_le_bytes();
                        assert(server_topic@ =~= node_line_topic(
                            SecurityDomain::PrivateRW,
                            self.active_dgs@[0],
                        ));
                        assert(client_topic@ =~= node_line_topic(
                            SecurityDomain::PublicReadPrivateWrite,
                            client_id,
                        ));
                    }
                    Self::push_request(&mut sends, client.publish_reliable(client_topic, &welcome));
                    SpatialReaction { sends, reconnect: false }
                } else {
                    SpatialReaction { sends, reconnect: false }
                }
            },
        }
    }
}

} // verus!
