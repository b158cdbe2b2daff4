//! Topics of the publish/subscribe broker.
//!
//! A topic is 16 bytes.  Its first byte is its head: the security domain in
//! the two high bits and the namespace in the six low bits.  What follows is
//! free-form (chunk coordinates, node ids, ...), zero-padded.
use crate::core_types::chunks::GameChunk;
use vstd::prelude::*;
use vstd::bytes::{spec_u16_to_le_bytes, spec_u32_to_le_bytes, u16_to_le_bytes, u32_to_le_bytes};

verus! {

/// The namespace in which clients may publish before the broker has
/// authorized them.
pub const AUTH_FREE_NAMESPACE_FOR_CLIENTS_CONNEXION: Namespace = Namespace::ClientAuth;

/// Who may read and who may write a topic.
#[derive(Debug, Clone, Copy, PartialEq, Eq, Structural)]
pub enum SecurityDomain {
    /// World state: everybody reads, only servers write.
    PublicReadPrivateWrite,
    /// Client connection and input: clients write, only servers read.
    PrivateReadPublicWrite,
    /// Server-to-server traffic.
    PrivateRW,
}

impl SecurityDomain {
    /// The two-bit code of the domain.
    pub open spec fn code(self) -> u8 {
        match self {
            SecurityDomain::PublicReadPrivateWrite => 0x01,
            SecurityDomain::PrivateReadPublicWrite => 0x02,
            SecurityDomain::PrivateRW => 0x03,
        }
    }

    /// The domain whose code is `value`, if any.
    pub open spec fn from_code(value: u8) -> Option<SecurityDomain> {
        if value == 0x01 {
            Some(SecurityDomain::PublicReadPrivateWrite)
        } else if value == 0x02 {
            Some(SecurityDomain::PrivateReadPublicWrite)
        } else if value == 0x03 {
            Some(SecurityDomain::PrivateRW)
        } else {
            None
        }
    }

    pub fn as_u8(self) -> (r: u8)
        ensures
            r == self.code(),
    {
        match self {
            SecurityDomain::PublicReadPrivateWrite => 0x01,
            SecurityDomain::PrivateReadPublicWrite => 0x02,
            SecurityDomain::PrivateRW => 0x03,
        }
    }

    /// Decodes a domain code; any other value is refused.
    pub fn try_from(value: u8) -> (r: Result<SecurityDomain, &'static str>)
        ensures
            match Self::from_code(value) {
                Some(d) => r == Ok::<SecurityDomain, &'static str>(d),
                None => r.is_err(),
            },
    {
        if value == 0x01 {
            Ok(SecurityDomain::PublicReadPrivateWrite)
        } else if value == 0x02 {
            Ok(SecurityDomain::PrivateReadPublicWrite)
        } else if value == 0x03 {
            Ok(SecurityDomain::PrivateRW)
        } else {
            Err("Domaine de sécurité inconnu")
        }
    }
}

/// The family of messages a topic belongs to.
#[derive(Debug, Clone, Copy, PartialEq, Eq, Structural)]
pub enum Namespace {
    /// A server announces itself here.
    ServerConnection,
    /// Client to server authentication.
    ClientAuth,
    /// Events of one chunk.
    Chunk,
    /// Player input of one chunk.
    SpatialInput,
    /// Messages to the spatial server.
    SpatialServer,
    /// Orders to the game servers.
    Director,
    /// Heartbeats of the shards.
    Heartbeat,
    /// Direct line to one node.
    NodeLine,
}

impl Namespace {
    /// The six-bit code of the namespace.
    pub open spec fn code(self) -> u8 {
        match self {
            Namespace::ServerConnection => 0x04,
            Namespace::ClientAuth => 0x05,
            Namespace::Chunk => 0x06,
            Namespace::SpatialInput => 0x11,
            Namespace::SpatialServer => 0x12,
            Namespace::Director => 0x30,
            Namespace::Heartbeat => 0x31,
            Namespace::NodeLine => 0x32,
        }
    }

    /// The namespace whose code is `value`, if any.
    pub open spec fn from_code(value: u8) -> Option<Namespace> {
        if value == 0x04 {
            Some(Namespace::ServerConnection)
        } else if value == 0x05 {
            Some(Namespace::ClientAuth)
        } else if value == 0x06 {
            Some(Namespace::Chunk)
        } else if value == 0x11 {
            Some(Namespace::SpatialInput)
        } else if value == 0x12 {
            Some(Namespace::SpatialServer)
        } else if value == 0x30 {
            Some(Namespace::Director)
        } else if value == 0x31 {
            Some(Namespace::Heartbeat)
        } else if value == 0x32 {
            Some(Namespace::NodeLine)
        } else {
            None
        }
    }

    pub fn as_u8(self) -> (r: u8)
        ensures
            r == self.code(),
    {
        match self {
            Namespace::ServerConnection => 0x04,
            Namespace::ClientAuth => 0x05,
            Namespace::Chunk => 0x06,
            Namespace::SpatialInput => 0x11,
            Namespace::SpatialServer => 0x12,
            Namespace::Director => 0x30,
            Namespace::Heartbeat => 0x31,
            Namespace::NodeLine => 0x32,
        }
    }

    /// Decodes a namespace code; any other value is refused.
    pub fn try_from(value: u8) -> (r: Result<Namespace, &'static str>)
        ensures
            match Self::from_code(value) {
                Some(n) => r == Ok::<Namespace, &'static str>(n),
                None => r.is_err(),
            },
    {
        if value == 0x04 {
            Ok(Namespace::ServerConnection)
        } else if value == 0x05 {
            Ok(Namespace::ClientAuth)
        } else if value == 0x06 {
            Ok(Namespace::Chunk)
        } else if value == 0x11 {
            Ok(Namespace::SpatialInput)
        } else if value == 0x12 {
            Ok(Namespace::SpatialServer)
        } else if value == 0x30 {
            Ok(Namespace::Director)
        } else if value == 0x31 {
            Ok(Namespace::Heartbeat)
        } else if value == 0x32 {
            Ok(Namespace::NodeLine)
        } else {
            Err("Namespace inconnu")
        }
    }
}

/// A topic of the broker.
pub type Topic = [u8; 16];

/// The number of bytes of a topic.
pub const TOPIC_LENGTH: u8 = 16;

/// The head byte of a topic: domain in the two high bits, namespace in the
/// six low bits.
pub open spec fn head_byte(domain: SecurityDomain, namespace: Namespace) -> u8 {
    ((domain.code() << 6u8) | (namespace.code() & 0x3fu8)) as u8
}

/// The domain that a head byte names, if any.
pub open spec fn head_domain(head: u8) -> Option<SecurityDomain> {
    SecurityDomain::from_code((head >> 6u8) & 3u8)
}

/// The namespace that a head byte names, if any.
pub open spec fn head_namespace(head: u8) -> Option<Namespace> {
    Namespace::from_code(head & 0x3fu8)
}

/// Reading the domain and namespace of a topic.
pub trait TopicInterface {
    fn security_domain(&self) -> Option<SecurityDomain>;

    fn namespace(&self) -> Option<Namespace>;
}

/// The all-zero topic, the topic length, and head bytes.
pub trait TopicDefaults: Sized {
    fn default_topic() -> Self;

    fn topic_length() -> usize;

    fn security_namespace_as_u8(domain: SecurityDomain, namespace: Namespace) -> u8;
}

impl TopicDefaults for Topic {
    fn default_topic() -> (r: Self)
        ensures
            r@ == Seq::new(16, |i: int| 0u8),
    {
        let r = [0u8; 16];
        assert(r@ =~= Seq::new(16, |i: int| 0u8));
        r
    }

    fn topic_length() -> (r: usize)
        ensures
            r == 16,
    {
        16
    }

    fn security_namespace_as_u8(domain: SecurityDomain, namespace: Namespace) -> (r: u8)
        ensures
            r == head_byte(domain, namespace),
    {
        (domain.as_u8() << 6u8) | (namespace.as_u8() & 0x3fu8)
    }
}

impl TopicInterface for Topic {
    fn security_domain(&self) -> (r: Option<SecurityDomain>)
        ensures
            r == head_domain(self@[0]),
    {
        let domain_val = (self[0] >> 6u8) & 3u8;
        SecurityDomain::try_from(domain_val).ok()
    }

    fn namespace(&self) -> (r: Option<Namespace>)
        ensures
            r == head_namespace(self@[0]),
    {
        let namespace_val = self[0] & 0x3fu8;
        Namespace::try_from(namespace_val).ok()
    }
}

/// `buf` with `s` written over it from position `at` on.
pub open spec fn write_at(buf: Seq<u8>, at: int, s: Seq<u8>) -> Seq<u8> {
    buf.take(at) + s + buf.skip(at + s.len())
}

/// Copies `s` into `buf` from position `at` on.
fn write_bytes(buf: &mut Topic, at: usize, s: &[u8])
    requires
        at + s@.len() <= 16,
    ensures
        final(buf)@ == write_at(old(buf)@, at as int, s@),
{
    let n = s.len();
    let mut i: usize = 0;
    while i < n
        invariant
            n == s@.len(),
            at + n <= 16,
            0 <= i <= n,
            buf@ == write_at(old(buf)@, at as int, s@.take(i as int)),
        decreases n - i,
    {
        buf[at + i] = s[i];
        i = i + 1;
        assert(buf@ =~= write_at(old(buf)@, at as int, s@.take(i as int)));
    }
    assert(s@.take(n as int) =~= s@);
}

/// Builds a topic byte by byte.  The builder knows where its next byte goes;
/// writing past the sixteen bytes of a topic is refused.
#[derive(Debug, Clone, Copy)]
pub struct TopicBuilder {
    buffer: Topic,
    cursor: usize,
}

impl TopicBuilder {
    #[verifier::type_invariant]
    spec fn cursor_in_topic(self) -> bool {
        self.cursor <= 16
    }

    /// The sixteen bytes of the topic under construction.
    pub closed spec fn bytes(self) -> Seq<u8> {
        self.buffer@
    }

    /// A builder always holds the sixteen bytes of a topic.
    pub proof fn lemma_sixteen_bytes(self)
        ensures
            self.bytes().len() == 16,
    {
    }

    /// Where the next byte goes.
    pub closed spec fn position(self) -> nat {
        self.cursor as nat
    }

    /// How many bytes have been written.
    pub fn written(&self) -> (r: usize)
        ensures
            r == self.position(),
            r <= 16,
    {
        proof {
            use_type_invariant(self);
        }
        self.cursor
    }

    /// A builder whose head byte carries `domain` and `namespace`; the next
    /// byte goes to position 1.
    pub fn new(domain: SecurityDomain, namespace: Namespace) -> (r: Self)
        ensures
            r.bytes() == seq![head_byte(domain, namespace)] + Seq::new(15, |i: int| 0u8),
            r.position() == 1,
            r.bytes().len() == 16,
    {
        let first_byte = (domain.as_u8() << 6u8) | (namespace.as_u8() & 0x3fu8);
        let mut buffer = [0u8; 16];
        buffer[0] = first_byte;
        assert(buffer@ =~= seq![head_byte(domain, namespace)] + Seq::new(15, |i: int| 0u8));
        TopicBuilder { buffer, cursor: 1 }
    }

    /// An empty builder: sixteen zero bytes, next byte at position 0.
    pub fn empty() -> (r: Self)
        ensures
            r.bytes() == Seq::new(16, |i: int| 0u8),
            r.position() == 0,
            r.bytes().len() == 16,
    {
        let buffer = [0u8; 16];
        assert(buffer@ =~= Seq::new(16, |i: int| 0u8));
        TopicBuilder { buffer, cursor: 0 }
    }

    /// Writes the chunk's x then y, each on two little-endian bytes.
    pub fn append_chunk(self, p0: &GameChunk) -> (r: Self)
        requires
            self.position() + 4 <= 16,
        ensures
            r.bytes() == write_at(
                self.bytes(),
                self.position() as int,
                spec_u16_to_le_bytes(p0.x as u16) + spec_u16_to_le_bytes(p0.y as u16),
            ),
            r.position() == self.position() + 4,
            r.bytes().len() == 16,
    {
        proof {
            use_type_invariant(self);
            vstd::bytes::lemma_auto_spec_u16_to_from_le_bytes();
        }
        let mut buffer = self.buffer;
        let pos = self.cursor;
        let xs = u16_to_le_bytes(p0.x as u16);
        let ys = u16_to_le_bytes(p0.y as u16);
        write_bytes(&mut buffer, pos, xs.as_slice());
        write_bytes(&mut buffer, pos + 2, ys.as_slice());
        assert(buffer@ =~= write_at(
            self.buffer@,
            pos as int,
            spec_u16_to_le_bytes(p0.x as u16) + spec_u16_to_le_bytes(p0.y as u16),
        ));
        TopicBuilder { buffer, cursor: pos + 4 }
    }

    /// Writes a node or entity id on four little-endian bytes.
    pub fn append_id(self, entity: u32) -> (r: Self)
        requires
            self.position() + 4 <= 16,
        ensures
            r.bytes() == write_at(self.bytes(), self.position() as int, spec_u32_to_le_bytes(entity)),
            r.position() == self.position() + 4,
            r.bytes().len() == 16,
    {
        proof {
            use_type_invariant(self);
            vstd::bytes::lemma_auto_spec_u32_to_from_le_bytes();
        }
        let mut buffer = self.buffer;
        let bytes = u32_to_le_bytes(entity);
        write_bytes(&mut buffer, self.cursor, bytes.as_slice());
        TopicBuilder { buffer, cursor: self.cursor + 4 }
    }

    /// Replaces the namespace bits of the head byte, keeping the domain bits.
    pub fn change_namespace(self, namespace: Namespace) -> (r: Self)
        ensures
            r.bytes() == self.bytes().update(
                0,
                ((self.bytes()[0] & 0xc0u8) | (namespace.code() & 0x3fu8)) as u8,
            ),
            r.position() == self.position(),
            r.bytes().len() == 16,
    {
        proof {
            use_type_invariant(self);
        }
        let mut buffer = self.buffer;
        let namespace_val = namespace.as_u8();
        buffer[0] = (buffer[0] & 0xc0u8) | (namespace_val & 0x3fu8);
        TopicBuilder { buffer, cursor: self.cursor }
    }

    /// Replaces the domain bits of the head byte, keeping the namespace bits.
    pub fn change_security_domain(self, security_domain: SecurityDomain) -> (r: Self)
        ensures
            r.bytes() == self.bytes().update(
                0,
                ((self.bytes()[0] & 0x3fu8) | ((security_domain.code() << 6u8) & 0xc0u8)) as u8,
            ),
            r.position() == self.position(),
            r.bytes().len() == 16,
    {
        proof {
            use_type_invariant(self);
        }
        let mut buffer = self.buffer;
        let secu_val = security_domain.as_u8();
        buffer[0] = (buffer[0] & 0x3fu8) | ((secu_val << 6u8) & 0xc0u8);
        TopicBuilder { buffer, cursor: self.cursor }
    }

    /// The topic built so far.
    pub fn build(self) -> (r: Topic)
        ensures
            r@ == self.bytes(),
    {
        self.buffer
    }

    /// Writes `sub_topic` at the write position.
    pub fn append(self, sub_topic: &[u8]) -> (r: Self)
        requires
            self.position() + sub_topic@.len() <= 16,
        ensures
            r.bytes() == write_at(self.bytes(), self.position() as int, sub_topic@),
            r.position() == self.position() + sub_topic@.len(),
            r.bytes().len() == 16,
    {
        proof {
            use_type_invariant(self);
        }
        let mut buffer = self.buffer;
        let slice_len = sub_topic.len();
        write_bytes(&mut buffer, self.cursor, sub_topic);
        TopicBuilder { buffer, cursor: self.cursor + slice_len }
    }
}

/// A topic made by `TopicBuilder::new(domain, namespace)` reads back that
/// domain and that namespace.
pub proof fn lemma_head_byte_round_trip(domain: SecurityDomain, namespace: Namespace)
    ensures
        head_domain(head_byte(domain, namespace)) == Some(domain),
        head_namespace(head_byte(domain, namespace)) == Some(namespace),
{
    let d = domain.code();
    let n = namespace.code();
    assert(1 <= d <= 3 && n < 64);
    assert(((((d << 6u8) | (n & 0x3fu8)) as u8 >> 6u8) & 3u8) == d) by (bit_vector)
        requires
            1 <= d <= 3,
            n < 64,
    ;
    assert((((d << 6u8) | (n & 0x3fu8)) as u8 & 0x3fu8) == n) by (bit_vector)
        requires
            1 <= d <= 3,
            n < 64,
    ;
}

/// Changing the namespace of a builder keeps its domain and sets the new
/// namespace; changing its domain keeps its namespace and sets the new domain.
pub proof fn lemma_change_head(head: u8, domain: SecurityDomain, namespace: Namespace)
    ensures
        head_domain(((head & 0xc0u8) | (namespace.code() & 0x3fu8)) as u8) == head_domain(head),
        head_namespace(((head & 0xc0u8) | (namespace.code() & 0x3fu8)) as u8) == Some(namespace),
        head_namespace(((head & 0x3fu8) | ((domain.code() << 6u8) & 0xc0u8)) as u8)
            == head_namespace(head),
        head_domain(((head & 0x3fu8) | ((domain.code() << 6u8) & 0xc0u8)) as u8) == Some(domain),
{
    let d = domain.code();
    let n = namespace.code();
    assert(1 <= d <= 3 && n < 64);
    assert(((((head & 0xc0u8) | (n & 0x3fu8)) as u8 >> 6u8) & 3u8) == ((head >> 6u8) & 3u8))
        by (bit_vector)
        requires
            n < 64,
    ;
    assert((((head & 0xc0u8) | (n & 0x3fu8)) as u8 & 0x3fu8) == n) by (bit_vector)
        requires
            n < 64,
    ;
    assert((((head & 0x3fu8) | ((d << 6u8) & 0xc0u8)) as u8 & 0x3fu8) == (head & 0x3fu8))
        by (bit_vector)
        requires
            d <= 3,
    ;
    assert(((((head & 0x3fu8) | ((d << 6u8) & 0xc0u8)) as u8 >> 6u8) & 3u8) == d) by (bit_vector)
        requires
            1 <= d <= 3,
    ;
}


/// Appending a chunk writes what appending its x, then its y, each on two
/// little-endian bytes, writes.
pub proof fn lemma_append_chunk_as_appends(b: TopicBuilder, c: GameChunk)
    requires
        b.position() + 4 <= 16,
    ensures
        ({
            let x = spec_u16_to_le_bytes(c.x as u16);
            let y = spec_u16_to_le_bytes(c.y as u16);
            write_at(write_at(b.bytes(), b.position() as int, x), b.position() + 2int, y) == write_at(
                b.bytes(),
                b.position() as int,
                x + y,
            )
        }),
{
    vstd::bytes::lemma_auto_spec_u16_to_from_le_bytes();
    b.lemma_sixteen_bytes();
    let x = spec_u16_to_le_bytes(c.x as u16);
    let y = spec_u16_to_le_bytes(c.y as u16);
    let p = b.position() as int;
    assert(x.len() == 2 && y.len() == 2);
    assert(write_at(write_at(b.bytes(), p, x), p + 2, y) =~= write_at(b.bytes(), p, x + y));
}

} // verus!
