//! Topics of thirty-two bytes, as the first broker built them: the domain in
//! byte 0, the namespace in byte 1, then the parts the builder appends.
use crate::broker_protocol::topics::write_at;
use vstd::bytes::{spec_u16_to_le_bytes, spec_u32_to_le_bytes, u16_to_le_bytes, u32_to_le_bytes};
use vstd::prelude::*;

verus! {

/// The namespace in which clients may publish before authorization.
pub const AUTH_FREE_NAMESPACE_FOR_CLIENTS_CONNEXION: Namespace = Namespace::ClientAuth;

/// Who may read and who may write a topic.
#[derive(Debug, Clone, Copy, PartialEq, Eq, Structural)]
pub enum SecurityDomain {
    /// World state: everybody reads.
    PublicReadPrivateWrite,
    /// Client connection and input.
    PrivateReadPublicWrite,
    /// Server-to-server traffic.
    PrivateRW,
}

impl SecurityDomain {
    /// The byte of the domain.
    pub open spec fn code(self) -> u8 {
        match self {
            SecurityDomain::PublicReadPrivateWrite => 0x01,
            SecurityDomain::PrivateReadPublicWrite => 0x02,
            SecurityDomain::PrivateRW => 0x03,
        }
    }

    /// The domain whose byte is `value`, if any.
    pub open spec fn from_code(value: u8) -> Option<SecurityDomain> {
        if value == 0x01 {
            Some(SecurityDomain::PublicReadPrivateWrite)
        } else if value == 0x02 {
            Some(SecurityDomain::PrivateReadPublicWrite)
        } else if value == 0x03 {
            Some(SecurityDomain::PrivateRW)
        } else {
            None
        }
    }

    pub fn as_u8(self) -> (r: u8)
        ensures
            r == self.code(),
    {
        match self {
            SecurityDomain::PublicReadPrivateWrite => 0x01,
            SecurityDomain::PrivateReadPublicWrite => 0x02,
            SecurityDomain::PrivateRW => 0x03,
        }
    }

    /// Decodes a domain byte.
    pub fn try_from(value: u8) -> (r: Result<SecurityDomain, &'static str>)
        ensures
            match Self::from_code(value) {
                Some(d) => r == Ok::<SecurityDomain, &'static str>(d),
                None => r is Err,
            },
    {
        if value == 0x01 {
            Ok(SecurityDomain::PublicReadPrivateWrite)
        } else if value == 0x02 {
            Ok(SecurityDomain::PrivateReadPublicWrite)
        } else if value == 0x03 {
            Ok(SecurityDomain::PrivateRW)
        } else {
            Err("Domaine de sécurité inconnu")
        }
    }
}

/// The family of messages a topic belongs to.
#[derive(Debug, Clone, Copy, PartialEq, Eq, Structural)]
pub enum Namespace {
    ServerConnection,
    ClientAuth,
    Chunk,
    SpatialInput,
    Director,
    Heartbeat,
    /// Direct line to a server.
    ServerLine,
    /// Direct line to a client.
    ClientLine,
}

impl Namespace {
    /// The byte of the namespace.
    pub open spec fn code(self) -> u8 {
        match self {
            Namespace::ServerConnection => 0x04,
            Namespace::ClientAuth => 0x05,
            Namespace::Chunk => 0x06,
            Namespace::SpatialInput => 0x11,
            Namespace::Director => 0x30,
            Namespace::Heartbeat => 0x31,
            Namespace::ServerLine => 0x32,
            Namespace::ClientLine => 0x33,
        }
    }

    /// The namespace that a byte is read as.  The client line's byte is not
    /// read back.
    pub open spec fn from_code(value: u8) -> Option<Namespace> {
        if value == 0x04 {
            Some(Namespace::ServerConnection)
        } else if value == 0x05 {
            Some(Namespace::ClientAuth)
        } else if value == 0x06 {
            Some(Namespace::Chunk)
        } else if value == 0x11 {
            Some(Namespace::SpatialInput)
        } else if value == 0x30 {
            Some(Namespace::Director)
        } else if value == 0x31 {
            Some(Namespace::Heartbeat)
        } else if value == 0x32 {
            Some(Namespace::ServerLine)
        } else {
            None
        }
    }

    pub fn as_u8(self) -> (r: u8)
        ensures
            r == self.code(),
    {
        match self {
            Namespace::ServerConnection => 0x04,
            Namespace::ClientAuth => 0x05,
            Namespace::Chunk => 0x06,
            Namespace::SpatialInput => 0x11,
            Namespace::Director => 0x30,
            Namespace::Heartbeat => 0x31,
            Namespace::ServerLine => 0x32,
            Namespace::ClientLine => 0x33,
        }
    }

    /// Decodes a namespace byte.
    pub fn try_from(value: u8) -> (r: Result<Namespace, &'static str>)
        ensures
            match Self::from_code(value) {
                Some(n) => r == Ok::<Namespace, &'static str>(n),
                None => r is Err,
            },
    {
        if value == 0x04 {
            Ok(Namespace::ServerConnection)
        } else if value == 0x05 {
            Ok(Namespace::ClientAuth)
        } else if value == 0x06 {
            Ok(Namespace::Chunk)
        } else if value == 0x11 {
            Ok(Namespace::SpatialInput)
        } else if value == 0x30 {
            Ok(Namespace::Director)
        } else if value == 0x31 {
            Ok(Namespace::Heartbeat)
        } else if value == 0x32 {
            Ok(Namespace::ServerLine)
        } else {
            Err("Namespace inconnu")
        }
    }
}

/// A topic of thirty-two bytes.
pub type Topic = [u8; 32];

/// Reading the domain and namespace of a topic, and the all-zero topic.
pub trait TopicInterface: Sized {
    fn security_domain(&self) -> Option<SecurityDomain>;

    /// Whether `t` is the all-zero topic.
    spec fn is_default(t: Self) -> bool;

    fn default() -> (r: Self)
        ensures
            Self::is_default(r),
    ;

    fn namespace(&self) -> Option<Namespace>;
}

impl TopicInterface for Topic {
    fn security_domain(&self) -> (r: Option<SecurityDomain>)
        ensures
            r == SecurityDomain::from_code(self@[0]),
    {
        SecurityDomain::try_from(self[0]).ok()
    }

    open spec fn is_default(t: Self) -> bool {
        t@ == Seq::new(32, |i: int| 0u8)
    }

    fn default() -> (r: Self) {
        let r = [0u8; 32];
        assert(r@ =~= Seq::new(32, |i: int| 0u8));
        r
    }

    fn namespace(&self) -> (r: Option<Namespace>)
        ensures
            r == Namespace::from_code(self@[1]),
    {
        Namespace::try_from(self[1]).ok()
    }
}

/// Copies `s` into `buf` from position `at` on.
fn write_bytes(buf: &mut Topic, at: usize, s: &[u8])
    requires
        at + s@.len() <= 32,
    ensures
        final(buf)@ == write_at(old(buf)@, at as int, s@),
{
    let n = s.len();
    let mut i: usize = 0;
    while i < n
        invariant
            n == s@.len(),
            at + n <= 32,
            0 <= i <= n,
            buf@ == write_at(old(buf)@, at as int, s@.take(i as int)),
        decreases n - i,
    {
        buf[at + i] = s[i];
        i = i + 1;
        assert(buf@ =~= write_at(old(buf)@, at as int, s@.take(i as int)));
    }
    assert(s@.take(n as int) =~= s@);
}

/// Builds a topic part by part; it never writes past its thirty-two bytes.
#[derive(Debug, Clone, Copy)]
pub struct TopicBuilder {
    buffer: Topic,
    current_index: u8,
}

impl TopicBuilder {
    #[verifier::type_invariant]
    spec fn index_in_topic(self) -> bool {
        self.current_index <= 32
    }

    /// The thirty-two bytes under construction.
    pub closed spec fn bytes(self) -> Seq<u8> {
        self.buffer@
    }

    /// Where the next part goes.
    pub closed spec fn position(self) -> nat {
        self.current_index as nat
    }

    /// Domain in byte 0, namespace in byte 1, zeros after; the next part goes
    /// to byte 2.
    pub fn new(domain: SecurityDomain, namespace: Namespace) -> (r: Self)
        ensures
            r.bytes() == seq![domain.code(), namespace.code()] + Seq::new(30, |i: int| 0u8),
            r.position() == 2,
    {
        let mut buffer = [0u8; 32];
        buffer[0] = domain.as_u8();
        buffer[1] = namespace.as_u8();
        assert(buffer@ =~= seq![domain.code(), namespace.code()] + Seq::new(30, |i: int| 0u8));
        TopicBuilder { buffer, current_index: 2 }
    }

    /// Appends an entity id on four little-endian bytes.
    pub fn append_entity(self, entity: u32) -> (r: Self)
        requires
            self.position() + 4 <= 32,
        ensures
            r.bytes() == write_at(self.bytes(), self.position() as int, spec_u32_to_le_bytes(entity)),
            r.position() == self.position() + 4,
    {
        proof {
            use_type_invariant(self);
        }
        let mut buffer = self.buffer;
        let ci = self.current_index as usize;
        let entity_bytes = u32_to_le_bytes(entity);
        write_bytes(&mut buffer, ci, entity_bytes.as_slice());
        TopicBuilder { buffer, current_index: (ci + 4) as u8 }
    }

    /// Appends a level of detail on two little-endian bytes.
    pub fn append_lod(self, lod: u16) -> (r: Self)
        requires
            self.position() + 2 <= 32,
        ensures
            r.bytes() == write_at(self.bytes(), self.position() as int, spec_u16_to_le_bytes(lod)),
            r.position() == self.position() + 2,
    {
        proof {
            use_type_invariant(self);
        }
        let mut buffer = self.buffer;
        let ci = self.current_index as usize;
        let lod_bytes = u16_to_le_bytes(lod);
        write_bytes(&mut buffer, ci, lod_bytes.as_slice());
        TopicBuilder { buffer, current_index: (ci + 2) as u8 }
    }

    /// Appends a grid cell: x then y, four little-endian bytes each.
    pub fn append_grid(self, cell_x: i32, cell_y: i32) -> (r: Self)
        requires
            self.position() + 8 <= 32,
        ensures
            r.bytes() == write_at(
                self.bytes(),
                self.position() as int,
                spec_u32_to_le_bytes(cell_x as u32) + spec_u32_to_le_bytes(cell_y as u32),
            ),
            r.position() == self.position() + 8,
    {
        proof {
            use_type_invariant(self);
            vstd::bytes::lemma_auto_spec_u32_to_from_le_bytes();
        }
        let mut buffer = self.buffer;
        let ci = self.current_index as usize;
        let x_bytes = u32_to_le_bytes(cell_x as u32);
        let y_bytes = u32_to_le_bytes(cell_y as u32);
        write_bytes(&mut buffer, ci, x_bytes.as_slice());
        write_bytes(&mut buffer, ci + 4, y_bytes.as_slice());
        assert(buffer@ =~= write_at(
            self.buffer@,
            ci as int,
            spec_u32_to_le_bytes(cell_x as u32) + spec_u32_to_le_bytes(cell_y as u32),
        ));
        TopicBuilder { buffer, current_index: (ci + 8) as u8 }
    }

    /// Appends as much of `sub_topic` as fits; the rest is dropped.
    pub fn append(self, sub_topic: &[u8]) -> (r: Self)
        ensures
            ({
                let fill = if sub_topic@.len() <= 32 - self.position() {
                    sub_topic@.len() as int
                } else {
                    32 - self.position()
                };
                &&& r.bytes() == write_at(
                    self.bytes(),
                    self.position() as int,
                    sub_topic@.take(fill),
                )
                &&& r.position() == self.position() + fill
            }),
    {
        proof {
            use_type_invariant(self);
        }
        let length = sub_topic.len();
        let idx = self.current_index as usize;
        let remaining = 32 - idx;
        let fill_in = if length < remaining {
            length
        } else {
            remaining
        };
        let mut buffer = self.buffer;
        write_bytes(&mut buffer, idx, vstd::slice::slice_subrange(sub_topic, 0, fill_in));
        assert(sub_topic@.subrange(0, fill_in as int) =~= sub_topic@.take(fill_in as int));
        TopicBuilder { buffer, current_index: self.current_index + fill_in as u8 }
    }

    /// The topic built.
    pub fn build(self) -> (r: Topic)
        ensures
            r@ == self.bytes(),
    {
        self.buffer
    }
}

/// A builder's topic reads back the domain it was made with, and its
/// namespace unless that is the client line, whose byte is not read back.
pub proof fn lemma_builder_head(domain: SecurityDomain, namespace: Namespace)
    ensures
        SecurityDomain::from_code(domain.code()) == Some(domain),
        namespace != Namespace::ClientLine ==> Namespace::from_code(namespace.code()) == Some(
            namespace,
        ),
        Namespace::from_code(Namespace::ClientLine.code()) is None,
{
}

} // verus!
