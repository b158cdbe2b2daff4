//! The first version of the broker's tags, before the message enum.
use vstd::prelude::*;

verus! {

/// Why a buffer could not be read.
#[derive(Debug, Clone, Copy)]
pub enum ProtocolError {
    BufferTooShort { expected: usize, actual: usize, context: &'static str },
    UnknownTag(u8),
    MalformedData(&'static str),
}

/// The kinds of broker messages of this version.
#[derive(Debug, Clone, Copy, PartialEq, Eq, Structural)]
pub enum ProtocolTag {
    Subscribe,
    Unsubscribe,
    Publish,
    Broadcast,
    AuthorizeClient,
    KickClient,
    /// A client connects to the broker.
    ClientBrokerHello,
}

impl ProtocolTag {
    /// The byte of the tag.
    pub open spec fn code(self) -> u8 {
        match self {
            ProtocolTag::Subscribe => 0x01,
            ProtocolTag::Unsubscribe => 0x02,
            ProtocolTag::Publish => 0x03,
            ProtocolTag::Broadcast => 0x04,
            ProtocolTag::AuthorizeClient => 0x05,
            ProtocolTag::KickClient => 0x06,
            ProtocolTag::ClientBrokerHello => 0x07,
        }
    }

    /// The tag whose byte is `value`, if any.
    pub open spec fn from_code(value: u8) -> Option<ProtocolTag> {
        if value == 0x01 {
            Some(ProtocolTag::Subscribe)
        } else if value == 0x02 {
            Some(ProtocolTag::Unsubscribe)
        } else if value == 0x03 {
            Some(ProtocolTag::Publish)
        } else if value == 0x04 {
            Some(ProtocolTag::Broadcast)
        } else if value == 0x05 {
            Some(ProtocolTag::AuthorizeClient)
        } else if value == 0x06 {
            Some(ProtocolTag::KickClient)
        } else if value == 0x07 {
            Some(ProtocolTag::ClientBrokerHello)
        } else {
            None
        }
    }

    /// Decodes a tag byte; any other value is an unknown tag.
    pub fn try_from(value: u8) -> (r: Result<ProtocolTag, ProtocolError>)
        ensures
            match Self::from_code(value) {
                Some(t) => r == Ok::<ProtocolTag, ProtocolError>(t),
                None => r == Err::<ProtocolTag, ProtocolError>(ProtocolError::UnknownTag(value)),
            },
    {
        if value == 0x01 {
            Ok(ProtocolTag::Subscribe)
        } else if value == 0x02 {
            Ok(ProtocolTag::Unsubscribe)
        } else if value == 0x03 {
            Ok(ProtocolTag::Publish)
        } else if value == 0x04 {
            Ok(ProtocolTag::Broadcast)
        } else if value == 0x05 {
            Ok(ProtocolTag::AuthorizeClient)
        } else if value == 0x06 {
            Ok(ProtocolTag::KickClient)
        } else if value == 0x07 {
            Ok(ProtocolTag::ClientBrokerHello)
        } else {
            Err(ProtocolError::UnknownTag(value))
        }
    }
}

/// Every tag reads back from its byte.
pub proof fn lemma_tag_round_trip(t: ProtocolTag)
    ensures
        ProtocolTag::from_code(t.code()) == Some(t),
{
}

} // verus!
